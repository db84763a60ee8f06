//! A two-pass assembler for the Simplified Instructional Computer (SIC).
//!
//! Source lines go through a symbol-resolution pass and a code-generation
//! pass; the result is an object program made of Header, Text,
//! Modification and End records.

pub mod hex;
pub mod number;
pub mod text;
pub mod directives;
pub mod symbols;
pub mod instructions;
pub mod data_records;
pub mod line;
pub mod errors;
pub mod assembler;
pub mod passes;
pub mod laws;
pub mod config;

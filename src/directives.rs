//! The assembler directives (pseudo-operations).
use vstd::prelude::*;
use crate::text::same_text;

verus! {

/// Whether `t` names one of the directives START, END, RESB, RESW, RESR,
/// BYTE, WORD or EXPORTS (exact, case-sensitive).
pub open spec fn is_directive_name(t: Seq<char>) -> bool {
    t == "START"@ || t == "END"@ || t == "RESB"@ || t == "RESW"@ || t == "RESR"@ || t == "BYTE"@
        || t == "WORD"@ || t == "EXPORTS"@
}

/// Tells a directive from a machine-instruction mnemonic.
pub fn is_directive(directive: &str) -> (r: bool)
    ensures
        r == is_directive_name(directive@),
{
    same_text(directive, "START") || same_text(directive, "END") || same_text(directive, "RESB")
        || same_text(directive, "RESW") || same_text(directive, "RESR") || same_text(
        directive,
        "BYTE",
    ) || same_text(directive, "WORD") || same_text(directive, "EXPORTS")
}

} // verus!

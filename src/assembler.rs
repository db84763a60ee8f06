//! The two passes of the assembler and the rules they share: how far each
//! statement moves the address counter, and what object code it yields.
use vstd::prelude::*;
use vstd::utf8::encode_utf8;
use crate::errors::AsmError;
use crate::hex::{hex_field, hex_pad, wrap32};
use crate::line::opt_view;
use crate::instructions::{find_instruction, instruction_entries, Instruction};
use crate::number::{all_digits, all_digits_in, int_value, parse_int};
use crate::symbols::{find_symbol, first_value, symbol_entries, Symbol};
use crate::text::{same_text, starts_with_char};

verus! {

/// The top of the SIC address space.
pub const MAX_MEMORY: i32 = 0x7FFF;

/// The longest WORD or BYTE operand supported.
pub const MAX_LITERAL: usize = 60;

/// Each byte in upper-case hexadecimal without padding, concatenated.
pub open spec fn bytes_hex(b: Seq<u8>) -> Seq<char> {
    b.map_values(|x: u8| hex_pad(x as nat, 1)).flatten()
}

/// Relies on ascii_to_hex::get_hex_string: it formats each byte of the
/// text's UTF-8 encoding with `{:X}` and concatenates the results.
#[verifier::external_body]
fn ascii_hex(s: &str) -> (r: String)
    ensures
        r@ == bytes_hex(encode_utf8(s@)),
{
    ascii_to_hex::ascii_to_hex::get_hex_string(s)
}

/// A BYTE operand written as a character (`C'...'`) or hex (`X'...'`)
/// literal.
pub open spec fn is_byte_literal(o: Seq<char>) -> bool {
    o.len() > 0 && (o[0] == 'C' || o[0] == 'X')
}

/// The body of a BYTE literal: its wrapper of two leading characters and
/// one trailing character removed.
pub open spec fn literal_body(o: Seq<char>) -> Seq<char> {
    o.subrange(2, o.len() - 1)
}

/// How many bytes a statement reserves. END reserves none; RESB `n`
/// reserves `n`, RESW `n` three times `n`; a BYTE literal `C'...'` reserves
/// its length less 4, a BYTE literal `X'...'` half of that; everything else
/// is one instruction wide, 3.
pub open spec fn address_increment(directive: Seq<char>, operand: Option<Seq<char>>) -> Result<
    int,
    AsmError,
> {
    if directive == "END"@ {
        Ok(0)
    } else if directive == "RESB"@ || directive == "RESW"@ {
        match operand {
            None => Err(AsmError::MissingOperand),
            Some(o) => match int_value(o, 10) {
                None => Err(AsmError::BadNumber),
                Some(n) => Ok(if directive == "RESW"@ { 3 * n } else { n }),
            },
        }
    } else if directive == "BYTE"@ {
        match operand {
            None => Err(AsmError::MissingOperand),
            Some(o) => if !is_byte_literal(o) {
                Ok(3)
            } else if o.len() > MAX_LITERAL {
                Err(AsmError::OperandTooLong)
            } else if o.len() < 4 {
                Err(AsmError::MalformedLiteral)
            } else if o[0] == 'C' {
                Ok(o.len() - 4)
            } else {
                Ok((o.len() - 4) / 2)
            },
        }
    } else {
        Ok(3)
    }
}

/// Checks that a BYTE literal fits the supported shape.
fn check_literal(o: &str) -> (r: Result<(), AsmError>)
    ensures
        r == (if o@.len() > MAX_LITERAL {
            Err(AsmError::OperandTooLong)
        } else if o@.len() < 4 {
            Err(AsmError::MalformedLiteral)
        } else {
            Ok::<(), AsmError>(())
        }),
{
    let n = o.unicode_len();
    if n > MAX_LITERAL {
        Err(AsmError::OperandTooLong)
    } else if n < 4 {
        Err(AsmError::MalformedLiteral)
    } else {
        Ok(())
    }
}

/// How many bytes a statement reserves.
pub fn get_address_increment(directive: &str, operand: Option<&str>) -> (r: Result<i64, AsmError>)
    ensures
        match r {
            Ok(n) => address_increment(directive@, opt_view(operand)) == Ok::<
                int,
                AsmError,
            >(n as int),
            Err(e) => address_increment(directive@, opt_view(operand)) == Err::<
                int,
                AsmError,
            >(e),
        },
{
    if same_text(directive, "END") {
        return Ok(0);
    }
    let resb = same_text(directive, "RESB");
    let resw = same_text(directive, "RESW");
    if resb || resw {
        match operand {
            None => Err(AsmError::MissingOperand),
            Some(o) => match parse_int(o, 10) {
                None => Err(AsmError::BadNumber),
                Some(n) => Ok(if resw { 3 * (n as i64) } else { n as i64 }),
            },
        }
    } else if same_text(directive, "BYTE") {
        match operand {
            None => Err(AsmError::MissingOperand),
            Some(o) => {
                let c = starts_with_char(o, 'C');
                if !c && !starts_with_char(o, 'X') {
                    return Ok(3);
                }
                check_literal(o)?;
                let len = o.unicode_len() as i64;
                if c {
                    Ok(len - 4)
                } else {
                    Ok((len - 4) / 2)
                }
            },
        }
    } else {
        Ok(3)
    }
}

/// The object code of a statement, with `opcodes` as the instruction
/// table. A machine instruction gives its opcode in two hex digits and its operand's address in four (0 for an operand
/// that is no symbol, or for no operand); WORD gives its decimal operand in
/// six hex digits; a BYTE literal `X'...'` gives its hex digits as written,
/// and `C'...'` the hex codes of its characters. Anything else yields no
/// code.
pub open spec fn object_code(
    directive: Seq<char>,
    operand: Option<Seq<char>>,
    opcodes: Seq<(Seq<char>, int)>,
    symbols: Seq<(Seq<char>, int)>,
) -> Result<Seq<char>, AsmError> {
    match first_value(opcodes, directive) {
        Some(op) => {
            let address = match operand {
                Some(o) => match first_value(symbols, o) {
                    Some(a) => a,
                    None => 0,
                },
                None => 0,
            };
            Ok(hex_pad(wrap32(op), 2) + hex_pad(wrap32(address), 4))
        },
        None => match operand {
            None => Ok(Seq::empty()),
            Some(o) => if directive == "WORD"@ {
                if o.len() > MAX_LITERAL {
                    Err(AsmError::OperandTooLong)
                } else {
                    match int_value(o, 10) {
                        None => Err(AsmError::BadNumber),
                        Some(v) => Ok(hex_pad(wrap32(v), 6)),
                    }
                }
            } else if directive == "BYTE"@ && is_byte_literal(o) {
                if o.len() > MAX_LITERAL {
                    Err(AsmError::OperandTooLong)
                } else if o.len() < 4 {
                    Err(AsmError::MalformedLiteral)
                } else if o[0] == 'X' {
                    if all_digits(literal_body(o), 16) {
                        Ok(literal_body(o))
                    } else {
                        Err(AsmError::BadNumber)
                    }
                } else {
                    Ok(bytes_hex(encode_utf8(literal_body(o))))
                }
            } else {
                Ok(Seq::empty())
            },
        },
    }
}

/// The object code of a statement.
pub fn find_object_code(
    opcodes: &Vec<Instruction>,
    symtable: &Vec<Symbol>,
    directive: &str,
    operand: Option<&str>,
) -> (r: Result<String, AsmError>)
    ensures
        match r {
            Ok(s) => object_code(
                directive@,
                opt_view(operand),
                instruction_entries(opcodes@),
                symbol_entries(symtable@),
            ) == Ok::<Seq<char>, AsmError>(s@),
            Err(e) => object_code(
                directive@,
                opt_view(operand),
                instruction_entries(opcodes@),
                symbol_entries(symtable@),
            ) == Err::<Seq<char>, AsmError>(e),
        },
{
    if let Some(ins) = find_instruction(opcodes, directive) {
        let mut address: i32 = 0;
        if let Some(o) = operand {
            if let Some(s) = find_symbol(symtable, o) {
                address = *s.address();
            }
        }
        let mut code = hex_field(*ins.opcode() as i64, 2);
        code.append(hex_field(address as i64, 4).as_str());
        return Ok(code);
    }
    let o = match operand {
        None => {
            return Ok(String::new());
        },
        Some(o) => o,
    };
    if same_text(directive, "WORD") {
        if o.unicode_len() > MAX_LITERAL {
            return Err(AsmError::OperandTooLong);
        }
        match parse_int(o, 10) {
            None => Err(AsmError::BadNumber),
            Some(v) => Ok(hex_field(v as i64, 6)),
        }
    } else if same_text(directive, "BYTE") && (starts_with_char(o, 'C') || starts_with_char(
        o,
        'X',
    )) {
        check_literal(o)?;
        let body = o.substring_char(2, o.unicode_len() - 1);
        if starts_with_char(o, 'X') {
            if all_digits_in(body, 16) {
                Ok(String::from_str(body))
            } else {
                Err(AsmError::BadNumber)
            }
        } else {
            Ok(ascii_hex(body))
        }
    } else {
        Ok(String::new())
    }
}

} // verus!

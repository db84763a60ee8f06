//! Properties that relate several parts of the assembler.
use vstd::prelude::*;
use crate::assembler::{address_increment, object_code};
use crate::data_records::{object_file_text, ObjectView};
use crate::errors::AsmError;
use crate::hex::{hex_digit, hex_pad, wrap32};
use crate::instructions::{opcode_of, opcode_table};
use crate::number::{all_digits, digit_value, digits_value, has_sign, int_value};
use crate::passes::{assembly, lemma_pass_one_error, pass_one_run, pass_two_run};
use crate::symbols::first_value;

verus! {

/// RESW reserves three times what RESB reserves for the same operand, and
/// fails exactly when RESB fails, with the same error.
pub proof fn lemma_resw_is_three_resb(operand: Seq<char>)
    ensures
        match address_increment("RESB"@, Some(operand)) {
            Ok(n) => address_increment("RESW"@, Some(operand)) == Ok::<int, AsmError>(3 * n),
            Err(e) => address_increment("RESW"@, Some(operand)) == Err::<int, AsmError>(e),
        },
{
    reveal_strlit("END");
    reveal_strlit("RESB");
    reveal_strlit("RESW");
    assert("END"@.len() != "RESB"@.len());
    assert("END"@.len() != "RESW"@.len());
    assert("RESB"@[3] != "RESW"@[3]);
}

/// Sixteen to the power `w`.
pub open spec fn pow16(w: nat) -> int
    decreases w,
{
    if w == 0 {
        1
    } else {
        16 * pow16((w - 1) as nat)
    }
}

/// The digits of `hex_pad` read back as the number they were made from.
pub proof fn lemma_hex_pad_reads_back(n: nat, w: nat)
    ensures
        all_digits(hex_pad(n, w), 16),
        digits_value(hex_pad(n, w), 16) == n,
        !has_sign(hex_pad(n, w)),
        n < pow16(w) ==> hex_pad(n, w).len() == w,
        hex_pad(n, w).len() >= w,
    decreases n, w,
{
    if !(n == 0 && w == 0) {
        let rest: nat = if w > 0 { (w - 1) as nat } else { 0 };
        lemma_hex_pad_reads_back(n / 16, rest);
        let s = hex_pad(n, w);
        let d = (n % 16) as int;
        assert(s == hex_pad(n / 16, rest).push(hex_digit(d)));
        assert(s.drop_last() =~= hex_pad(n / 16, rest));
        assert(digit_value(hex_digit(d)) == d);
        assert forall|i: int| 0 <= i < s.len() implies 0 <= #[trigger] digit_value(s[i]) < 16 by {
            if i < s.len() - 1 {
                assert(s[i] == hex_pad(n / 16, rest)[i]);
            }
        }
        if w > 0 && n < pow16(w) {
            assert(n / 16 < pow16(rest));
        }
        if s.len() > 0 {
            assert(s[0] != '-' && s[0] != '+') by {
                assert(0 <= digit_value(s[0]) < 16);
            }
        }
    }
}

/// A WORD with a value of zero or more is emitted as hexadecimal digits that
/// read back as that value; six of them when the value is below 16⁶.
pub proof fn lemma_word_round_trip(operand: Seq<char>, symbols: Seq<(Seq<char>, int)>, v: int)
    requires
        operand.len() <= 60,
        int_value(operand, 10) == Some(v),
        v >= 0,
    ensures
        object_code("WORD"@, Some(operand), opcode_table(), symbols) matches Ok(code) && (int_value(code, 16)
            == Some(v) && (v < 0x100_0000 ==> code.len() == 6)),
{
    lemma_word_is_no_instruction();
    let code = hex_pad(wrap32(v), 6);
    assert(object_code("WORD"@, Some(operand), opcode_table(), symbols) == Ok::<Seq<char>, AsmError>(code));
    lemma_hex_pad_reads_back(v as nat, 6);
    reveal_with_fuel(pow16, 7);
    assert(pow16(6) == 0x100_0000);
}

/// WORD is not a machine instruction.
proof fn lemma_word_is_no_instruction()
    ensures
        opcode_of("WORD"@) is None,
{
    reveal_strlit("WORD");
    reveal_strlit("ADD");
    reveal_strlit("AND");
    reveal_strlit("COMP");
    reveal_strlit("DIV");
    reveal_strlit("J");
    reveal_strlit("JEQ");
    reveal_strlit("JGT");
    reveal_strlit("JLT");
    reveal_strlit("JSUB");
    reveal_strlit("LDA");
    reveal_strlit("LDCH");
    reveal_strlit("LDL");
    reveal_strlit("LDX");
    reveal_strlit("MUL");
    reveal_strlit("OR");
    reveal_strlit("RD");
    reveal_strlit("RSUB");
    reveal_strlit("STA");
    reveal_strlit("STCH");
    reveal_strlit("STL");
    reveal_strlit("STSW");
    reveal_strlit("STX");
    reveal_strlit("SUB");
    reveal_strlit("TD");
    reveal_strlit("TIX");
    reveal_strlit("WD");
    let t = opcode_table();
    assert forall|i: int| 0 <= i < t.len() implies t[i].0 != "WORD"@ by {
        if t[i].0.len() == 4 {
            assert(t[i].0[0] != 'W' || t[i].0[1] != 'O');
        }
    }
    lemma_no_key(t, "WORD"@);
}

/// A table without an entry for `key` gives no value for it.
proof fn lemma_no_key(entries: Seq<(Seq<char>, int)>, key: Seq<char>)
    requires
        forall|i: int| 0 <= i < entries.len() ==> entries[i].0 != key,
    ensures
        first_value(entries, key) is None,
    decreases entries.len(),
{
    if entries.len() > 0 {
        lemma_no_key(entries.drop_last(), key);
    }
}

/// The assembly of a source is a function of its lines alone: the same
/// lines give byte-identical object files, or the same error.
pub proof fn lemma_assembly_deterministic(first: Seq<Seq<char>>, second: Seq<Seq<char>>)
    requires
        first == second,
    ensures
        assembly(first) == assembly(second),
        assembly(first) matches Ok(a) ==> (assembly(second) matches Ok(b) && object_file_text(a)
            == object_file_text(b)),
{
}

/// On every prefix of the source that both passes read without error, and
/// that does not run past the END at which pass 2 stops, the two passes
/// hold the same address counter.
pub proof fn lemma_passes_agree(
    lines: Seq<Seq<char>>,
    symbols: Seq<(Seq<char>, int)>,
    program_end: int,
    k: int,
)
    requires
        0 <= k <= lines.len(),
        pass_one_run(lines.subrange(0, k)) is Ok,
        pass_two_run(lines.subrange(0, k), symbols, program_end) is Ok,
        k == 0 || (pass_two_run(lines.subrange(0, k - 1), symbols, program_end) matches Ok(t)
            && !t.finished),
    ensures
        pass_one_run(lines.subrange(0, k))->Ok_0.counter == pass_two_run(
            lines.subrange(0, k),
            symbols,
            program_end,
        )->Ok_0.counter,
    decreases k,
{
    if k > 0 {
        let prev = lines.subrange(0, k - 1);
        assert(lines.subrange(0, k).drop_last() =~= prev);
        if k > 1 {
            assert(prev.drop_last() =~= lines.subrange(0, k - 2));
            assert(lines.subrange(0, k - 1) =~= prev);
        }
        lemma_passes_agree(lines, symbols, program_end, k - 1);
    }
}


/// Once the address counter has reached the top of memory with lines still
/// to read, the assembly fails with the memory-bound error, whatever those
/// lines hold.
pub proof fn lemma_memory_bound_aborts(lines: Seq<Seq<char>>, k: int)
    requires
        0 <= k < lines.len(),
        pass_one_run(lines.subrange(0, k)) matches Ok(s) && s.counter >= 0x7FFF,
    ensures
        assembly(lines) == Err::<ObjectView, AsmError>(AsmError::MemoryOutOfBounds),
{
    assert(lines.subrange(0, k + 1).drop_last() =~= lines.subrange(0, k));
    lemma_pass_one_error(lines, k + 1);
}

} // verus!

//! The SIC instruction table: mnemonics and their opcodes.
use vstd::prelude::*;
use crate::symbols::first_value;
use crate::text::same_text;

verus! {

/// A machine instruction: its mnemonic and its opcode.
pub struct Instruction<'a> {
    name: &'a str,
    opcode: i32,
}

impl<'a> View for Instruction<'a> {
    type V = (Seq<char>, int);

    closed spec fn view(&self) -> (Seq<char>, int) {
        (self.name@, self.opcode as int)
    }
}

impl<'a> Instruction<'a> {
    pub fn new(name: &'a str, opcode: i32) -> (r: Self)
        ensures
            r@ == (name@, opcode as int),
    {
        Instruction { name, opcode }
    }

    pub fn name(&self) -> (r: &str)
        ensures
            r@ == self@.0,
    {
        self.name
    }

    pub fn opcode(&self) -> (r: &i32)
        ensures
            *r as int == self@.1,
    {
        &self.opcode
    }
}

/// The SIC machine instructions with their opcodes.
pub open spec fn opcode_table() -> Seq<(Seq<char>, int)> {
    seq![
        ("ADD"@, 0x18),
        ("AND"@, 0x40),
        ("COMP"@, 0x28),
        ("DIV"@, 0x24),
        ("J"@, 0x3C),
        ("JEQ"@, 0x30),
        ("JGT"@, 0x34),
        ("JLT"@, 0x38),
        ("JSUB"@, 0x48),
        ("LDA"@, 0x00),
        ("LDCH"@, 0x50),
        ("LDL"@, 0x08),
        ("LDX"@, 0x04),
        ("MUL"@, 0x20),
        ("OR"@, 0x44),
        ("RD"@, 0xD8),
        ("RSUB"@, 0x4C),
        ("STA"@, 0x0C),
        ("STCH"@, 0x54),
        ("STL"@, 0x14),
        ("STSW"@, 0xE8),
        ("STX"@, 0x10),
        ("SUB"@, 0x1C),
        ("TD"@, 0xE0),
        ("TIX"@, 0x2C),
        ("WD"@, 0xDC),
    ]
}

/// The opcode of a mnemonic, if it names a SIC machine instruction.
pub open spec fn opcode_of(name: Seq<char>) -> Option<int> {
    first_value(opcode_table(), name)
}

/// The instruction list as a name-to-opcode table.
pub open spec fn instruction_entries<'a>(list: Seq<Instruction<'a>>) -> Seq<(Seq<char>, int)> {
    list.map_values(|i: Instruction<'a>| i@)
}

/// Appends the SIC instruction table to `opcodes_list`.
pub fn initalize_opcodes(opcodes_list: &mut Vec<Instruction<'static>>)
    ensures
        instruction_entries(final(opcodes_list)@) == instruction_entries(old(opcodes_list)@)
            + opcode_table(),
{
    let names: [&'static str; 26] = [
        "ADD", "AND", "COMP", "DIV", "J", "JEQ", "JGT", "JLT", "JSUB", "LDA", "LDCH", "LDL", "LDX",
        "MUL", "OR", "RD", "RSUB", "STA", "STCH", "STL", "STSW", "STX", "SUB", "TD", "TIX", "WD",
    ];
    let codes: [i32; 26] = [
        0x18, 0x40, 0x28, 0x24, 0x3C, 0x30, 0x34, 0x38, 0x48, 0x00, 0x50, 0x08, 0x04, 0x20, 0x44,
        0xD8, 0x4C, 0x0C, 0x54, 0x14, 0xE8, 0x10, 0x1C, 0xE0, 0x2C, 0xDC,
    ];
    let ghost table = opcode_table();
    assert(names@.map_values(|n: &str| n@) =~= table.map_values(|e: (Seq<char>, int)| e.0));
    assert(codes@.map_values(|c: i32| c as int) =~= table.map_values(|e: (Seq<char>, int)| e.1));
    let ghost start = instruction_entries(opcodes_list@);
    let mut i: usize = 0;
    while i < 26
        invariant
            i <= 26,
            table == opcode_table(),
            table.len() == 26,
            names@.map_values(|n: &str| n@) == table.map_values(|e: (Seq<char>, int)| e.0),
            codes@.map_values(|c: i32| c as int) == table.map_values(|e: (Seq<char>, int)| e.1),
            instruction_entries(opcodes_list@) =~= start + table.subrange(0, i as int),
        decreases 26 - i,
    {
        let ghost before = opcodes_list@;
        opcodes_list.push(Instruction::new(names[i], codes[i]));
        assert(names@.map_values(|n: &str| n@)[i as int] == table[i as int].0);
        assert(codes@.map_values(|c: i32| c as int)[i as int] == table[i as int].1);
        assert(instruction_entries(opcodes_list@) =~= instruction_entries(before).push(
            table[i as int],
        ));
        assert(table.subrange(0, i + 1) =~= table.subrange(0, i as int).push(table[i as int]));
        i = i + 1;
    }
    assert(table.subrange(0, 26) =~= table);
}

/// Looks a mnemonic up in the instruction list; the first entry wins.
pub fn find_instruction<'a, 'b>(opcodes: &'b Vec<Instruction<'a>>, name: &str) -> (r: Option<
    &'b Instruction<'a>,
>)
    ensures
        r matches Some(ins) ==> ins@.0 == name@ && first_value(
            instruction_entries(opcodes@),
            name@,
        ) == Some(ins@.1),
        r is None ==> first_value(instruction_entries(opcodes@), name@) is None,
{
    let ghost entries = instruction_entries(opcodes@);
    let mut i: usize = 0;
    while i < opcodes.len()
        invariant
            i <= opcodes@.len(),
            entries == instruction_entries(opcodes@),
            first_value(entries.subrange(0, i as int), name@) is None,
        decreases opcodes@.len() - i,
    {
        let ins = &opcodes[i];
        assert(entries.subrange(0, i + 1).drop_last() =~= entries.subrange(0, i as int));
        if same_text(ins.name(), name) {
            proof {
                crate::symbols::lemma_first_value_prefix(entries, name@, i + 1);
            }
            return Some(ins);
        }
        i = i + 1;
    }
    assert(entries.subrange(0, i as int) =~= entries);
    None
}

} // verus!

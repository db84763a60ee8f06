//! Pass 1 builds the symbol table, pass 2 the object program; both walk the
//! same lines and move the address counter by the same rule.
use vstd::prelude::*;
use crate::assembler::{address_increment, find_object_code, get_address_increment, object_code, MAX_MEMORY};
use crate::data_records::{
    add_mod_record, empty_object, end_record_text, head_record_text, mod_record_text, mod_views,
    text_record_text, write_end_record, write_head_record, write_mod_record, write_text_record,
    ModRecordData, ModRecordView, ObjectData, ObjectView,
};
use crate::directives::{is_directive, is_directive_name};
use crate::errors::AsmError;
use crate::instructions::{initalize_opcodes, instruction_entries, opcode_table, Instruction};
use crate::line::{classify_line, line_fields, line_kind, parse_line, AssemblyLine, LineKind};
use crate::number::{int_value, parse_int};
use crate::symbols::{symbol_entries, Symbol};
use crate::text::{same_text, string_views};

verus! {

/// The address counter after a line, the same in both passes. The counter
/// must lie below the top of memory before each line. A comment leaves it
/// alone; START sets it to the hexadecimal load address; any other
/// statement moves it on by its address increment, which must keep it
/// within 32 bits.
pub open spec fn next_counter(counter: int, line: Seq<char>) -> Result<int, AsmError> {
    if counter >= MAX_MEMORY {
        Err(AsmError::MemoryOutOfBounds)
    } else if line_kind(line) == LineKind::Comment {
        Ok(counter)
    } else {
        let f = line_fields(line);
        match f.directive {
            None => Err(AsmError::MissingDirective),
            Some(d) => if d == "START"@ {
                match f.operand {
                    None => Err(AsmError::MissingOperand),
                    Some(o) => match int_value(o, 16) {
                        None => Err(AsmError::BadNumber),
                        Some(a) => Ok(a),
                    },
                }
            } else {
                match address_increment(d, f.operand) {
                    Err(e) => Err(e),
                    Ok(n) => if i32::MIN <= counter + n <= i32::MAX {
                        Ok(counter + n)
                    } else {
                        Err(AsmError::MemoryOutOfBounds)
                    },
                }
            },
        }
    }
}

/// Whether the address counter has reached the top of the SIC address
/// space.
pub fn is_memory_out_of_bounds(current_counter: &i32) -> (r: bool)
    ensures
        r == (*current_counter >= MAX_MEMORY),
{
    *current_counter >= MAX_MEMORY
}

/// Reads one line for either pass: checks the memory bound, classifies the
/// line, splits a statement into its fields and moves the address counter
/// on. A comment gives `None`.
pub fn scan_line<'a>(line: &'a str, counter: &mut i32) -> (r: Result<
    Option<AssemblyLine<'a>>,
    AsmError,
>)
    ensures
        match next_counter(*old(counter) as int, line@) {
            Ok(c) => *final(counter) == c && match r {
                Ok(Some(al)) => line_kind(line@) != LineKind::Comment && al@ == line_fields(line@)
                    && al@.directive is Some,
                Ok(None) => line_kind(line@) == LineKind::Comment,
                Err(_) => false,
            },
            Err(e) => r == Err::<Option<AssemblyLine<'a>>, AsmError>(e),
        },
{
    if is_memory_out_of_bounds(counter) {
        return Err(AsmError::MemoryOutOfBounds);
    }
    let kind = classify_line(line, counter);
    if kind == LineKind::Comment {
        return Ok(None);
    }
    let al = parse_line(line, kind);
    let d = match al.directive() {
        None => {
            return Err(AsmError::MissingDirective);
        },
        Some(d) => d,
    };
    if same_text(d, "START") {
        match al.operand() {
            None => Err(AsmError::MissingOperand),
            Some(o) => match parse_int(o, 16) {
                None => Err(AsmError::BadNumber),
                Some(a) => {
                    *counter = a;
                    Ok(Some(al))
                },
            },
        }
    } else {
        let n = get_address_increment(d, al.operand())?;
        // The classifier has already counted one instruction width for a
        // tab-led line; what is left is the directive's own correction.
        let base: i64 = if kind == LineKind::Instruction { 3 } else { 0 };
        let next: i64 = *counter as i64 + (n - base);
        if next < i32::MIN as i64 || next > i32::MAX as i64 {
            return Err(AsmError::MemoryOutOfBounds);
        }
        *counter = next as i32;
        Ok(Some(al))
    }
}

/// What pass 1 has found after some lines: the address counter and the
/// symbol table.
pub struct PassOneState {
    pub counter: int,
    pub symbols: Seq<(Seq<char>, int)>,
}

/// Pass 1 on one line: a label on any statement but START is defined at
/// the counter's value before the line.
pub open spec fn pass_one_step(s: PassOneState, line: Seq<char>) -> Result<PassOneState, AsmError> {
    match next_counter(s.counter, line) {
        Err(e) => Err(e),
        Ok(c) => {
            let f = line_fields(line);
            let symbols = match f.symbol {
                Some(name) => if line_kind(line) != LineKind::Comment && f.directive != Some(
                    "START"@,
                ) {
                    s.symbols.push((name, s.counter))
                } else {
                    s.symbols
                },
                None => s.symbols,
            };
            Ok(PassOneState { counter: c, symbols })
        },
    }
}

/// Pass 1 over the lines, from a counter of 0 and an empty symbol table.
pub open spec fn pass_one_run(lines: Seq<Seq<char>>) -> Result<PassOneState, AsmError>
    decreases lines.len(),
{
    if lines.len() == 0 {
        Ok(PassOneState { counter: 0, symbols: Seq::empty() })
    } else {
        match pass_one_run(lines.drop_last()) {
            Err(e) => Err(e),
            Ok(s) => pass_one_step(s, lines.last()),
        }
    }
}

/// An error in pass 1 ends it.
pub proof fn lemma_pass_one_error(lines: Seq<Seq<char>>, k: int)
    requires
        0 <= k <= lines.len(),
        pass_one_run(lines.subrange(0, k)) is Err,
    ensures
        pass_one_run(lines) == pass_one_run(lines.subrange(0, k)),
    decreases lines.len() - k,
{
    if k < lines.len() {
        assert(lines.subrange(0, k + 1).drop_last() =~= lines.subrange(0, k));
        lemma_pass_one_error(lines, k + 1);
    } else {
        assert(lines.subrange(0, k) =~= lines);
    }
}

/// The result of pass 1: the symbol table and the final address counter.
pub struct PassOne {
    symbols: Vec<Symbol>,
    counter: i32,
}

impl View for PassOne {
    type V = PassOneState;

    closed spec fn view(&self) -> PassOneState {
        PassOneState { counter: self.counter as int, symbols: symbol_entries(self.symbols@) }
    }
}

impl PassOne {
    pub fn symbols(&self) -> (r: &Vec<Symbol>)
        ensures
            symbol_entries(r@) == self@.symbols,
    {
        &self.symbols
    }

    pub fn counter(&self) -> (r: i32)
        ensures
            r as int == self@.counter,
    {
        self.counter
    }

    /// Pass 1 on one line.
    fn step(&mut self, line: &str) -> (r: Result<(), AsmError>)
        ensures
            match pass_one_step(old(self)@, line@) {
                Ok(s) => r is Ok && final(self)@ == s,
                Err(e) => r == Err::<(), AsmError>(e),
            },
    {
        let here = self.counter;
        let al = match scan_line(line, &mut self.counter) {
            Err(e) => {
                return Err(e);
            },
            Ok(None) => {
                return Ok(());
            },
            Ok(Some(al)) => al,
        };
        if let Some(name) = al.symbol() {
            if !same_text(al.directive().unwrap(), "START") {
                let ghost before = self.symbols@;
                self.symbols.push(Symbol::new(String::from_str(name), here));
                assert(symbol_entries(self.symbols@) =~= symbol_entries(before).push(
                    (name@, here as int),
                ));
            }
        }
        Ok(())
    }
}

/// Pass 1: walks the lines, defines each label at the address counter's
/// value, and gives the symbol table with the final counter.
pub fn pass_one(lines: &Vec<String>) -> (r: Result<PassOne, AsmError>)
    ensures
        match r {
            Ok(p) => pass_one_run(string_views(lines@)) == Ok::<PassOneState, AsmError>(p@),
            Err(e) => pass_one_run(string_views(lines@)) == Err::<PassOneState, AsmError>(e),
        },
{
    let ghost lv = string_views(lines@);
    let mut p = PassOne { symbols: Vec::new(), counter: 0 };
    assert(symbol_entries(p.symbols@) =~= Seq::empty());
    assert(lv.subrange(0, 0) =~= Seq::empty());
    let mut i: usize = 0;
    while i < lines.len()
        invariant
            i <= lines@.len(),
            lv == string_views(lines@),
            pass_one_run(lv.subrange(0, i as int)) == Ok::<PassOneState, AsmError>(p@),
        decreases lines@.len() - i,
    {
        assert(lv.subrange(0, i + 1).drop_last() =~= lv.subrange(0, i as int));
        assert(lv.subrange(0, i + 1).last() == lines@[i as int]@);
        match p.step(lines[i].as_str()) {
            Err(e) => {
                proof {
                    lemma_pass_one_error(lv, i + 1);
                }
                return Err(e);
            },
            Ok(()) => {},
        }
        i = i + 1;
    }
    assert(lv.subrange(0, i as int) =~= lv);
    Ok(p)
}


/// What pass 2 has built after some lines: the address counter, the load
/// address once START was seen, the records, the pending relocations, and
/// whether END was reached.
pub struct PassTwoState {
    pub counter: int,
    pub start: Option<int>,
    pub object: ObjectView,
    pub relocations: Seq<ModRecordView>,
    pub finished: bool,
}

/// A machine instruction other than RSUB with an operand refers to a symbol
/// that a loader must relocate.
pub open spec fn needs_relocation(directive: Seq<char>, operand: Option<Seq<char>>) -> bool {
    !is_directive_name(directive) && directive != "RSUB"@ && operand is Some
}

/// Pass 2 on one line. START (once only, with the program name as label)
/// writes the head record with the program length `program_end` less the
/// load address; every other statement needs START before it. END writes
/// the end record and the modification records and finishes the pass;
/// lines after it are not read. Any other statement appends one text record
/// and, where it needs relocation, a relocation at the load address four
/// half-bytes long against its operand.
pub open spec fn pass_two_step(
    s: PassTwoState,
    line: Seq<char>,
    symbols: Seq<(Seq<char>, int)>,
    program_end: int,
) -> Result<PassTwoState, AsmError> {
    if s.finished {
        Ok(s)
    } else {
        match next_counter(s.counter, line) {
            Err(e) => Err(e),
            Ok(c) => if line_kind(line) == LineKind::Comment {
                Ok(s)
            } else {
                let f = line_fields(line);
                match f.directive {
                    None => Err(AsmError::MissingDirective),
                    Some(d) => if d == "START"@ {
                        if s.start is Some {
                            Err(AsmError::DuplicateStart)
                        } else {
                            match f.symbol {
                                None => Err(AsmError::MissingProgramName),
                                Some(name) => Ok(
                                    PassTwoState {
                                        counter: c,
                                        start: Some(c),
                                        object: ObjectView {
                                            head: head_record_text(name, c, program_end - c),
                                            ..s.object
                                        },
                                        ..s
                                    },
                                ),
                            }
                        }
                    } else {
                        match s.start {
                            None => Err(AsmError::MissingStart),
                            Some(load) => if d == "END"@ {
                                Ok(
                                    PassTwoState {
                                        counter: c,
                                        object: ObjectView {
                                            end: end_record_text(load),
                                            mods: s.object.mods + s.relocations.map_values(
                                                |m: ModRecordView| mod_record_text(m),
                                            ),
                                            ..s.object
                                        },
                                        finished: true,
                                        ..s
                                    },
                                )
                            } else {
                                match object_code(d, f.operand, opcode_table(), symbols) {
                                    Err(e) => Err(e),
                                    Ok(code) => Ok(
                                        PassTwoState {
                                            counter: c,
                                            object: ObjectView {
                                                text: s.object.text.push(text_record_text(code)),
                                                ..s.object
                                            },
                                            relocations: match f.operand {
                                                Some(o) => if needs_relocation(d, f.operand) {
                                                    s.relocations.push(
                                                        ModRecordView {
                                                            start: load,
                                                            length: 4,
                                                            symbol: o,
                                                        },
                                                    )
                                                } else {
                                                    s.relocations
                                                },
                                                None => s.relocations,
                                            },
                                            ..s
                                        },
                                    ),
                                }
                            },
                        }
                    },
                }
            },
        }
    }
}

/// The state pass 2 starts from.
pub open spec fn pass_two_initial() -> PassTwoState {
    PassTwoState {
        counter: 0,
        start: None,
        object: empty_object(),
        relocations: Seq::empty(),
        finished: false,
    }
}

/// Pass 2 over the lines.
pub open spec fn pass_two_run(
    lines: Seq<Seq<char>>,
    symbols: Seq<(Seq<char>, int)>,
    program_end: int,
) -> Result<PassTwoState, AsmError>
    decreases lines.len(),
{
    if lines.len() == 0 {
        Ok(pass_two_initial())
    } else {
        match pass_two_run(lines.drop_last(), symbols, program_end) {
            Err(e) => Err(e),
            Ok(s) => pass_two_step(s, lines.last(), symbols, program_end),
        }
    }
}

/// The object program that pass 2 produces; a source without END has
/// none.
pub open spec fn pass_two_result(
    lines: Seq<Seq<char>>,
    symbols: Seq<(Seq<char>, int)>,
    program_end: int,
) -> Result<ObjectView, AsmError> {
    match pass_two_run(lines, symbols, program_end) {
        Err(e) => Err(e),
        Ok(s) => if s.finished {
            Ok(s.object)
        } else {
            Err(AsmError::MissingEnd)
        },
    }
}

/// The whole assembly: pass 1, then pass 2 with pass 1's symbol table and
/// final address counter.
pub open spec fn assembly(lines: Seq<Seq<char>>) -> Result<ObjectView, AsmError> {
    match pass_one_run(lines) {
        Err(e) => Err(e),
        Ok(p) => pass_two_result(lines, p.symbols, p.counter),
    }
}

/// Once pass 2 has failed or finished, later lines change nothing.
pub proof fn lemma_pass_two_settled(
    lines: Seq<Seq<char>>,
    symbols: Seq<(Seq<char>, int)>,
    program_end: int,
    k: int,
)
    requires
        0 <= k <= lines.len(),
        match pass_two_run(lines.subrange(0, k), symbols, program_end) {
            Err(_) => true,
            Ok(s) => s.finished,
        },
    ensures
        pass_two_run(lines, symbols, program_end) == pass_two_run(
            lines.subrange(0, k),
            symbols,
            program_end,
        ),
    decreases lines.len() - k,
{
    if k < lines.len() {
        assert(lines.subrange(0, k + 1).drop_last() =~= lines.subrange(0, k));
        lemma_pass_two_settled(lines, symbols, program_end, k + 1);
    } else {
        assert(lines.subrange(0, k) =~= lines);
    }
}

/// Pass 2 in progress.
struct PassTwo {
    counter: i32,
    starting_address: Option<i32>,
    object_data: ObjectData,
    mod_records: Vec<ModRecordData>,
    finished: bool,
}

impl View for PassTwo {
    type V = PassTwoState;

    closed spec fn view(&self) -> PassTwoState {
        PassTwoState {
            counter: self.counter as int,
            start: match self.starting_address {
                Some(a) => Some(a as int),
                None => None,
            },
            object: self.object_data@,
            relocations: mod_views(self.mod_records@),
            finished: self.finished,
        }
    }
}

impl PassTwo {
    /// Pass 2 on one line.
    fn step(
        &mut self,
        line: &str,
        opcodes: &Vec<Instruction>,
        symtable: &Vec<Symbol>,
        program_end: i32,
    ) -> (r: Result<(), AsmError>)
        requires
            !old(self)@.finished,
            instruction_entries(opcodes@) == opcode_table(),
        ensures
            match pass_two_step(old(self)@, line@, symbol_entries(symtable@), program_end as int) {
                Ok(s) => r is Ok && final(self)@ == s,
                Err(e) => r == Err::<(), AsmError>(e),
            },
    {
        let al = match scan_line(line, &mut self.counter) {
            Err(e) => {
                return Err(e);
            },
            Ok(None) => {
                return Ok(());
            },
            Ok(Some(al)) => al,
        };
        let d = al.directive().unwrap();
        if same_text(d, "START") {
            if self.starting_address.is_some() {
                return Err(AsmError::DuplicateStart);
            }
            let name = match al.symbol() {
                None => {
                    return Err(AsmError::MissingProgramName);
                },
                Some(name) => name,
            };
            self.starting_address = Some(self.counter);
            let length = program_end as i64 - self.counter as i64;
            write_head_record(&mut self.object_data, name, &self.counter, length);
            return Ok(());
        }
        let load = match self.starting_address {
            None => {
                return Err(AsmError::MissingStart);
            },
            Some(a) => a,
        };
        if same_text(d, "END") {
            write_end_record(&mut self.object_data, &load);
            write_mod_record(&mut self.object_data, &self.mod_records);
            self.finished = true;
            return Ok(());
        }
        let code = find_object_code(opcodes, symtable, d, al.operand())?;
        write_text_record(&mut self.object_data, code.as_str());
        if !is_directive(d) && !same_text(d, "RSUB") {
            add_mod_record(&mut self.mod_records, &load, &4, al.operand());
        }
        Ok(())
    }
}

/// Pass 2: walks the lines again with the symbol table of pass 1 and the
/// final address counter, and builds the object program up to END.
pub fn pass_two(lines: &Vec<String>, symtable: &Vec<Symbol>, program_end: i32) -> (r: Result<
    ObjectData,
    AsmError,
>)
    ensures
        match r {
            Ok(o) => pass_two_result(
                string_views(lines@),
                symbol_entries(symtable@),
                program_end as int,
            ) == Ok::<ObjectView, AsmError>(o@),
            Err(e) => pass_two_result(
                string_views(lines@),
                symbol_entries(symtable@),
                program_end as int,
            ) == Err::<ObjectView, AsmError>(e),
        },
{
    let ghost lv = string_views(lines@);
    let ghost symbols = symbol_entries(symtable@);
    let mut opcodes: Vec<Instruction> = Vec::new();
    initalize_opcodes(&mut opcodes);
    assert(instruction_entries(opcodes@) =~= opcode_table()) by {
        assert(instruction_entries(Seq::<Instruction>::empty()) =~= Seq::empty());
    }
    let mut p = PassTwo {
        counter: 0,
        starting_address: None,
        object_data: ObjectData::new(),
        mod_records: Vec::new(),
        finished: false,
    };
    assert(mod_views(p.mod_records@) =~= Seq::empty());
    assert(lv.subrange(0, 0) =~= Seq::empty());
    let mut i: usize = 0;
    while i < lines.len()
        invariant
            i <= lines@.len(),
            lv == string_views(lines@),
            symbols == symbol_entries(symtable@),
            instruction_entries(opcodes@) == opcode_table(),
            pass_two_run(lv.subrange(0, i as int), symbols, program_end as int) == Ok::<
                PassTwoState,
                AsmError,
            >(p@),
            !p@.finished,
        decreases lines@.len() - i,
    {
        assert(lv.subrange(0, i + 1).drop_last() =~= lv.subrange(0, i as int));
        assert(lv.subrange(0, i + 1).last() == lines@[i as int]@);
        let res = p.step(lines[i].as_str(), &opcodes, symtable, program_end);
        if res.is_err() || p.finished {
            proof {
                lemma_pass_two_settled(lv, symbols, program_end as int, i + 1);
            }
            return match res {
                Err(e) => Err(e),
                Ok(()) => Ok(p.object_data),
            };
        }
        i = i + 1;
    }
    assert(lv.subrange(0, i as int) =~= lv);
    Err(AsmError::MissingEnd)
}

/// Assembles the source lines into an object program: pass 1, then pass 2.
pub fn assemble(lines: &Vec<String>) -> (r: Result<ObjectData, AsmError>)
    ensures
        match r {
            Ok(o) => assembly(string_views(lines@)) == Ok::<ObjectView, AsmError>(o@),
            Err(e) => assembly(string_views(lines@)) == Err::<ObjectView, AsmError>(e),
        },
{
    let p = pass_one(lines)?;
    pass_two(lines, p.symbols(), p.counter())
}

} // verus!

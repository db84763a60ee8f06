//! Source lines: their classification and their fields.
use vstd::prelude::*;
use crate::text::{same_text, split_words, starts_with_char, views, words};

verus! {

/// The three kinds of source line.
#[derive(PartialEq, Eq, Structural, Clone, Copy, Debug)]
pub enum LineKind {
    /// A line that may define a label in its first field.
    Symbol,
    /// A line opening with a tab: no label, only a mnemonic and an operand.
    Instruction,
    /// A line opening with `#`.
    Comment,
}

/// The kind of a source line, by its first character.
pub open spec fn line_kind(line: Seq<char>) -> LineKind {
    if line.len() > 0 && line[0] == '\t' {
        LineKind::Instruction
    } else if line.len() > 0 && line[0] == '#' {
        LineKind::Comment
    } else {
        LineKind::Symbol
    }
}

/// Classifies a line. A tab-led line moves the address counter on by the
/// width of one instruction, 3, at once; the other kinds leave it alone.
pub fn classify_line(line: &str, counter: &mut i32) -> (r: LineKind)
    requires
        *old(counter) <= i32::MAX - 3,
    ensures
        r == line_kind(line@),
        *final(counter) == *old(counter) + if r == LineKind::Instruction {
            3int
        } else {
            0int
        },
{
    if starts_with_char(line, '\t') {
        *counter = *counter + 3;
        LineKind::Instruction
    } else if starts_with_char(line, '#') {
        LineKind::Comment
    } else {
        LineKind::Symbol
    }
}

/// One statement: an optional label, the directive or mnemonic, and the
/// operand.
pub struct AssemblyLine<'a> {
    symbol: Option<&'a str>,
    directive: Option<&'a str>,
    operand: Option<&'a str>,
}

/// The abstract value of a statement.
pub struct LineView {
    pub symbol: Option<Seq<char>>,
    pub directive: Option<Seq<char>>,
    pub operand: Option<Seq<char>>,
}

/// The view of an optional string slice.
pub open spec fn opt_view(o: Option<&str>) -> Option<Seq<char>> {
    match o {
        Some(s) => Some(s@),
        None => None,
    }
}

impl<'a> View for AssemblyLine<'a> {
    type V = LineView;

    closed spec fn view(&self) -> LineView {
        LineView {
            symbol: opt_view(self.symbol),
            directive: opt_view(self.directive),
            operand: opt_view(self.operand),
        }
    }
}

impl<'a> AssemblyLine<'a> {
    pub fn new(sym: Option<&'a str>, dir: Option<&'a str>, op: Option<&'a str>) -> (r: Self)
        ensures
            r@ == (LineView { symbol: opt_view(sym), directive: opt_view(dir), operand: opt_view(op) }),
    {
        AssemblyLine { symbol: sym, directive: dir, operand: op }
    }

    pub fn symbol(&self) -> (r: Option<&'a str>)
        ensures
            opt_view(r) == self@.symbol,
    {
        self.symbol
    }

    pub fn directive(&self) -> (r: Option<&'a str>)
        ensures
            opt_view(r) == self@.directive,
    {
        self.directive
    }

    pub fn operand(&self) -> (r: Option<&'a str>)
        ensures
            opt_view(r) == self@.operand,
    {
        self.operand
    }
}

/// The `i`-th word, if there is one.
pub open spec fn nth_word(w: Seq<Seq<char>>, i: int) -> Option<Seq<char>> {
    if 0 <= i < w.len() {
        Some(w[i])
    } else {
        None
    }
}

/// The fields of a statement line: on a tab-led line the words are the
/// directive and the operand; otherwise the label, the directive and the
/// operand, but for a line that opens with the word END, which is the END
/// statement with its operand. Words beyond these are ignored.
pub open spec fn line_fields(line: Seq<char>) -> LineView {
    let w = words(line);
    if line_kind(line) == LineKind::Instruction || (w.len() > 0 && w[0] == "END"@) {
        LineView { symbol: None, directive: nth_word(w, 0), operand: nth_word(w, 1) }
    } else {
        LineView { symbol: nth_word(w, 0), directive: nth_word(w, 1), operand: nth_word(w, 2) }
    }
}

fn nth<'a>(w: &Vec<&'a str>, i: usize) -> (r: Option<&'a str>)
    ensures
        opt_view(r) == nth_word(views(w@), i as int),
{
    if i < w.len() {
        Some(w[i])
    } else {
        None
    }
}

/// Splits a statement line of the given kind into its fields.
pub fn parse_line<'a>(line: &'a str, kind: LineKind) -> (r: AssemblyLine<'a>)
    requires
        kind == line_kind(line@),
    ensures
        r@ == line_fields(line@),
{
    let w = split_words(line);
    if kind == LineKind::Instruction || (w.len() > 0 && same_text(w[0], "END")) {
        AssemblyLine::new(None, nth(&w, 0), nth(&w, 1))
    } else {
        AssemblyLine::new(nth(&w, 0), nth(&w, 1), nth(&w, 2))
    }
}

} // verus!

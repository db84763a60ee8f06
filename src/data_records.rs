//! The object program: its records, their text, and the object file.
use vstd::prelude::*;
use crate::hex::{hex_field, hex_pad, wrap32};
use crate::text::string_views;

verus! {

broadcast use Seq::lemma_flatten_push;

/// `"H"`, the program name, the load address in six hex digits, the program
/// length in six hex digits, and a newline.
pub open spec fn head_record_text(name: Seq<char>, load: int, length: int) -> Seq<char> {
    "H"@ + name + hex_pad(wrap32(load), 6) + hex_pad(wrap32(length), 6) + "\n"@
}

/// `"E"`, the load address in six hex digits, and a newline.
pub open spec fn end_record_text(load: int) -> Seq<char> {
    "E"@ + hex_pad(wrap32(load), 6) + "\n"@
}

/// `"T"`, the object code, and a newline.
pub open spec fn text_record_text(code: Seq<char>) -> Seq<char> {
    "T"@ + code + "\n"@
}

/// `"M"`, the address in six hex digits, the length in half-bytes in two hex
/// digits, `"+"`, the symbol, and a newline.
pub open spec fn mod_record_text(m: ModRecordView) -> Seq<char> {
    "M"@ + hex_pad(wrap32(m.start), 6) + hex_pad(wrap32(m.length), 2) + "+"@ + m.symbol + "\n"@
}

/// The records of an object program being built.
pub struct ObjectData {
    head_record: String,
    end_record: String,
    text_records: Vec<String>,
    mod_records: Vec<String>,
}

/// The abstract value of an object program: each record's text.
pub struct ObjectView {
    pub head: Seq<char>,
    pub end: Seq<char>,
    pub text: Seq<Seq<char>>,
    pub mods: Seq<Seq<char>>,
}

impl View for ObjectData {
    type V = ObjectView;

    closed spec fn view(&self) -> ObjectView {
        ObjectView {
            head: self.head_record@,
            end: self.end_record@,
            text: string_views(self.text_records@),
            mods: string_views(self.mod_records@),
        }
    }
}

/// An object program with no records.
pub open spec fn empty_object() -> ObjectView {
    ObjectView { head: Seq::empty(), end: Seq::empty(), text: Seq::empty(), mods: Seq::empty() }
}

/// The object file: the head record, the text records, the modification
/// records and the end record, in that order.
pub open spec fn object_file_text(o: ObjectView) -> Seq<char> {
    o.head + o.text.flatten() + o.mods.flatten() + o.end
}

/// Appends every string of `items` to `out`.
fn append_all(out: &mut String, items: &Vec<String>)
    ensures
        final(out)@ == old(out)@ + string_views(items@).flatten(),
{
    let ghost start = out@;
    let mut i: usize = 0;
    while i < items.len()
        invariant
            i <= items@.len(),
            out@ == start + string_views(items@.subrange(0, i as int)).flatten(),
        decreases items@.len() - i,
    {
        let ghost done = string_views(items@.subrange(0, i as int));
        out.append(items[i].as_str());
        assert(string_views(items@.subrange(0, i + 1)) =~= done.push(items@[i as int]@));
        assert(done.push(items@[i as int]@).flatten() =~= done.flatten() + items@[i as int]@);
        i = i + 1;
    }
    assert(items@.subrange(0, i as int) =~= items@);
}

impl ObjectData {
    pub fn new() -> (r: Self)
        ensures
            r@ == empty_object(),
    {
        let r = Self {
            head_record: String::new(),
            end_record: String::new(),
            text_records: Vec::new(),
            mod_records: Vec::new(),
        };
        assert(string_views(r.text_records@) =~= Seq::empty());
        assert(string_views(r.mod_records@) =~= Seq::empty());
        r
    }

    pub fn head_record(&self) -> (r: &str)
        ensures
            r@ == self@.head,
    {
        self.head_record.as_str()
    }

    pub fn end_record(&self) -> (r: &str)
        ensures
            r@ == self@.end,
    {
        self.end_record.as_str()
    }

    pub fn mod_records(&self) -> (r: &Vec<String>)
        ensures
            string_views(r@) == self@.mods,
    {
        &self.mod_records
    }

    pub fn text_records(&self) -> (r: &Vec<String>)
        ensures
            string_views(r@) == self@.text,
    {
        &self.text_records
    }

    pub fn set_head_record(&mut self, record: String)
        ensures
            final(self)@ == (ObjectView { head: record@, ..old(self)@ }),
    {
        self.head_record = record;
    }

    pub fn set_end_record(&mut self, record: String)
        ensures
            final(self)@ == (ObjectView { end: record@, ..old(self)@ }),
    {
        self.end_record = record;
    }

    pub fn add_mod_records(&mut self, record: String)
        ensures
            final(self)@ == (ObjectView { mods: old(self)@.mods.push(record@), ..old(self)@ }),
    {
        self.mod_records.push(record);
        assert(string_views(self.mod_records@) =~= string_views(old(self).mod_records@).push(
            record@,
        ));
    }

    pub fn add_text_records(&mut self, record: String)
        ensures
            final(self)@ == (ObjectView { text: old(self)@.text.push(record@), ..old(self)@ }),
    {
        self.text_records.push(record);
        assert(string_views(self.text_records@) =~= string_views(old(self).text_records@).push(
            record@,
        ));
    }

    /// The text of the object file for this program.
    pub fn object_file(&self) -> (r: String)
        ensures
            r@ == object_file_text(self@),
    {
        let mut out = String::from_str(self.head_record.as_str());
        append_all(&mut out, &self.text_records);
        append_all(&mut out, &self.mod_records);
        out.append(self.end_record.as_str());
        out
    }
}

/// A pending relocation: where, how many half-bytes, and against which
/// symbol.
pub struct ModRecordData {
    starting_address: i32,
    mod_length: i32,
    symbol: String,
}

/// The abstract value of a pending relocation.
pub struct ModRecordView {
    pub start: int,
    pub length: int,
    pub symbol: Seq<char>,
}

impl View for ModRecordData {
    type V = ModRecordView;

    closed spec fn view(&self) -> ModRecordView {
        ModRecordView {
            start: self.starting_address as int,
            length: self.mod_length as int,
            symbol: self.symbol@,
        }
    }
}

impl ModRecordData {
    pub fn new(starting_address: i32, mod_length: i32, symbol: String) -> (r: Self)
        ensures
            r@ == (ModRecordView {
                start: starting_address as int,
                length: mod_length as int,
                symbol: symbol@,
            }),
    {
        Self { starting_address, mod_length, symbol }
    }

    pub fn starting_address(&self) -> (r: &i32)
        ensures
            *r as int == self@.start,
    {
        &self.starting_address
    }

    pub fn mod_length(&self) -> (r: &i32)
        ensures
            *r as int == self@.length,
    {
        &self.mod_length
    }

    pub fn symbol(&self) -> (r: &str)
        ensures
            r@ == self@.symbol,
    {
        self.symbol.as_str()
    }
}

/// The views of a list of pending relocations.
pub open spec fn mod_views(v: Seq<ModRecordData>) -> Seq<ModRecordView> {
    v.map_values(|m: ModRecordData| m@)
}

/// Sets the head record of the program.
pub fn write_head_record(
    object_data: &mut ObjectData,
    start_symbol: &str,
    start_address: &i32,
    length: i64,
)
    requires
        -0x1_0000_0000 < length < 0x1_0000_0000,
    ensures
        final(object_data)@ == (ObjectView {
            head: head_record_text(start_symbol@, *start_address as int, length as int),
            ..old(object_data)@
        }),
{
    let mut r = String::from_str("H");
    r.append(start_symbol);
    r.append(hex_field(*start_address as i64, 6).as_str());
    r.append(hex_field(length, 6).as_str());
    r.append("\n");
    object_data.set_head_record(r);
}

/// Sets the end record of the program.
pub fn write_end_record(object_data: &mut ObjectData, start_address: &i32)
    ensures
        final(object_data)@ == (ObjectView {
            end: end_record_text(*start_address as int),
            ..old(object_data)@
        }),
{
    let mut r = String::from_str("E");
    r.append(hex_field(*start_address as i64, 6).as_str());
    r.append("\n");
    object_data.set_end_record(r);
}

/// Appends a text record holding `code`.
pub fn write_text_record(object_data: &mut ObjectData, code: &str)
    ensures
        final(object_data)@ == (ObjectView {
            text: old(object_data)@.text.push(text_record_text(code@)),
            ..old(object_data)@
        }),
{
    let mut r = String::from_str("T");
    r.append(code);
    r.append("\n");
    object_data.add_text_records(r);
}

/// Records a relocation against `symbol`, when there is one.
pub fn add_mod_record(
    mod_records: &mut Vec<ModRecordData>,
    starting_address: &i32,
    mod_length: &i32,
    symbol: Option<&str>,
)
    ensures
        mod_views(final(mod_records)@) == match symbol {
            Some(s) => mod_views(old(mod_records)@).push(
                ModRecordView {
                    start: *starting_address as int,
                    length: *mod_length as int,
                    symbol: s@,
                },
            ),
            None => mod_views(old(mod_records)@),
        },
{
    if let Some(s) = symbol {
        let ghost before = mod_records@;
        mod_records.push(ModRecordData::new(*starting_address, *mod_length, String::from_str(s)));
        assert(mod_views(mod_records@) =~= mod_views(before).push(mod_records@.last()@));
    }
}

/// Appends one modification record for each pending relocation, in order.
pub fn write_mod_record(object_data: &mut ObjectData, mod_records: &Vec<ModRecordData>)
    ensures
        final(object_data)@ == (ObjectView {
            mods: old(object_data)@.mods + mod_views(mod_records@).map_values(
                |m: ModRecordView| mod_record_text(m),
            ),
            ..old(object_data)@
        }),
{
    let ghost start = object_data@;
    let ghost texts = mod_views(mod_records@).map_values(|m: ModRecordView| mod_record_text(m));
    let mut i: usize = 0;
    while i < mod_records.len()
        invariant
            i <= mod_records@.len(),
            texts == mod_views(mod_records@).map_values(|m: ModRecordView| mod_record_text(m)),
            object_data@ == (ObjectView {
                mods: start.mods + texts.subrange(0, i as int),
                ..start
            }),
        decreases mod_records@.len() - i,
    {
        let record = &mod_records[i];
        let mut r = String::from_str("M");
        r.append(hex_field(*record.starting_address() as i64, 6).as_str());
        r.append(hex_field(*record.mod_length() as i64, 2).as_str());
        r.append("+");
        r.append(record.symbol());
        r.append("\n");
        assert(r@ =~= mod_record_text(record@));
        assert(texts[i as int] == mod_record_text(record@));
        object_data.add_mod_records(r);
        assert(start.mods + texts.subrange(0, i + 1) =~= (start.mods + texts.subrange(
            0,
            i as int,
        )).push(r@));
        i = i + 1;
    }
    assert(texts.subrange(0, i as int) =~= texts);
}

} // verus!

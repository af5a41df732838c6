//! JSON text: quoting strings, and the small flat objects the ledger keeps as metadata.

use vstd::prelude::*;

use crate::text::{decimal, digit, expand, joined, precedes, signed_decimal};

verus! {

/// How JSON text spells one character of a string.
pub open spec fn json_char(c: char) -> Seq<char> {
    let u = c as u32;
    if c == '"' {
        seq!['\\', '"']
    } else if c == '\\' {
        seq!['\\', '\\']
    } else if u == 0x08 {
        seq!['\\', 'b']
    } else if u == 0x09 {
        seq!['\\', 't']
    } else if u == 0x0a {
        seq!['\\', 'n']
    } else if u == 0x0c {
        seq!['\\', 'f']
    } else if u == 0x0d {
        seq!['\\', 'r']
    } else if u < 0x20 {
        seq!['\\', 'u', '0', '0', digit((u / 16) as nat), digit((u % 16) as nat)]
    } else {
        seq![c]
    }
}

/// A string as JSON text, quotation marks included.
pub open spec fn json_quoted(s: Seq<char>) -> Seq<char> {
    seq!['"'] + expand(s, |c: char| json_char(c)) + seq!['"']
}

/// Calls `serde_json::to_string` on a string. The claim is that it writes a quotation mark,
/// the characters, and a quotation mark, where `"` and `\` get a backslash in front, the
/// control characters below the space are written as `\b`, `\t`, `\n`, `\f`, `\r` or as
/// `\u00` with two small hexadecimal digits, and every other character stands for itself.
#[verifier::external_body]
pub(crate) fn quote(value: &str) -> (r: String)
    ensures
        r@ == json_quoted(value@),
{
    serde_json::to_string(value).unwrap_or_else(|_| "\"\"".to_string())
}

/// A string under a key.
pub struct TextEntry {
    pub key: String,
    pub text: String,
}

/// What a metadata field can hold.
pub enum Field {
    Null,
    Int(i64),
    UInt(u64),
    Text(String),
    Rows(Vec<Vec<TextEntry>>),
}

/// A field under its key.
pub struct Entry {
    pub key: String,
    pub value: Field,
}

/// The keys stand in strictly ascending order.
pub open spec fn ascending(keys: Seq<Seq<char>>) -> bool {
    forall|i: int, j: int| 0 <= i < j < keys.len() ==> precedes(#[trigger] keys[i], #[trigger] keys[j])
}

pub open spec fn row_keys(row: Seq<TextEntry>) -> Seq<Seq<char>> {
    row.map_values(|e: TextEntry| e.key@)
}

pub open spec fn entry_keys(entries: Seq<Entry>) -> Seq<Seq<char>> {
    entries.map_values(|e: Entry| e.key@)
}

/// Keys in order throughout, the rows inside included.
pub open spec fn well_ordered(entries: Seq<Entry>) -> bool {
    &&& ascending(entry_keys(entries))
    &&& forall|i: int, j: int|
        0 <= i < entries.len() && entries[i].value is Rows && 0 <= j
            < entries[i].value->Rows_0@.len() ==> ascending(row_keys(#[trigger] entries[i].value->Rows_0@[j]@))
}

/// Members between braces, commas between them.
pub open spec fn braced(members: Seq<Seq<char>>) -> Seq<char> {
    seq!['{'] + joined(members, seq![',']) + seq!['}']
}

/// One object of strings.
pub open spec fn row_text(row: Seq<TextEntry>) -> Seq<char> {
    braced(row.map_values(|e: TextEntry| json_quoted(e.key@) + seq![':'] + json_quoted(e.text@)))
}

/// A field's value as JSON text.
pub open spec fn field_text(value: Field) -> Seq<char> {
    match value {
        Field::Null => seq!['n', 'u', 'l', 'l'],
        Field::Int(n) => signed_decimal(n as int),
        Field::UInt(n) => decimal(n as nat),
        Field::Text(t) => json_quoted(t@),
        Field::Rows(rows) => seq!['['] + joined(
            rows@.map_values(|row: Vec<TextEntry>| row_text(row@)),
            seq![','],
        ) + seq![']'],
    }
}

/// A flat object as compact JSON text.
pub open spec fn object_text(entries: Seq<Entry>) -> Seq<char> {
    braced(entries.map_values(|e: Entry| json_quoted(e.key@) + seq![':'] + field_text(e.value)))
}

/// Builds a `serde_json::Value` object and calls its `to_string`. The claim is that an object
/// whose keys are given in ascending order is written in that order, without white space:
/// each key quoted, a colon, then the value, with `null`, decimal numbers, quoted strings
/// and bracketed lists for the kinds of value used here.
#[verifier::external_body]
pub(crate) fn object(entries: &Vec<Entry>) -> (r: String)
    requires
        well_ordered(entries@),
    ensures
        r@ == object_text(entries@),
{
    entries.iter().map(|e| (e.key.clone(), match &e.value {
        Field::Null => serde_json::Value::Null,
        Field::Int(n) => serde_json::Value::from(*n),
        Field::UInt(n) => serde_json::Value::from(*n),
        Field::Text(t) => serde_json::Value::from(t.as_str()),
        Field::Rows(rows) => rows.iter().map(|row| row.iter().map(|c|
            (c.key.clone(), serde_json::Value::from(c.text.as_str())))
            .collect::<serde_json::Value>()).collect::<serde_json::Value>(),
    })).collect::<serde_json::Value>().to_string()
}

/// A key and its value.
pub open spec fn member(key: Seq<char>, value: Seq<char>) -> Seq<char> {
    json_quoted(key) + seq![':'] + value
}

/// A field whose rows, where it has any, have their keys in order.
pub open spec fn field_in_order(value: Field) -> bool {
    value is Rows ==> forall|j: int|
        0 <= j < value->Rows_0@.len() ==> ascending(row_keys(#[trigger] value->Rows_0@[j]@))
}

/// An object of one field.
pub(crate) fn object_of_one(key: &str, value: Field) -> (r: String)
    requires
        field_in_order(value),
    ensures
        r@ == braced(seq![member(key@, field_text(value))]),
{
    let mut entries: Vec<Entry> = Vec::new();
    let ghost shown = field_text(value);
    entries.push(Entry { key: key.to_owned(), value });
    assert(well_ordered(entries@));
    proof {
        let members = entries@.map_values(
            |e: Entry| json_quoted(e.key@) + seq![':'] + field_text(e.value),
        );
        assert(members =~= seq![member(key@, shown)]);
    }
    object(&entries)
}

/// An object of two fields.
pub(crate) fn object_of_two(key: &str, value: Field, next_key: &str, next_value: Field) -> (r: String)
    requires
        precedes(key@, next_key@),
        field_in_order(value),
        field_in_order(next_value),
    ensures
        r@ == braced(
            seq![member(key@, field_text(value)), member(next_key@, field_text(next_value))],
        ),
{
    let mut entries: Vec<Entry> = Vec::new();
    let ghost first = field_text(value);
    let ghost second = field_text(next_value);
    entries.push(Entry { key: key.to_owned(), value });
    entries.push(Entry { key: next_key.to_owned(), value: next_value });
    proof {
        assert(entry_keys(entries@) =~= seq![key@, next_key@]);
        assert(well_ordered(entries@));
        let members = entries@.map_values(
            |e: Entry| json_quoted(e.key@) + seq![':'] + field_text(e.value),
        );
        assert(members =~= seq![member(key@, first), member(next_key@, second)]);
    }
    object(&entries)
}

/// A text field where there is a text, and null where there is none.
pub open spec fn text_or_null(v: Option<Seq<char>>) -> Seq<char> {
    match v {
        Some(s) => json_quoted(s),
        None => seq!['n', 'u', 'l', 'l'],
    }
}

} // verus!

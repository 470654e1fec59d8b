//! The JSON a page sends back: one object per event.

use crate::text;
use vstd::prelude::*;

verus! {

/// What an event says under one key.
#[derive(Debug)]
pub enum Datum {
    Text(String),
    Index(usize),
    Indices(Vec<usize>),
    Flag(bool),
}

/// One key of an event.
#[derive(Debug)]
pub struct Field {
    pub key: String,
    pub value: Datum,
}

/// A value, as contracts speak of it.
pub enum Json {
    Text(Seq<char>),
    Index(usize),
    Indices(Seq<usize>),
    Flag(bool),
}

/// A key and its value, as contracts speak of them.
pub struct Member {
    pub key: Seq<char>,
    pub value: Json,
}

impl View for Field {
    type V = Member;

    open spec fn view(&self) -> Member {
        Member {
            key: self.key@,
            value: match self.value {
                Datum::Text(text) => Json::Text(text@),
                Datum::Index(index) => Json::Index(index),
                Datum::Indices(indices) => Json::Indices(indices@),
                Datum::Flag(flag) => Json::Flag(flag),
            },
        }
    }
}

/// The lower-case hexadecimal digit of a value below 16.
pub open spec fn hex_char(value: int) -> char {
    if value < 10 {
        (0x30 + value) as u8 as char
    } else {
        (0x61 + value - 10) as u8 as char
    }
}

/// A character inside a JSON string.
pub open spec fn escaped_char(c: char) -> Seq<char> {
    if c == '"' {
        seq!['\\', '"']
    } else if c == '\\' {
        seq!['\\', '\\']
    } else if c == '\u{8}' {
        seq!['\\', 'b']
    } else if c == '\t' {
        seq!['\\', 't']
    } else if c == '\n' {
        seq!['\\', 'n']
    } else if c == '\u{c}' {
        seq!['\\', 'f']
    } else if c == '\r' {
        seq!['\\', 'r']
    } else if (c as u32) < 0x20 {
        seq!['\\', 'u', '0', '0', hex_char((c as u32) as int / 16), hex_char((c as u32) as int % 16)]
    } else {
        seq![c]
    }
}

/// A text inside a JSON string.
pub open spec fn escaped(text: Seq<char>) -> Seq<char>
    decreases text.len(),
{
    if text.len() == 0 {
        Seq::empty()
    } else {
        escaped(text.drop_last()) + escaped_char(text.last())
    }
}

/// A JSON string.
pub open spec fn quoted(text: Seq<char>) -> Seq<char> {
    seq!['"'] + escaped(text) + seq!['"']
}

/// Numbers with commas between them.
pub open spec fn listed(indices: Seq<usize>) -> Seq<char>
    decreases indices.len(),
{
    if indices.len() == 0 {
        Seq::empty()
    } else if indices.len() == 1 {
        text::decimal(indices[0] as nat)
    } else {
        listed(indices.drop_last()) + seq![','] + text::decimal(indices.last() as nat)
    }
}

/// A JSON value.
pub open spec fn value_text(value: Json) -> Seq<char> {
    match value {
        Json::Text(text) => quoted(text),
        Json::Index(index) => text::decimal(index as nat),
        Json::Indices(indices) => seq!['['] + listed(indices) + seq![']'],
        Json::Flag(flag) => if flag {
            seq!['t', 'r', 'u', 'e']
        } else {
            seq!['f', 'a', 'l', 's', 'e']
        },
    }
}

/// The members of an object with commas between them.
pub open spec fn members_text(members: Seq<Member>) -> Seq<char>
    decreases members.len(),
{
    if members.len() == 0 {
        Seq::empty()
    } else {
        let last = quoted(members.last().key) + seq![':'] + value_text(members.last().value);
        if members.len() == 1 {
            last
        } else {
            members_text(members.drop_last()) + seq![','] + last
        }
    }
}

/// An object.
pub open spec fn object_text(members: Seq<Member>) -> Seq<char> {
    seq!['{'] + members_text(members) + seq!['}']
}

/// The keys come in order, each with a first character of its own.
pub open spec fn in_order(members: Seq<Member>) -> bool {
    &&& forall|i: int| 0 <= i < members.len() ==> (#[trigger] members[i]).key.len() > 0
    &&& forall|i: int, j: int|
        0 <= i < j < members.len() ==> (#[trigger] members[i]).key[0] < (#[trigger] members[j]).key[0]
}

/// The views of fields.
pub open spec fn members_of(fields: Seq<Field>) -> Seq<Member> {
    fields.map_values(|field: Field| field@)
}

/// `serde_json::Value`'s `Display` on an object: compact, no white space, the
/// members by ascending key, so in the order given here; strings escaped as
/// [`escaped_char`] says, whole numbers in decimal.
#[verifier::external_body]
fn object(fields: Vec<Field>) -> (r: String)
    requires
        in_order(members_of(fields@)),
    ensures
        r@ == object_text(members_of(fields@)),
{
    let mut map = serde_json::Map::new();
    map.extend(fields.into_iter().map(|field| {
        let value = match field.value {
            Datum::Text(text) => serde_json::Value::from(text),
            Datum::Index(index) => serde_json::Value::from(index),
            Datum::Indices(indices) => serde_json::Value::from(indices),
            Datum::Flag(flag) => serde_json::Value::from(flag),
        };
        (field.key, value)
    }));
    serde_json::Value::Object(map).to_string()
}

/// An event without anything to say.
pub open spec fn bare_event(kind: Seq<char>) -> Seq<char> {
    object_text(seq![Member { key: "type"@, value: Json::Text(kind) }])
}

/// An event that says one thing.
pub open spec fn event(kind: Seq<char>, key: Seq<char>, value: Json) -> Seq<char> {
    object_text(
        seq![Member { key, value }, Member { key: "type"@, value: Json::Text(kind) }],
    )
}

/// A key press.
pub open spec fn key_event(name: Seq<char>) -> Seq<char> {
    event("key"@, "key"@, Json::Text(name))
}

/// A key press with `alt` held.
pub open spec fn alt_event(name: Seq<char>) -> Seq<char> {
    object_text(
        seq![
            Member { key: "alt"@, value: Json::Flag(true) },
            Member { key: "key"@, value: Json::Text(name) },
            Member { key: "type"@, value: Json::Text("key"@) },
        ],
    )
}

/// An event about what crumbs lead to.
pub open spec fn crumbs_event(kind: Seq<char>, crumbs: Seq<usize>) -> Seq<char> {
    event(kind, "crumbs"@, Json::Indices(crumbs))
}

/// An event about a path, encoded for the wire.
pub open spec fn path_event(kind: Seq<char>, path: Seq<char>) -> Seq<char> {
    event(kind, "path"@, Json::Text(path))
}

/// A sibling menu's row.
pub open spec fn sibling_event(parent: Seq<usize>, index: usize) -> Seq<char> {
    object_text(
        seq![
            Member { key: "index"@, value: Json::Index(index) },
            Member { key: "parent"@, value: Json::Indices(parent) },
            Member { key: "type"@, value: Json::Text("sibling"@) },
        ],
    )
}

/// A choice of what is measured.
pub open spec fn mode_event(index: usize) -> Seq<char> {
    event("mode"@, "index"@, Json::Index(index))
}

/// A choice of how things are removed.
pub open spec fn removal_event(mode: Seq<char>) -> Seq<char> {
    event("removal"@, "mode"@, Json::Text(mode))
}

fn text_field(key: &str, text: &str) -> (r: Field)
    ensures
        r@ == (Member { key: key@, value: Json::Text(text@) }),
{
    Field { key: key.to_owned(), value: Datum::Text(text.to_owned()) }
}

/// The text of an event without anything to say.
pub fn bare_json(kind: &str) -> (r: String)
    ensures
        r@ == bare_event(kind@),
{
    proof {
        reveal_strlit("type");
    }
    let mut fields: Vec<Field> = Vec::new();
    fields.push(text_field("type", kind));
    assert(members_of(fields@) =~= seq![Member { key: "type"@, value: Json::Text(kind@) }]);
    object(fields)
}

fn event_json(kind: &str, field: Field) -> (r: String)
    requires
        field@.key.len() > 0,
        field@.key[0] < 't',
    ensures
        r@ == event(kind@, field@.key, field@.value),
{
    proof {
        reveal_strlit("type");
    }
    let ghost first = field@;
    let mut fields: Vec<Field> = Vec::new();
    fields.push(field);
    fields.push(text_field("type", kind));
    assert(members_of(fields@) =~= seq![
        first,
        Member { key: "type"@, value: Json::Text(kind@) },
    ]);
    object(fields)
}

/// The text of a key press.
pub fn key_json(name: &str) -> (r: String)
    ensures
        r@ == key_event(name@),
{
    proof {
        reveal_strlit("key");
    }
    event_json("key", text_field("key", name))
}

/// The text of a key press with `alt` held.
pub fn alt_json(name: &str) -> (r: String)
    ensures
        r@ == alt_event(name@),
{
    proof {
        reveal_strlit("alt");
        reveal_strlit("key");
        reveal_strlit("type");
    }
    let mut fields: Vec<Field> = Vec::new();
    fields.push(Field { key: "alt".to_owned(), value: Datum::Flag(true) });
    fields.push(text_field("key", name));
    fields.push(text_field("type", "key"));
    assert(members_of(fields@) =~= seq![
        Member { key: "alt"@, value: Json::Flag(true) },
        Member { key: "key"@, value: Json::Text(name@) },
        Member { key: "type"@, value: Json::Text("key"@) },
    ]);
    object(fields)
}

/// The text of an event about what crumbs lead to.
pub fn crumbs_json(kind: &str, crumbs: &[usize]) -> (r: String)
    ensures
        r@ == crumbs_event(kind@, crumbs@),
{
    proof {
        reveal_strlit("crumbs");
    }
    event_json(
        kind,
        Field { key: "crumbs".to_owned(), value: Datum::Indices(crate::tree::copy_crumbs(crumbs)) },
    )
}

/// The text of an event about a path, encoded for the wire.
pub fn path_json(kind: &str, path: &str) -> (r: String)
    ensures
        r@ == path_event(kind@, path@),
{
    proof {
        reveal_strlit("path");
    }
    event_json(kind, text_field("path", path))
}

/// The text of a sibling menu's row.
pub fn sibling_json(parent: &[usize], index: usize) -> (r: String)
    ensures
        r@ == sibling_event(parent@, index),
{
    proof {
        reveal_strlit("index");
        reveal_strlit("parent");
        reveal_strlit("type");
    }
    let mut fields: Vec<Field> = Vec::new();
    fields.push(Field { key: "index".to_owned(), value: Datum::Index(index) });
    fields.push(
        Field { key: "parent".to_owned(), value: Datum::Indices(crate::tree::copy_crumbs(parent)) },
    );
    fields.push(text_field("type", "sibling"));
    assert(members_of(fields@) =~= seq![
        Member { key: "index"@, value: Json::Index(index) },
        Member { key: "parent"@, value: Json::Indices(parent@) },
        Member { key: "type"@, value: Json::Text("sibling"@) },
    ]);
    object(fields)
}

/// The text of a choice of what is measured.
pub fn mode_json(index: usize) -> (r: String)
    ensures
        r@ == mode_event(index),
{
    proof {
        reveal_strlit("index");
    }
    event_json("mode", Field { key: "index".to_owned(), value: Datum::Index(index) })
}

/// The text of a choice of how things are removed.
pub fn removal_json(mode: &str) -> (r: String)
    ensures
        r@ == removal_event(mode@),
{
    proof {
        reveal_strlit("mode");
    }
    event_json("removal", text_field("mode", mode))
}

/// An answer that carries only the mosaic and the magnification.
pub open spec fn mosaic_answer(mosaic: Seq<char>, zoom: Seq<char>) -> Seq<char> {
    object_text(
        seq![
            Member { key: "mosaic"@, value: Json::Text(mosaic) },
            Member { key: "zoom"@, value: Json::Text(zoom) },
        ],
    )
}

/// The text of an answer that carries only the mosaic and the magnification.
pub fn mosaic_json(mosaic: &str, zoom: &str) -> (r: String)
    ensures
        r@ == mosaic_answer(mosaic@, zoom@),
{
    proof {
        reveal_strlit("mosaic");
        reveal_strlit("zoom");
    }
    let mut fields: Vec<Field> = Vec::new();
    fields.push(text_field("mosaic", mosaic));
    fields.push(text_field("zoom", zoom));
    assert(members_of(fields@) =~= seq![
        Member { key: "mosaic"@, value: Json::Text(mosaic@) },
        Member { key: "zoom"@, value: Json::Text(zoom@) },
    ]);
    object(fields)
}

} // verus!

//! Flat JSON objects: the members of an object, each with what a reader of it
//! needs to know.

use crate::text::{lines, lines_of, pieces, str_eq, string_of, texts, trim_chars, trimmed};
use crate::types::opt_text;
use vstd::prelude::*;
use vstd::string::*;

verus! {

/// The value of a member. Of numbers only their integer readings are kept, of
/// arrays and objects only that they are such.
#[derive(Clone, Debug)]
pub enum JsonField {
    Null,
    Bool(bool),
    Number { signed: Option<i64>, unsigned: Option<u64> },
    Text(String),
    Array,
    Object,
}

/// The value of a member as a mathematical value.
pub enum FieldView {
    Null,
    Bool(bool),
    Number { signed: Option<i64>, unsigned: Option<u64> },
    Text(Seq<char>),
    Array,
    Object,
}

impl JsonField {
    /// The value as a mathematical value.
    pub open spec fn view(&self) -> FieldView {
        match *self {
            JsonField::Null => FieldView::Null,
            JsonField::Bool(b) => FieldView::Bool(b),
            JsonField::Number { signed, unsigned } => FieldView::Number { signed, unsigned },
            JsonField::Text(s) => FieldView::Text(s@),
            JsonField::Array => FieldView::Array,
            JsonField::Object => FieldView::Object,
        }
    }
}

/// The members of an object, by name.
pub type JsonMembers = Vec<(String, JsonField)>;

/// The members as mathematical values.
pub open spec fn members_view(v: Seq<(String, JsonField)>) -> Seq<(Seq<char>, FieldView)> {
    v.map_values(|m: (String, JsonField)| (m.0@, m.1.view()))
}

/// The members of what a parse returned.
pub open spec fn parsed_view(r: Option<JsonMembers>) -> Option<Seq<(Seq<char>, FieldView)>> {
    match r {
        Some(v) => Some(members_view(v@)),
        None => None,
    }
}

/// The members that `serde_json::from_str` reads from a text: those of the
/// object it holds, none where it holds another value, and `None` where it is
/// not JSON.
pub uninterp spec fn json_members(text: Seq<char>) -> Option<Seq<(Seq<char>, FieldView)>>;

/// Calls `serde_json::from_str` for a `serde_json::Value` and hands out the
/// members of the object. What they are is named, not described.
#[verifier::external_body]
pub(crate) fn parse_members(text: &str) -> (r: Option<JsonMembers>)
    ensures
        parsed_view(r) == json_members(text@),
{
    let map = match serde_json::from_str(text) {
        Ok(serde_json::Value::Object(map)) => map,
        Ok(_) => return Some(Vec::new()),
        Err(_) => return None,
    };
    Some(map.into_iter().map(|(name, value)| (name, match value {
        serde_json::Value::Null => JsonField::Null,
        serde_json::Value::Bool(b) => JsonField::Bool(b),
        serde_json::Value::Number(n) => JsonField::Number { signed: n.as_i64(), unsigned: n.as_u64() },
        serde_json::Value::String(s) => JsonField::Text(s),
        serde_json::Value::Array(_) => JsonField::Array,
        serde_json::Value::Object(_) => JsonField::Object,
    })).collect())
}

/// The value of the first member with this name.
pub open spec fn member(m: Seq<(Seq<char>, FieldView)>, name: Seq<char>) -> Option<FieldView>
    decreases m.len(),
{
    if m.len() == 0 {
        None
    } else if m[0].0 == name {
        Some(m[0].1)
    } else {
        member(m.skip(1), name)
    }
}

/// Index of the first member with this name.
pub(crate) fn find_member(m: &JsonMembers, name: &str) -> (r: Option<usize>)
    ensures
        match r {
            Some(i) => i < m@.len() && member(members_view(m@), name@) == Some(m@[i as int].1.view()),
            None => member(members_view(m@), name@) is None,
        },
{
    let ghost all = members_view(m@);
    let mut i: usize = 0;
    assert(all.skip(0) =~= all);
    while i < m.len()
        invariant
            i <= m@.len(),
            all == members_view(m@),
            member(all, name@) == member(all.skip(i as int), name@),
        decreases m@.len() - i,
    {
        assert(all.skip(i as int)[0] == (m@[i as int].0@, m@[i as int].1.view()));
        assert(all.skip(i as int).skip(1) =~= all.skip(i + 1));
        if str_eq(m[i].0.as_str(), name) {
            return Some(i);
        }
        i = i + 1;
    }
    None
}

/// A member that is a text.
pub open spec fn text_member(m: Seq<(Seq<char>, FieldView)>, name: Seq<char>) -> Option<Seq<char>> {
    match member(m, name) {
        Some(FieldView::Text(s)) => Some(s),
        _ => None,
    }
}

/// A member that is an integer of 64 bits with sign.
pub open spec fn signed_member(m: Seq<(Seq<char>, FieldView)>, name: Seq<char>) -> Option<i64> {
    match member(m, name) {
        Some(FieldView::Number { signed, unsigned }) => signed,
        _ => None,
    }
}

/// A member that is an integer of 64 bits without sign.
pub open spec fn unsigned_member(m: Seq<(Seq<char>, FieldView)>, name: Seq<char>) -> Option<u64> {
    match member(m, name) {
        Some(FieldView::Number { signed, unsigned }) => unsigned,
        _ => None,
    }
}

/// A member that is a truth value.
pub open spec fn bool_member(m: Seq<(Seq<char>, FieldView)>, name: Seq<char>) -> Option<bool> {
    match member(m, name) {
        Some(FieldView::Bool(b)) => Some(b),
        _ => None,
    }
}

/// The text of a member.
pub fn text_of(m: &JsonMembers, name: &str) -> (r: Option<String>)
    ensures
        opt_text(r) == text_member(members_view(m@), name@),
{
    match find_member(m, name) {
        Some(i) => match &m[i].1 {
            JsonField::Text(s) => Some(s.clone()),
            _ => None,
        },
        None => None,
    }
}

/// The integer of a member.
pub fn signed_of(m: &JsonMembers, name: &str) -> (r: Option<i64>)
    ensures
        r == signed_member(members_view(m@), name@),
{
    match find_member(m, name) {
        Some(i) => match &m[i].1 {
            JsonField::Number { signed, unsigned: _ } => *signed,
            _ => None,
        },
        None => None,
    }
}

/// The natural number of a member.
pub fn unsigned_of(m: &JsonMembers, name: &str) -> (r: Option<u64>)
    ensures
        r == unsigned_member(members_view(m@), name@),
{
    match find_member(m, name) {
        Some(i) => match &m[i].1 {
            JsonField::Number { signed: _, unsigned } => *unsigned,
            _ => None,
        },
        None => None,
    }
}

/// The truth value of a member.
pub fn bool_of(m: &JsonMembers, name: &str) -> (r: Option<bool>)
    ensures
        r == bool_member(members_view(m@), name@),
{
    match find_member(m, name) {
        Some(i) => match &m[i].1 {
            JsonField::Bool(b) => Some(*b),
            _ => None,
        },
        None => None,
    }
}

/// The entries of a file with one JSON value per line: its lines without the
/// white space around them, blank ones left out.
pub open spec fn entry_lines(lines: Seq<Seq<char>>) -> Seq<Seq<char>>
    decreases lines.len(),
{
    if lines.len() == 0 {
        Seq::empty()
    } else {
        let rest = entry_lines(lines.drop_last());
        if trimmed(lines.last()).len() > 0 {
            rest.push(trimmed(lines.last()))
        } else {
            rest
        }
    }
}

/// The entries of a file with one JSON value per line.
pub fn jsonl_entries(text: &str) -> (r: Vec<String>)
    ensures
        texts(r@) == entry_lines(lines(text@)),
{
    let all: Vec<Vec<char>> = lines_of(text);
    let mut r: Vec<String> = Vec::new();
    let mut i: usize = 0;
    assert(texts(r@) =~= entry_lines(lines(text@).take(0)));
    while i < all.len()
        invariant
            i <= all@.len(),
            pieces(all@) == lines(text@),
            texts(r@) == entry_lines(lines(text@).take(i as int)),
        decreases all@.len() - i,
    {
        let ghost whole = lines(text@);
        assert(whole.take(i + 1).drop_last() =~= whole.take(i as int));
        assert(pieces(all@)[i as int] == all@[i as int]@);
        assert(whole.take(i + 1).last() == all@[i as int]@);
        let t: Vec<char> = trim_chars(&all[i]);
        if t.len() > 0 {
            let ghost before = r@;
            r.push(string_of(&t));
            assert(texts(r@) =~= texts(before).push(t@));
        }
        i = i + 1;
    }
    assert(pieces(all@).len() == all@.len());
    assert(lines(text@).take(i as int) =~= lines(text@));
    r
}

/// The place of the last entry of a queue, in 32 bits and at least 1.
pub open spec fn last_place(entries: nat) -> int {
    if entries % 0x1_0000_0000 < 1 {
        1
    } else {
        (entries % 0x1_0000_0000) as int
    }
}

/// Line number that an entry has once it is appended to the file: the number
/// of entries, counted in 32 bits, and at least one.
pub fn queue_position(text: &str) -> (r: u32)
    ensures
        r == last_place(entry_lines(lines(text@)).len()),
{
    let all: Vec<String> = jsonl_entries(text);
    assert(texts(all@).len() == all@.len());
    let n: u64 = all.len() as u64 % 0x1_0000_0000;
    if n < 1 {
        1
    } else {
        n as u32
    }
}

} // verus!

//! JSON values: their mathematical form, and the calls into `serde_json` that the crate makes.

use vstd::prelude::*;

use crate::text::decimal;

verus! {

/// The mathematical form of a JSON value. A number is given by the digits it is written with.
pub enum JsonTree {
    Null,
    Bool(bool),
    Number(Seq<char>),
    Text(Seq<char>),
    Array(Seq<JsonTree>),
    Object(Map<Seq<char>, JsonTree>),
}

impl JsonTree {
    /// The member of an object under `key`.
    pub open spec fn member(self, key: Seq<char>) -> Option<JsonTree> {
        match self {
            JsonTree::Object(members) => if members.contains_key(key) {
                Some(members[key])
            } else {
                None
            },
            _ => None,
        }
    }

    /// The text of a JSON string.
    pub open spec fn text(self) -> Option<Seq<char>> {
        match self {
            JsonTree::Text(s) => Some(s),
            _ => None,
        }
    }

    /// The truth value of a JSON boolean.
    pub open spec fn truth(self) -> Option<bool> {
        match self {
            JsonTree::Bool(b) => Some(b),
            _ => None,
        }
    }

    /// The text of the JSON string that an object holds under `key`.
    pub open spec fn text_at(self, key: Seq<char>) -> Option<Seq<char>> {
        match self.member(key) {
            Some(v) => v.text(),
            None => None,
        }
    }

    /// The text of the JSON string under `inner` in the object under `outer`.
    pub open spec fn text_under(self, outer: Seq<char>, inner: Seq<char>) -> Option<Seq<char>> {
        match self.member(outer) {
            Some(v) => v.text_at(inner),
            None => None,
        }
    }
}

/// The members that a list of entries leaves: a later entry replaces an earlier one of its key.
pub open spec fn members_of(entries: Seq<(Seq<char>, JsonTree)>) -> Map<Seq<char>, JsonTree>
    decreases entries.len(),
{
    if entries.len() == 0 {
        Map::empty()
    } else {
        members_of(entries.drop_last()).insert(entries.last().0, entries.last().1)
    }
}

/// The object with these entries.
pub open spec fn object_of(entries: Seq<(Seq<char>, JsonTree)>) -> JsonTree {
    JsonTree::Object(members_of(entries))
}

#[verifier::external_type_specification]
#[verifier::external_body]
pub struct ExValue(serde_json::Value);

#[verifier::external_type_specification]
#[verifier::external_body]
pub struct ExError(serde_json::Error);

/// What a `serde_json::Value` holds.
pub uninterp spec fn value_tree(v: serde_json::Value) -> JsonTree;

/// What `serde_json::from_str` reads from a text.
pub uninterp spec fn parsed_text(text: Seq<char>) -> Option<JsonTree>;

/// What `serde_json::from_slice` reads from bytes.
pub uninterp spec fn parsed_bytes(bytes: Seq<u8>) -> Option<JsonTree>;

/// The text that the `Display` of a `serde_json::Value` writes.
pub uninterp spec fn rendered(tree: JsonTree) -> Seq<char>;

/// `serde_json::from_str` into a `Value`. Whether a text is JSON, and what it holds, depends on
/// the text alone.
#[verifier::external_body]
pub(crate) fn parse_text(text: &str) -> (r: Result<serde_json::Value, serde_json::Error>)
    ensures
        match r {
            Ok(v) => parsed_text(text@) == Some(value_tree(v)),
            Err(_) => parsed_text(text@) is None,
        },
{
    serde_json::from_str::<serde_json::Value>(text)
}

/// `serde_json::from_slice` into a `Value`. Whether bytes are JSON, and what they hold, depends
/// on the bytes alone.
#[verifier::external_body]
pub(crate) fn parse_bytes(bytes: &[u8]) -> (r: Result<serde_json::Value, serde_json::Error>)
    ensures
        match r {
            Ok(v) => parsed_bytes(bytes@) == Some(value_tree(v)),
            Err(_) => parsed_bytes(bytes@) is None,
        },
{
    serde_json::from_slice::<serde_json::Value>(bytes)
}

/// `Value::get` with a string: the member of an object under that key, and `None` for a missing
/// key and for every value that is no object.
#[verifier::external_body]
pub(crate) fn member<'a>(v: &'a serde_json::Value, key: &str) -> (r: Option<&'a serde_json::Value>)
    ensures
        match r {
            Some(m) => value_tree(*v).member(key@) == Some(value_tree(*m)),
            None => value_tree(*v).member(key@) is None,
        },
{
    v.get(key)
}

/// `Value::as_str`: the text of a JSON string, and `None` for every other value.
pub assume_specification[ serde_json::Value::as_str ](v: &serde_json::Value) -> (r: Option<&str>)
    ensures
        match r {
            Some(s) => value_tree(*v).text() == Some(s@),
            None => value_tree(*v).text() is None,
        },
;

/// `Value::as_bool`: the truth value of a JSON boolean, and `None` for every other value.
pub assume_specification[ serde_json::Value::as_bool ](v: &serde_json::Value) -> (r: Option<bool>)
    ensures
        r == value_tree(*v).truth(),
;

/// `Value`'s `Display`: the compact JSON text of the value, with the members of an object in the
/// order of their keys. It depends on what the value holds alone.
#[verifier::external_body]
pub(crate) fn render(v: &serde_json::Value) -> (r: String)
    ensures
        r@ == rendered(value_tree(*v)),
{
    v.to_string()
}

/// `Value::clone`: a value that holds the same.
#[verifier::external_body]
pub(crate) fn copy_value(v: &serde_json::Value) -> (r: serde_json::Value)
    ensures
        value_tree(r) == value_tree(*v),
{
    v.clone()
}

/// `Value::from` a string slice: the JSON string with that text.
#[verifier::external_body]
pub(crate) fn text_value(s: &str) -> (r: serde_json::Value)
    ensures
        value_tree(r) == JsonTree::Text(s@),
{
    serde_json::Value::from(s)
}

/// `Value::from` a `u32`: the JSON number written with its decimal digits.
#[verifier::external_body]
pub(crate) fn integer_value(n: u32) -> (r: serde_json::Value)
    ensures
        value_tree(r) == JsonTree::Number(decimal(n as nat)),
{
    serde_json::Value::from(n)
}

/// The entries with their values in mathematical form.
pub open spec fn entry_trees(entries: Seq<(String, serde_json::Value)>) -> Seq<
    (Seq<char>, JsonTree),
> {
    entries.map_values(|e: (String, serde_json::Value)| (e.0@, value_tree(e.1)))
}

/// `Value::from_iter` over key-value pairs: the object with these entries, of which a later one
/// replaces an earlier one of the same key.
#[verifier::external_body]
pub(crate) fn object_value(entries: Vec<(String, serde_json::Value)>) -> (r: serde_json::Value)
    ensures
        value_tree(r) == object_of(entry_trees(entries@)),
{
    serde_json::Value::from_iter(entries)
}

/// The text of the JSON string under `key`.
pub(crate) fn text_at<'a>(v: &'a serde_json::Value, key: &str) -> (r: Option<&'a str>)
    ensures
        match r {
            Some(s) => value_tree(*v).text_at(key@) == Some(s@),
            None => value_tree(*v).text_at(key@) is None,
        },
{
    match member(v, key) {
        Some(m) => m.as_str(),
        None => None,
    }
}

/// The text of the JSON string under `inner` in the object under `outer`.
pub(crate) fn text_under<'a>(v: &'a serde_json::Value, outer: &str, inner: &str) -> (r: Option<
    &'a str,
>)
    ensures
        match r {
            Some(s) => value_tree(*v).text_under(outer@, inner@) == Some(s@),
            None => value_tree(*v).text_under(outer@, inner@) is None,
        },
{
    match member(v, outer) {
        Some(m) => text_at(m, inner),
        None => None,
    }
}

// ── Laws ─────────────────────────────────────────────────────────

/// One more entry adds its member, or replaces the one of its key.
pub proof fn a_further_entry_adds_its_member(
    entries: Seq<(Seq<char>, JsonTree)>,
    entry: (Seq<char>, JsonTree),
)
    ensures
        members_of(seq![]) == Map::<Seq<char>, JsonTree>::empty(),
        members_of(entries.push(entry)) == members_of(entries).insert(entry.0, entry.1),
{
    assert(entries.push(entry).drop_last() =~= entries);
}

pub(crate) proof fn lemma_one_members(
    a: (Seq<char>, JsonTree),
)
    ensures
        object_of(seq![a]) == JsonTree::Object(
            Map::<Seq<char>, JsonTree>::empty().insert(a.0, a.1),
        ),
{
    let none = Seq::<(Seq<char>, JsonTree)>::empty();
    a_further_entry_adds_its_member(none, a);
    assert(seq![a] =~= none.push(a));
}

pub(crate) proof fn lemma_two_members(
    a: (Seq<char>, JsonTree),
    b: (Seq<char>, JsonTree),
)
    ensures
        object_of(seq![a, b]) == JsonTree::Object(
            Map::<Seq<char>, JsonTree>::empty().insert(a.0, a.1).insert(b.0, b.1),
        ),
{
    let before = seq![a];
    lemma_one_members(a);
    a_further_entry_adds_its_member(before, b);
    assert(seq![a, b] =~= before.push(b));
}

pub(crate) proof fn lemma_three_members(
    a: (Seq<char>, JsonTree),
    b: (Seq<char>, JsonTree),
    c: (Seq<char>, JsonTree),
)
    ensures
        object_of(seq![a, b, c]) == JsonTree::Object(
            Map::<Seq<char>, JsonTree>::empty().insert(a.0, a.1).insert(b.0, b.1).insert(c.0, c.1),
        ),
{
    let before = seq![a, b];
    lemma_two_members(a, b);
    a_further_entry_adds_its_member(before, c);
    assert(seq![a, b, c] =~= before.push(c));
}

pub(crate) proof fn lemma_four_members(
    a: (Seq<char>, JsonTree),
    b: (Seq<char>, JsonTree),
    c: (Seq<char>, JsonTree),
    d: (Seq<char>, JsonTree),
)
    ensures
        object_of(seq![a, b, c, d]) == JsonTree::Object(
            Map::<Seq<char>, JsonTree>::empty().insert(a.0, a.1).insert(b.0, b.1).insert(c.0, c.1).insert(d.0, d.1),
        ),
{
    let before = seq![a, b, c];
    lemma_three_members(a, b, c);
    a_further_entry_adds_its_member(before, d);
    assert(seq![a, b, c, d] =~= before.push(d));
}

pub(crate) proof fn lemma_five_members(
    a: (Seq<char>, JsonTree),
    b: (Seq<char>, JsonTree),
    c: (Seq<char>, JsonTree),
    d: (Seq<char>, JsonTree),
    e: (Seq<char>, JsonTree),
)
    ensures
        object_of(seq![a, b, c, d, e]) == JsonTree::Object(
            Map::<Seq<char>, JsonTree>::empty().insert(a.0, a.1).insert(b.0, b.1).insert(c.0, c.1).insert(d.0, d.1).insert(e.0, e.1),
        ),
{
    let before = seq![a, b, c, d];
    lemma_four_members(a, b, c, d);
    a_further_entry_adds_its_member(before, e);
    assert(seq![a, b, c, d, e] =~= before.push(e));
}

/// Members are looked up by their key in an object and nowhere else, and a text or a truth value is
/// read from a string or a boolean and from nothing else.
pub proof fn values_are_read_by_kind(
    tree: JsonTree,
    members: Map<Seq<char>, JsonTree>,
    key: Seq<char>,
    text: Seq<char>,
    truth: bool,
)
    ensures
        tree !is Object ==> tree.member(key) is None && tree.text_at(key) is None,
        members.contains_key(key) ==> JsonTree::Object(members).member(key) == Some(members[key]),
        !members.contains_key(key) ==> JsonTree::Object(members).member(key) is None,
        JsonTree::Text(text).text() == Some(text),
        tree !is Text ==> tree.text() is None,
        JsonTree::Bool(truth).truth() == Some(truth),
        tree !is Bool ==> tree.truth() is None,
{
}

} // verus!

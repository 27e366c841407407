//! JSON documents, as far as they are read here.
use crate::command::Meaning;
use crate::text::{owned, same};
use vstd::prelude::*;

verus! {

/// A JSON document.
#[derive(Debug)]
pub enum Json {
    Null,
    Bool(bool),
    /// A number; its value where that is a `u64`.
    Number(Option<u64>),
    Text(String),
    List(Vec<Json>),
    /// The members of an object. No two have the same name.
    Record(Vec<(String, Json)>),
}

/// What a JSON document says.
pub enum Document {
    Null,
    Bool(bool),
    Number(Option<u64>),
    Text(Seq<char>),
    List(Seq<Document>),
    Record(Seq<(Seq<char>, Document)>),
}

/// What a document says.
pub open spec fn document(j: Json) -> Document
    decreases j,
{
    match j {
        Json::Null => Document::Null,
        Json::Bool(b) => Document::Bool(b),
        Json::Number(n) => Document::Number(n),
        Json::Text(s) => Document::Text(s@),
        Json::List(v) => Document::List(documents(v@)),
        Json::Record(v) => Document::Record(members(v@)),
    }
}

/// What the documents of a list say.
pub open spec fn documents(s: Seq<Json>) -> Seq<Document>
    decreases s,
{
    if s.len() == 0 {
        Seq::empty()
    } else {
        documents(s.drop_last()).push(document(s.last()))
    }
}

/// What the members of an object say.
pub open spec fn members(s: Seq<(String, Json)>) -> Seq<(Seq<char>, Document)>
    decreases s,
{
    if s.len() == 0 {
        Seq::empty()
    } else {
        members(s.drop_last()).push((s.last().0@, document(s.last().1)))
    }
}

impl View for Json {
    type V = Document;

    open spec fn view(&self) -> Document {
        document(*self)
    }
}

impl Meaning for Json {
    type Of = Document;

    open spec fn meaning(&self) -> Document {
        self@
    }
}

proof fn lemma_documents(s: Seq<Json>)
    ensures
        documents(s).len() == s.len(),
        forall|i: int| 0 <= i < s.len() ==> #[trigger] documents(s)[i] == document(s[i]),
    decreases s.len(),
{
    if s.len() > 0 {
        lemma_documents(s.drop_last());
    }
}

proof fn lemma_members(s: Seq<(String, Json)>)
    ensures
        members(s).len() == s.len(),
        forall|i: int|
            0 <= i < s.len() ==> #[trigger] members(s)[i] == (s[i].0@, document(s[i].1)),
    decreases s.len(),
{
    if s.len() > 0 {
        lemma_members(s.drop_last());
    }
}

// ---------------------------------------------------------------------------
// Parsing
// ---------------------------------------------------------------------------

/// The document that bytes hold or, where they hold none, the words for what is
/// wrong with them.
pub uninterp spec fn json_in(bytes: Seq<u8>) -> Result<Document, Seq<char>>;

/// The list of numbers that bytes hold as JSON or, where they hold none, the
/// words for what is wrong with them.
pub uninterp spec fn numbers_in(bytes: Seq<u8>) -> Result<Seq<u64>, Seq<char>>;

/// A JSON value of `serde_json`.
#[verifier::external_type_specification]
#[verifier::external_body]
pub struct ExValue(serde_json::Value);

/// What a JSON value of `serde_json` holds.
pub uninterp spec fn held(value: serde_json::Value) -> Document;

/// A JSON value of `serde_json`, opened: its variant, with what it holds.
pub enum Opened<'a> {
    Null,
    Bool(bool),
    Number(Option<u64>),
    Text(&'a String),
    List(Vec<&'a serde_json::Value>),
    Record(Vec<(&'a String, &'a serde_json::Value)>),
}

/// What the values of a list hold.
pub open spec fn all_held(v: Seq<&serde_json::Value>) -> Seq<Document> {
    v.map_values(|value: &serde_json::Value| held(*value))
}

/// What the members of an object hold.
pub open spec fn members_held(v: Seq<(&String, &serde_json::Value)>) -> Seq<
    (Seq<char>, Document),
> {
    v.map_values(|m: (&String, &serde_json::Value)| (m.0@, held(*m.1)))
}

impl<'a> View for Opened<'a> {
    type V = Document;

    open spec fn view(&self) -> Document {
        match self {
            Opened::Null => Document::Null,
            Opened::Bool(b) => Document::Bool(*b),
            Opened::Number(n) => Document::Number(*n),
            Opened::Text(s) => Document::Text(s@),
            Opened::List(v) => Document::List(all_held(v@)),
            Opened::Record(m) => Document::Record(members_held(m@)),
        }
    }
}

/// The variants of `serde_json::Value`, told apart. A number is asked for its
/// value with `as_u64`; the elements of a list and the members of an object come
/// in the order in which the value has them.
#[verifier::external_body]
fn look_into<'a>(value: &'a serde_json::Value) -> (r: Opened<'a>)
    ensures
        r@ == held(*value),
{
    match value {
        serde_json::Value::Null => Opened::Null,
        serde_json::Value::Bool(b) => Opened::Bool(*b),
        serde_json::Value::Number(n) => Opened::Number(n.as_u64()),
        serde_json::Value::String(s) => Opened::Text(s),
        serde_json::Value::Array(v) => Opened::List(v.iter().collect()),
        serde_json::Value::Object(m) => Opened::Record(m.iter().collect()),
    }
}

/// `serde_json::from_slice` for a document of any form. The result, the words of
/// the error included, depends on the bytes alone.
#[verifier::external_body]
fn value_in(bytes: &Vec<u8>) -> (r: Result<serde_json::Value, String>)
    ensures
        (match r {
            Ok(value) => Ok(held(value)),
            Err(e) => Err(e@),
        }) == json_in(bytes@),
{
    serde_json::from_slice(bytes).map_err(|e: serde_json::Error| e.to_string())
}

/// `serde_json::from_slice` for a list of unsigned numbers. The result, the
/// words of the error included, depends on the bytes alone.
#[verifier::external_body]
pub(crate) fn parse_numbers(bytes: &Vec<u8>) -> (r: Result<Vec<u64>, String>)
    ensures
        r.meaning() == numbers_in(bytes@),
{
    serde_json::from_slice(bytes).map_err(|e: serde_json::Error| e.to_string())
}

/// The document that a value holds.
fn convert(value: &serde_json::Value) -> (r: Json)
    ensures
        r@ == held(*value),
    decreases held(*value),
{
    match look_into(value) {
        Opened::Null => Json::Null,
        Opened::Bool(b) => Json::Bool(b),
        Opened::Number(n) => Json::Number(n),
        Opened::Text(s) => Json::Text(owned(s)),
        Opened::List(v) => {
            assert(decreases_to!(held(*value) => held(*value)->List_0));
            Json::List(convert_all(&v))
        },
        Opened::Record(m) => {
            assert(decreases_to!(held(*value) => held(*value)->Record_0));
            Json::Record(convert_members(&m))
        },
    }
}

/// The documents that the values of a list hold.
fn convert_all(v: &Vec<&serde_json::Value>) -> (r: Vec<Json>)
    ensures
        documents(r@) == all_held(v@),
    decreases all_held(v@),
{
    let ghost all = all_held(v@);
    let mut r: Vec<Json> = Vec::new();
    let mut i: usize = 0;
    assert(documents(r@) =~= all.take(0));
    while i < v.len()
        invariant
            i <= v@.len(),
            all == all_held(v@),
            documents(r@) == all.take(i as int),
        decreases v@.len() - i,
    {
        assert(all[i as int] == held(*v@[i as int]));
        let ghost before = r@;
        r.push(convert(v[i]));
        assert(r@.drop_last() =~= before);
        assert(documents(r@) =~= all.take(i + 1));
        i += 1;
    }
    assert(all.take(i as int) =~= all);
    r
}

/// The members that the members of an object hold.
fn convert_members(m: &Vec<(&String, &serde_json::Value)>) -> (r: Vec<(String, Json)>)
    ensures
        members(r@) == members_held(m@),
    decreases members_held(m@),
{
    let ghost all = members_held(m@);
    let mut r: Vec<(String, Json)> = Vec::new();
    let mut i: usize = 0;
    assert(members(r@) =~= all.take(0));
    while i < m.len()
        invariant
            i <= m@.len(),
            all == members_held(m@),
            members(r@) == all.take(i as int),
        decreases m@.len() - i,
    {
        assert(all[i as int] == (m@[i as int].0@, held(*m@[i as int].1)));
        let ghost before = r@;
        let key = owned(m[i].0);
        assert(decreases_to!(all => all[i as int]));
        assert(decreases_to!(all[i as int] => all[i as int].1));
        r.push((key, convert(m[i].1)));
        assert(r@.drop_last() =~= before);
        assert(members(r@) =~= all.take(i + 1));
        i += 1;
    }
    assert(all.take(i as int) =~= all);
    r
}

/// The document that bytes hold or, where they hold none, the words for what is
/// wrong with them.
pub fn parse(bytes: &Vec<u8>) -> (r: Result<Json, String>)
    ensures
        r.meaning() == json_in(bytes@),
{
    match value_in(bytes) {
        Ok(value) => Ok(convert(&value)),
        Err(e) => Err(e),
    }
}

// ---------------------------------------------------------------------------
// Reading
// ---------------------------------------------------------------------------

/// The first member of that name.
pub open spec fn member(m: Seq<(Seq<char>, Document)>, key: Seq<char>) -> Option<Document>
    decreases m.len(),
{
    if m.len() == 0 {
        None
    } else if m[0].0 == key {
        Some(m[0].1)
    } else {
        member(m.drop_first(), key)
    }
}

/// What a document has under a name, if it is an object with such a member.
pub open spec fn get(d: Document, key: Seq<char>) -> Option<Document> {
    match d {
        Document::Record(m) => member(m, key),
        _ => None,
    }
}

/// What a document has under a name, or null.
pub open spec fn at(d: Document, key: Seq<char>) -> Document {
    match get(d, key) {
        Some(v) => v,
        None => Document::Null,
    }
}

/// The text that a document is.
pub open spec fn as_text(d: Document) -> Option<Seq<char>> {
    match d {
        Document::Text(s) => Some(s),
        _ => None,
    }
}

/// The text that a document has under a name.
pub open spec fn text_at(d: Document, key: Seq<char>) -> Option<Seq<char>> {
    as_text(at(d, key))
}

/// The truth value that a document has under a name.
pub open spec fn bool_at(d: Document, key: Seq<char>) -> Option<bool> {
    match at(d, key) {
        Document::Bool(b) => Some(b),
        _ => None,
    }
}

/// The unsigned number that a document has under a name.
pub open spec fn number_at(d: Document, key: Seq<char>) -> Option<u64> {
    match at(d, key) {
        Document::Number(n) => n,
        _ => None,
    }
}

/// The elements of a document that is a list.
pub open spec fn elements(d: Document) -> Option<Seq<Document>> {
    match d {
        Document::List(s) => Some(s),
        _ => None,
    }
}

impl Json {
    /// What this document has under a name.
    pub fn get(&self, key: &str) -> (r: Option<&Json>)
        ensures
            r is Some <==> get(self@, key@) is Some,
            r matches Some(j) ==> get(self@, key@) == Some(j@),
    {
        match self {
            Json::Record(v) => {
                let ghost all = members(v@);
                let mut i: usize = 0;
                proof {
                    lemma_members(v@);
                }
                assert(all.skip(0) =~= all);
                while i < v.len()
                    invariant
                        i <= v@.len(),
                        all == members(v@),
                        all.len() == v@.len(),
                        forall|k: int|
                            0 <= k < v@.len() ==> #[trigger] all[k] == (v@[k].0@, document(v@[k].1)),
                        self@ == Document::Record(all),
                        member(all, key@) == member(all.skip(i as int), key@),
                    decreases v@.len() - i,
                {
                    assert(all[i as int] == (v@[i as int].0@, document(v@[i as int].1)));
                    assert(all.skip(i as int)[0] == all[i as int]);
                    if same(&v[i].0, key) {
                        return Some(&v[i].1);
                    }
                    assert(all.skip(i as int).drop_first() =~= all.skip(i + 1));
                    i += 1;
                }
                assert(all.skip(i as int).len() == 0);
                None
            },
            _ => None,
        }
    }

    /// The text that this document has under a name.
    pub fn text_at(&self, key: &str) -> (r: Option<&String>)
        ensures
            r is Some <==> text_at(self@, key@) is Some,
            r matches Some(s) ==> text_at(self@, key@) == Some(s@),
    {
        match self.get(key) {
            Some(Json::Text(s)) => Some(s),
            _ => None,
        }
    }

    /// The truth value that this document has under a name.
    pub fn bool_at(&self, key: &str) -> (r: Option<bool>)
        ensures
            r == bool_at(self@, key@),
    {
        match self.get(key) {
            Some(Json::Bool(b)) => Some(*b),
            _ => None,
        }
    }

    /// The unsigned number that this document has under a name.
    pub fn number_at(&self, key: &str) -> (r: Option<u64>)
        ensures
            r == number_at(self@, key@),
    {
        match self.get(key) {
            Some(Json::Number(n)) => *n,
            _ => None,
        }
    }

    /// Whether this document has null, or nothing, under a name.
    pub fn null_at(&self, key: &str) -> (r: bool)
        ensures
            r == (at(self@, key@) is Null),
    {
        match self.get(key) {
            Some(Json::Null) => true,
            Some(_) => false,
            None => true,
        }
    }

    /// The elements of this document, if it is a list.
    pub fn elements(&self) -> (r: Option<&Vec<Json>>)
        ensures
            r is Some <==> elements(self@) is Some,
            r matches Some(v) ==> {
                &&& elements(self@) == Some(documents(v@))
                &&& documents(v@).len() == v@.len()
                &&& forall|i: int| 0 <= i < v@.len() ==> #[trigger] documents(v@)[i] == v@[i]@
            },
    {
        match self {
            Json::List(v) => {
                proof {
                    lemma_documents(v@);
                }
                Some(v)
            },
            _ => None,
        }
    }
}

/// What a record has under a name is its first member of that name. Anything else has
/// nothing under any name. What is found there is a text, a truth value or a number only
/// if it is one.
pub proof fn law_members_are_found_by_name(
    name: Seq<char>,
    value: Document,
    rest: Seq<(Seq<char>, Document)>,
    key: Seq<char>,
    d: Document,
)
    ensures
        at(Document::Record(Seq::empty()), key) == Document::Null,
        name == key ==> at(Document::Record(seq![(name, value)] + rest), key) == value,
        name != key ==> at(Document::Record(seq![(name, value)] + rest), key) == at(
            Document::Record(rest),
            key,
        ),
        !(d is Record) ==> at(d, key) == Document::Null,
        text_at(d, key) == match at(d, key) {
            Document::Text(s) => Some(s),
            _ => None,
        },
        bool_at(d, key) == match at(d, key) {
            Document::Bool(b) => Some(b),
            _ => None,
        },
        number_at(d, key) == match at(d, key) {
            Document::Number(n) => n,
            _ => None,
        },
        elements(d) == match d {
            Document::List(s) => Some(s),
            _ => None,
        },
{
    let m = seq![(name, value)] + rest;
    assert(m.drop_first() =~= rest);
}

} // verus!

//! JSON values.
use vstd::prelude::*;
use crate::text::{decimal, decimal_text, same_text};

verus! {

/// A JSON value. A number is kept as its literal; the members of an object keep
/// the order in which they were written.
#[derive(Debug, PartialEq)]
pub enum Json {
    Null,
    Bool(bool),
    Number(String),
    Text(String),
    List(Vec<Json>),
    Object(Vec<(String, Json)>),
}

/// What a JSON value holds.
pub enum JsonView {
    Null,
    Bool(bool),
    Number(Seq<char>),
    Text(Seq<char>),
    List(Seq<JsonView>),
    Object(Seq<(Seq<char>, JsonView)>),
}

impl Json {
    pub open spec fn view(self) -> JsonView
        decreases self,
    {
        match self {
            Json::Null => JsonView::Null,
            Json::Bool(b) => JsonView::Bool(b),
            Json::Number(literal) => JsonView::Number(literal@),
            Json::Text(text) => JsonView::Text(text@),
            Json::List(items) => JsonView::List(
                Seq::new(
                    items@.len(),
                    |i: int|
                        if 0 <= i < items@.len() {
                            items@[i].view()
                        } else {
                            JsonView::Null
                        },
                ),
            ),
            Json::Object(members) => JsonView::Object(
                Seq::new(
                    members@.len(),
                    |i: int|
                        if 0 <= i < members@.len() {
                            (members@[i].0@, members@[i].1.view())
                        } else {
                            (Seq::empty(), JsonView::Null)
                        },
                ),
            ),
        }
    }
}

// ---------------------------------------------------------------------------
// Reading

/// The value under a key among members, the first one if the key repeats.
pub open spec fn found_under(members: Seq<(Seq<char>, JsonView)>, key: Seq<char>) -> Option<
    JsonView,
>
    decreases members.len(),
{
    if members.len() == 0 {
        None
    } else if members[0].0 == key {
        Some(members[0].1)
    } else {
        found_under(members.skip(1), key)
    }
}

impl JsonView {
    /// The value that an object holds under a key; nothing if it holds none or
    /// the value is no object.
    pub open spec fn get(self, key: Seq<char>) -> Option<JsonView> {
        match self {
            JsonView::Object(members) => found_under(members, key),
            _ => None,
        }
    }

    /// The value at a place of a list; nothing if the list is too short or the
    /// value is no list.
    pub open spec fn nth(self, i: int) -> Option<JsonView> {
        match self {
            JsonView::List(items) => if 0 <= i < items.len() {
                Some(items[i])
            } else {
                None
            },
            _ => None,
        }
    }

    /// The characters of a text; nothing for any other value.
    pub open spec fn as_text(self) -> Option<Seq<char>> {
        match self {
            JsonView::Text(t) => Some(t),
            _ => None,
        }
    }
}

/// What a reference to a value, if there is one, holds.
pub open spec fn seen(value: Option<&Json>) -> Option<JsonView> {
    match value {
        Some(v) => Some(v@),
        None => None,
    }
}

impl Json {
    /// The value under a key of an object.
    pub fn get(&self, key: &str) -> (value: Option<&Json>)
        ensures
            seen(value) == self@.get(key@),
    {
        match self {
            Json::Object(members) => {
                let ghost all = self@->Object_0;
                let mut i: usize = 0;
                assert(all.skip(0) =~= all);
                while i < members.len()
                    invariant
                        i <= members@.len(),
                        self == Json::Object(*members),
                        all == self@->Object_0,
                        found_under(all, key@) == found_under(all.skip(i as int), key@),
                    decreases members@.len() - i,
                {
                    assert(all.skip(i as int)[0] == (members@[i as int].0@, members@[i as int].1@));
                    if same_text(members[i].0.as_str(), key) {
                        return Some(&members[i].1);
                    }
                    assert(all.skip(i as int).skip(1) =~= all.skip(i + 1));
                    i = i + 1;
                }
                None
            },
            _ => None,
        }
    }

    /// The value at a place of a list.
    pub fn nth(&self, i: usize) -> (value: Option<&Json>)
        ensures
            seen(value) == self@.nth(i as int),
    {
        match self {
            Json::List(items) => if i < items.len() {
                Some(&items[i])
            } else {
                None
            },
            _ => None,
        }
    }
}

// ---------------------------------------------------------------------------
// Text

/// A value of the `serde_json` crate.
#[verifier::external_type_specification]
#[verifier::external_body]
pub struct ExValue(serde_json::Value);

/// What `serde_json` reads in a text: the value, or why it is none.
pub uninterp spec fn parsed_json(text: Seq<char>) -> Result<JsonView, Seq<char>>;

/// What `serde_json` reads in a stream of bytes: the value, or why it is none.
pub uninterp spec fn streamed_json(bytes: Seq<u8>) -> Result<JsonView, Seq<char>>;

/// The text that `serde_json` writes for the value that it reads in a text.
pub uninterp spec fn rewritten_json(text: Seq<char>) -> Seq<char>;

/// The text that `serde_json` writes for a value.
pub uninterp spec fn written_json(value: JsonView) -> Seq<char>;

/// What a value or a failure holds.
pub open spec fn json_result(r: Result<Json, String>) -> Result<JsonView, Seq<char>> {
    match r {
        Ok(v) => Ok(v@),
        Err(e) => Err(e@),
    }
}

/// Takes a `serde_json::Value` apart, variant by variant; a `Number` by its
/// `to_string`. Part of [`parse_json`], which says what comes of it.
#[verifier::external_body]
fn from_value(value: serde_json::Value) -> Json {
    match value {
        serde_json::Value::Null => Json::Null,
        serde_json::Value::Bool(b) => Json::Bool(b),
        serde_json::Value::Number(n) => Json::Number(n.to_string()),
        serde_json::Value::String(s) => Json::Text(s),
        serde_json::Value::Array(items) => Json::List(items.into_iter().map(from_value).collect()),
        serde_json::Value::Object(members) => Json::Object(
            members.into_iter().map(|(k, v)| (k, from_value(v))).collect(),
        ),
    }
}

/// Calls `serde_json::from_str` for a `serde_json::Value`. The value, or the error
/// in words, depends on the text alone.
#[verifier::external_body]
fn parse_json(text: &str) -> (r: Result<Json, String>)
    ensures
        json_result(r) == parsed_json(text@),
{
    match serde_json::from_str::<serde_json::Value>(text) {
        Ok(value) => Ok(from_value(value)),
        Err(e) => Err(e.to_string()),
    }
}

/// Calls `serde_json::from_reader` for a `serde_json::Value`. The value, or the error
/// in words, depends on the bytes alone.
#[verifier::external_body]
fn stream_json(bytes: &Vec<u8>) -> (r: Result<Json, String>)
    ensures
        json_result(r) == streamed_json(bytes@),
{
    match serde_json::from_reader::<_, serde_json::Value>(bytes.as_slice()) {
        Ok(value) => Ok(from_value(value)),
        Err(e) => Err(e.to_string()),
    }
}

/// Calls `serde_json::from_str` for a `serde_json::Value`, then its `to_string`. The
/// text depends on the given one alone. A number is written as it was read.
#[verifier::external_body]
fn rewrite_json(text: &str) -> (s: String)
    requires
        parsed_json(text@) is Ok,
    ensures
        s@ == rewritten_json(text@),
{
    serde_json::from_str::<serde_json::Value>(text).unwrap().to_string()
}

/// Builds a `serde_json::Value`, variant by variant; a number by `serde_json::from_str`
/// of its literal, which is exact for whole numbers. Part of [`write_json`], which says
/// what comes of it.
#[verifier::external_body]
fn to_value(value: &Json) -> serde_json::Value {
    match value {
        Json::Null => serde_json::Value::Null,
        Json::Bool(b) => serde_json::Value::Bool(*b),
        Json::Number(literal) => serde_json::from_str(literal).unwrap_or_default(),
        Json::Text(s) => serde_json::Value::String(s.clone()),
        Json::List(items) => serde_json::Value::Array(items.iter().map(to_value).collect()),
        Json::Object(members) => serde_json::Value::Object(
            members.iter().map(|(k, v)| (k.clone(), to_value(v))).collect(),
        ),
    }
}

/// Calls `to_string` of `serde_json::Value`. The text depends on the value alone.
#[verifier::external_body]
fn write_json(value: &Json) -> (s: String)
    ensures
        s@ == written_json(value@),
{
    to_value(value).to_string()
}

impl Json {
    /// Reads the value of a stream of bytes.
    pub fn read(bytes: &Vec<u8>) -> (r: Result<Json, String>)
        ensures
            json_result(r) == streamed_json(bytes@),
    {
        stream_json(bytes)
    }

    /// Writes the value as text.
    pub fn write(&self) -> (s: String)
        ensures
            s@ == written_json(self@),
    {
        write_json(self)
    }
}

/// A value and the text that is sent for it.
#[derive(Debug, PartialEq)]
pub struct Body {
    pub value: Json,
    pub text: String,
}

pub struct BodyView {
    pub value: JsonView,
    pub text: Seq<char>,
}

impl View for Body {
    type V = BodyView;

    open spec fn view(&self) -> BodyView {
        BodyView { value: self.value@, text: self.text@ }
    }
}

/// A value with the text that is written for it.
pub open spec fn body_of(value: JsonView) -> BodyView {
    BodyView { value, text: written_json(value) }
}

/// What a text says, to be sent on: the value, and the text that is written for what
/// was read; or why the text says nothing.
pub open spec fn parsed_body(text: Seq<char>) -> Result<BodyView, Seq<char>> {
    match parsed_json(text) {
        Ok(value) => Ok(BodyView { value, text: rewritten_json(text) }),
        Err(e) => Err(e),
    }
}

/// What a body or a failure holds.
pub open spec fn body_result(r: Result<Body, String>) -> Result<BodyView, Seq<char>> {
    match r {
        Ok(b) => Ok(b@),
        Err(e) => Err(e@),
    }
}

impl Body {
    /// Takes a value that was built here.
    pub fn of(value: Json) -> (body: Body)
        ensures
            body@ == body_of(value@),
    {
        let text = value.write();
        Body { value, text }
    }

    /// Reads a text that is to be sent on.
    pub fn parse(text: &str) -> (r: Result<Body, String>)
        ensures
            body_result(r) == parsed_body(text@),
    {
        match parse_json(text) {
            Ok(value) => Ok(Body { value, text: rewrite_json(text) }),
            Err(e) => Err(e),
        }
    }
}

// ---------------------------------------------------------------------------
// Building

/// What the members of an object hold.
pub open spec fn members_view(members: Seq<(String, Json)>) -> Seq<(Seq<char>, JsonView)> {
    Seq::new(members.len(), |i: int| (members[i].0@, members[i].1@))
}

/// What the items of a list hold.
pub open spec fn items_view(items: Seq<Json>) -> Seq<JsonView> {
    Seq::new(items.len(), |i: int| items[i]@)
}

/// Adds a member at the end.
pub fn with_member(members: Vec<(String, Json)>, key: &str, value: Json) -> (more: Vec<
    (String, Json),
>)
    ensures
        members_view(more@) == members_view(members@).push((key@, value@)),
{
    let mut more = members;
    more.push((key.to_owned(), value));
    assert(members_view(more@) =~= members_view(members@).push((key@, value@)));
    more
}

/// Starts an object with its first member.
pub fn first_member(key: &str, value: Json) -> (members: Vec<(String, Json)>)
    ensures
        members_view(members@) == seq![(key@, value@)],
{
    let mut members: Vec<(String, Json)> = Vec::new();
    members.push((key.to_owned(), value));
    assert(members_view(members@) =~= seq![(key@, value@)]);
    members
}

/// An object of the given members.
pub fn object(members: Vec<(String, Json)>) -> (value: Json)
    ensures
        value@ == JsonView::Object(members_view(members@)),
{
    let value = Json::Object(members);
    assert(value@->Object_0 =~= members_view(members@));
    value
}

/// A list of the given items.
pub fn list(items: Vec<Json>) -> (value: Json)
    ensures
        value@ == JsonView::List(items_view(items@)),
{
    let value = Json::List(items);
    assert(value@->List_0 =~= items_view(items@));
    value
}

/// A text value.
pub fn text(s: &str) -> (value: Json)
    ensures
        value@ == JsonView::Text(s@),
{
    Json::Text(s.to_owned())
}

/// A whole number.
pub fn number(n: u64) -> (value: Json)
    ensures
        value@ == JsonView::Number(decimal_text(n as nat)),
{
    Json::Number(decimal(n))
}

// ---------------------------------------------------------------------------
// Laws

proof fn lemma_found_after(
    a: Seq<(Seq<char>, JsonView)>,
    key: Seq<char>,
    value: JsonView,
    b: Seq<(Seq<char>, JsonView)>,
)
    requires
        forall|i: int| 0 <= i < a.len() ==> (#[trigger] a[i]).0 != key,
    ensures
        found_under(a + seq![(key, value)] + b, key) == Some(value),
    decreases a.len(),
{
    let m = a + seq![(key, value)] + b;
    if a.len() > 0 {
        assert(m[0] == a[0]);
        assert(m.skip(1) =~= a.skip(1) + seq![(key, value)] + b);
        assert forall|i: int| 0 <= i < a.skip(1).len() implies (#[trigger] a.skip(1)[i]).0 != key by {
            assert(a.skip(1)[i] == a[i + 1]);
        }
        lemma_found_after(a.skip(1), key, value, b);
    } else {
        assert(m[0] == (key, value));
    }
}

/// What an object holds under a key is the value of the first member with that key.
pub proof fn law_first_member_counts(
    a: Seq<(Seq<char>, JsonView)>,
    key: Seq<char>,
    value: JsonView,
    b: Seq<(Seq<char>, JsonView)>,
)
    requires
        forall|i: int| 0 <= i < a.len() ==> (#[trigger] a[i]).0 != key,
    ensures
        JsonView::Object(a + seq![(key, value)] + b).get(key) == Some(value),
{
    lemma_found_after(a, key, value, b);
}

/// An object without a member of that key holds nothing under it.
pub proof fn law_no_member_no_value(m: Seq<(Seq<char>, JsonView)>, key: Seq<char>)
    requires
        forall|i: int| 0 <= i < m.len() ==> (#[trigger] m[i]).0 != key,
    ensures
        JsonView::Object(m).get(key) is None,
    decreases m.len(),
{
    if m.len() > 0 {
        assert(m[0].0 != key);
        assert forall|i: int| 0 <= i < m.skip(1).len() implies (#[trigger] m.skip(1)[i]).0 != key by {
            assert(m.skip(1)[i] == m[i + 1]);
        }
        law_no_member_no_value(m.skip(1), key);
    }
}

/// Only objects have members, and only lists have items.
pub proof fn law_members_and_items(v: JsonView, key: Seq<char>, i: int)
    ensures
        v.get(key) is Some ==> v is Object,
        v.nth(i) is Some ==> v is List,
        v matches JsonView::List(items) ==> (0 <= i < items.len() ==> v.nth(i) == Some(items[i])),
        v matches JsonView::List(items) ==> (i < 0 || i >= items.len() ==> v.nth(i) is None),
{
}

} // verus!

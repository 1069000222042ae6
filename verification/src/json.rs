//! JSON documents: what a `serde_json::Value` holds, and the calls that build,
//! read, parse and print one.

use vstd::prelude::*;

use crate::config;
use crate::text;

verus! {

/// What a JSON document holds.
///
/// A number that is no integer is held by the text that `serde_json` prints of
/// it.
#[verifier::ext_equal]
pub enum JsonView {
    Null,
    Bool(bool),
    Number(int),
    Real(Seq<char>),
    Text(Seq<char>),
    List(Seq<JsonView>),
    Object(Map<Seq<char>, JsonView>),
}

#[verifier::external_type_specification]
#[verifier::external_body]
pub struct ExValue(serde_json::Value);

#[verifier::external_type_specification]
#[verifier::external_body]
#[verifier::reject_recursive_types(K)]
#[verifier::reject_recursive_types(V)]
pub struct ExMap<K, V>(serde_json::Map<K, V>);

/// What a `serde_json::Value` holds.
pub uninterp spec fn contents(v: serde_json::Value) -> JsonView;

/// What a `serde_json::Map` holds.
pub uninterp spec fn members(m: serde_json::Map<String, serde_json::Value>) -> Map<Seq<char>, JsonView>;

/// What `serde_json::from_str` reads from a text as a document, or the text of
/// its error.
pub uninterp spec fn parsed(s: Seq<char>) -> Result<JsonView, Seq<char>>;

/// What `serde_json::from_str` reads from a text as a list of texts, if it can.
pub uninterp spec fn parsed_texts(s: Seq<char>) -> Option<Seq<Seq<char>>>;

/// What `serde_json::from_str` reads from a text as a map from texts to texts, or
/// the text of its error.
pub uninterp spec fn parsed_text_map(s: Seq<char>) -> Result<Map<Seq<char>, Seq<char>>, Seq<char>>;

/// What `serde_json::from_slice` reads from bytes as a document, or the text of
/// its error.
pub uninterp spec fn parsed_bytes(b: Seq<u8>) -> Result<JsonView, Seq<char>>;

/// What `serde_json::to_string_pretty` prints of a document, or the text of its
/// error.
pub uninterp spec fn printed(v: JsonView) -> Result<Seq<char>, Seq<char>>;

/// What `serde_json` prints of a document, as the bytes of its UTF-8 form.
pub open spec fn printed_bytes(v: JsonView) -> Result<Seq<u8>, Seq<char>> {
    match printed(v) {
        Ok(s) => Ok(vstd::utf8::encode_utf8(s)),
        Err(e) => Err(e),
    }
}

/// What each of a list of values holds.
pub open spec fn all_contents(l: Seq<serde_json::Value>) -> Seq<JsonView> {
    l.map_values(|v: serde_json::Value| contents(v))
}

/// A list of texts as a document.
pub open spec fn texts(l: Seq<Seq<char>>) -> JsonView {
    JsonView::List(l.map_values(|s: Seq<char>| JsonView::Text(s)))
}

/// What a map from texts to texts is as a document.
pub open spec fn text_members(m: Map<Seq<char>, Seq<char>>) -> Map<Seq<char>, JsonView> {
    m.map_values(|s: Seq<char>| JsonView::Text(s))
}

/// An optional text as a document.
pub open spec fn optional(o: Option<Seq<char>>) -> JsonView {
    match o {
        Some(s) => JsonView::Text(s),
        None => JsonView::Null,
    }
}

/// A document without members.
pub open spec fn nothing() -> Map<Seq<char>, JsonView> {
    Map::empty()
}

/// The member of a document under a key: nothing where it is no object or has
/// no such member.
pub open spec fn member_of(v: JsonView, key: Seq<char>) -> JsonView {
    match v {
        JsonView::Object(m) => if m.contains_key(key) { m[key] } else { JsonView::Null },
        _ => JsonView::Null,
    }
}

/// The item of a document at an index: nothing where it is no list or is too
/// short.
pub open spec fn item_of(v: JsonView, i: int) -> JsonView {
    match v {
        JsonView::List(l) => if 0 <= i < l.len() { l[i] } else { JsonView::Null },
        _ => JsonView::Null,
    }
}

/// The text that a document is, if it is one.
pub open spec fn text_of(v: JsonView) -> Option<Seq<char>> {
    match v {
        JsonView::Text(s) => Some(s),
        _ => None,
    }
}

/// Whether a member can be set by a key: in an object, or in nothing, which
/// becomes an object.
pub open spec fn settable(v: JsonView) -> bool {
    v is Null || v is Object
}

/// A document after a member is set.
pub open spec fn with_member(v: JsonView, key: Seq<char>, value: JsonView) -> JsonView {
    match v {
        JsonView::Object(m) => JsonView::Object(m.insert(key, value)),
        _ => JsonView::Object(nothing().insert(key, value)),
    }
}

/// The key that `serde_json` keeps for raw values: an object that begins with it
/// is not read as an object.
pub const RAW_KEY: &'static str = "$serde_json::private::RawValue";

/// Whether a document nests no deeper than a number of levels, every number in
/// it is an integer, and no object in it has the key that `serde_json` keeps for
/// raw values.
pub open spec fn tame(v: JsonView, levels: nat) -> bool
    decreases levels,
{
    match v {
        JsonView::Real(_) => false,
        JsonView::List(l) => levels > 0 && forall|i: int|
            0 <= i < l.len() ==> tame(#[trigger] l[i], (levels - 1) as nat),
        JsonView::Object(m) => levels > 0 && !m.contains_key(RAW_KEY@) && forall|k: Seq<char>| #[trigger]
            m.contains_key(k) ==> tame(m[k], (levels - 1) as nat),
        _ => true,
    }
}

/// Whether `serde_json` reads a document back from what it prints of it. It
/// stops at 128 levels.
pub open spec fn readable(v: JsonView) -> bool {
    tame(v, 100)
}

/// `serde_json::Value::String`: a text as a document.
#[verifier::external_body]
pub(crate) fn text_value(s: &str) -> (r: serde_json::Value)
    ensures
        contents(r) == JsonView::Text(s@),
{
    serde_json::Value::String(s.to_string())
}

/// `serde_json::Value::from` of a `u64`: a count as a document.
#[verifier::external_body]
pub(crate) fn count_value(n: u64) -> (r: serde_json::Value)
    ensures
        contents(r) == JsonView::Number(n as int),
{
    serde_json::Value::from(n)
}

/// `serde_json::Value::from` of an `i64`: a number as a document.
#[verifier::external_body]
pub(crate) fn number_value(n: i64) -> (r: serde_json::Value)
    ensures
        contents(r) == JsonView::Number(n as int),
{
    serde_json::Value::from(n)
}

/// `serde_json::Value::Bool`: a truth value as a document.
#[verifier::external_body]
pub(crate) fn bool_value(b: bool) -> (r: serde_json::Value)
    ensures
        contents(r) == JsonView::Bool(b),
{
    serde_json::Value::Bool(b)
}

/// `serde_json::Value::Null`: the document that is nothing.
#[verifier::external_body]
pub(crate) fn null_value() -> (r: serde_json::Value)
    ensures
        contents(r) == JsonView::Null,
{
    serde_json::Value::Null
}

/// `serde_json::Value::Array`: documents as a list.
#[verifier::external_body]
pub(crate) fn list_value(l: Vec<serde_json::Value>) -> (r: serde_json::Value)
    ensures
        contents(r) == JsonView::List(all_contents(l@)),
{
    serde_json::Value::Array(l)
}

/// `serde_json::Value::Object`: members as a document.
#[verifier::external_body]
pub(crate) fn object_value(m: serde_json::Map<String, serde_json::Value>) -> (r: serde_json::Value)
    ensures
        contents(r) == JsonView::Object(members(m)),
{
    serde_json::Value::Object(m)
}

/// `serde_json::Map::new`: no members.
#[verifier::external_body]
pub(crate) fn new_members() -> (r: serde_json::Map<String, serde_json::Value>)
    ensures
        members(r) == nothing(),
{
    serde_json::Map::new()
}

/// `serde_json::Map::insert`: sets a member, in place of one with the same key.
#[verifier::external_body]
pub(crate) fn insert_member(m: &mut serde_json::Map<String, serde_json::Value>, key: &str, value: serde_json::Value)
    ensures
        members(*final(m)) == members(*old(m)).insert(key@, contents(value)),
{
    m.insert(key.to_string(), value);
}

/// `serde_json::Map::get`: a copy of the member under a key, if there is one.
#[verifier::external_body]
pub(crate) fn get_member(m: &serde_json::Map<String, serde_json::Value>, key: &str) -> (r: Option<serde_json::Value>)
    ensures
        r is Some == members(*m).contains_key(key@),
        r is Some ==> contents(r->0) == members(*m)[key@],
{
    m.get(key).cloned()
}

/// `serde_json::Value::clone`: a document that holds the same.
#[verifier::external_body]
pub(crate) fn copy(v: &serde_json::Value) -> (r: serde_json::Value)
    ensures
        contents(r) == contents(*v),
{
    v.clone()
}

/// Indexing a `serde_json::Value` by a key: a copy of the member, or nothing
/// where there is none.
#[verifier::external_body]
pub(crate) fn member(v: &serde_json::Value, key: &str) -> (r: serde_json::Value)
    ensures
        contents(r) == member_of(contents(*v), key@),
{
    v[key].clone()
}

/// Indexing a `serde_json::Value` by a position: a copy of the item, or nothing
/// where there is none.
#[verifier::external_body]
pub(crate) fn item(v: &serde_json::Value, i: usize) -> (r: serde_json::Value)
    ensures
        contents(r) == item_of(contents(*v), i as int),
{
    v[i].clone()
}

/// Assigning to a `serde_json::Value` indexed by a key: sets the member. It
/// panics where the value is neither an object nor nothing.
#[verifier::external_body]
pub(crate) fn set_member(v: &mut serde_json::Value, key: &str, value: serde_json::Value)
    requires
        settable(contents(*old(v))),
    ensures
        contents(*final(v)) == with_member(contents(*old(v)), key@, contents(value)),
{
    v[key] = value;
}

/// `serde_json::Value::as_str`: a copy of the text that the value is.
#[verifier::external_body]
pub(crate) fn as_text(v: &serde_json::Value) -> (r: Option<String>)
    ensures
        text::opt_str(r) == text_of(contents(*v)),
{
    v.as_str().map(|s| s.to_string())
}

/// `serde_json::Value::as_u64`: the count that the value is: an integer that is
/// not negative.
#[verifier::external_body]
pub(crate) fn as_count(v: &serde_json::Value) -> (r: Option<u64>)
    ensures
        match contents(*v) {
            JsonView::Number(n) => if n >= 0 { r matches Some(k) && k == n } else { r is None },
            _ => r is None,
        },
{
    v.as_u64()
}

/// `serde_json::Value::as_array`: a copy of the items of the list that the value
/// is.
#[verifier::external_body]
pub(crate) fn as_list(v: &serde_json::Value) -> (r: Option<Vec<serde_json::Value>>)
    ensures
        match contents(*v) {
            JsonView::List(l) => r matches Some(k) && all_contents(k@) == l,
            _ => r is None,
        },
{
    v.as_array().cloned()
}

/// `serde_json::Value::as_object`: a copy of the members of the object that the
/// value is.
#[verifier::external_body]
pub(crate) fn as_members(v: &serde_json::Value) -> (r: Option<serde_json::Map<String, serde_json::Value>>)
    ensures
        match contents(*v) {
            JsonView::Object(m) => r matches Some(k) && members(k) == m,
            _ => r is None,
        },
{
    v.as_object().cloned()
}

/// `serde_json::from_str` into a `serde_json::Value`: the document that a text
/// holds, or the text of the error. It is named after the text alone.
#[verifier::external_body]
pub(crate) fn parse(s: &str) -> (r: Result<serde_json::Value, String>)
    ensures
        match r {
            Ok(v) => parsed(s@) == Ok::<JsonView, Seq<char>>(contents(v)),
            Err(e) => parsed(s@) == Err::<JsonView, Seq<char>>(e@),
        },
{
    serde_json::from_str(s).map_err(|e| e.to_string())
}

/// `serde_json::from_str` into a list of strings: the texts that a text holds,
/// or nothing where it holds something else. It is named after the text alone.
#[verifier::external_body]
pub(crate) fn parse_texts(s: &str) -> (r: Option<Vec<String>>)
    ensures
        text::opt_strs(r) == parsed_texts(s@),
{
    serde_json::from_str::<Vec<String>>(s).ok()
}

/// `serde_json::from_str` into a map from strings to strings: its pairs, each key
/// once, in no stated order, or the text of the error. It is named after the
/// text alone.
#[verifier::external_body]
pub(crate) fn parse_text_map(s: &str) -> (r: Result<Vec<(String, String)>, String>)
    ensures
        match r {
            Ok(pairs) => parsed_text_map(s@) is Ok && config::lists(
                config::pair_texts(pairs@),
                parsed_text_map(s@)->Ok_0,
            ),
            Err(e) => parsed_text_map(s@) == Err::<Map<Seq<char>, Seq<char>>, Seq<char>>(e@),
        },
{
    match serde_json::from_str::<std::collections::HashMap<String, String>>(s) {
        Ok(m) => Ok(m.into_iter().collect()),
        Err(e) => Err(e.to_string()),
    }
}

/// `serde_json::from_slice` into a `serde_json::Value`: the document that bytes
/// hold, or the text of the error. It is named after the bytes alone.
#[verifier::external_body]
pub(crate) fn parse_bytes(b: &Vec<u8>) -> (r: Result<serde_json::Value, String>)
    ensures
        match r {
            Ok(v) => parsed_bytes(b@) == Ok::<JsonView, Seq<char>>(contents(v)),
            Err(e) => parsed_bytes(b@) == Err::<JsonView, Seq<char>>(e@),
        },
{
    serde_json::from_slice(b).map_err(|e| e.to_string())
}

/// `serde_json::to_string_pretty`: the text of a document, on lines of their own
/// and indented, or the text of the error. It is named after what the document
/// holds. Of a document that nests little and holds neither fractions nor the key
/// of raw values, `serde_json::from_str` reads back from the text what the
/// document holds.
#[verifier::external_body]
pub(crate) fn print(v: &serde_json::Value) -> (r: Result<String, String>)
    ensures
        match r {
            Ok(s) => printed(contents(*v)) == Ok::<Seq<char>, Seq<char>>(s@) && (readable(contents(*v)) ==> parsed(s@)
                == Ok::<JsonView, Seq<char>>(contents(*v))),
            Err(e) => printed(contents(*v)) == Err::<Seq<char>, Seq<char>>(e@),
        },
{
    serde_json::to_string_pretty(v).map_err(|e| e.to_string())
}

/// `serde_json::to_vec_pretty`: what `serde_json::to_string_pretty` prints, as
/// the bytes of its UTF-8 form, or the text of the error. Of a document that
/// nests little and holds neither fractions nor the key of raw values,
/// `serde_json::from_str` reads back from the text what the document holds.
#[verifier::external_body]
pub(crate) fn print_bytes(v: &serde_json::Value) -> (r: Result<Vec<u8>, String>)
    ensures
        match r {
            Ok(b) => printed_bytes(contents(*v)) == Ok::<Seq<u8>, Seq<char>>(b@) && (readable(contents(*v))
                ==> parsed(vstd::utf8::decode_utf8(b@)) == Ok::<JsonView, Seq<char>>(contents(*v))),
            Err(e) => printed_bytes(contents(*v)) == Err::<Seq<u8>, Seq<char>>(e@),
        },
{
    serde_json::to_vec_pretty(v).map_err(|e| e.to_string())
}

/// Members with one more.
pub fn put(
    m: serde_json::Map<String, serde_json::Value>,
    key: &str,
    value: serde_json::Value,
) -> (r: serde_json::Map<String, serde_json::Value>)
    ensures
        members(r) == members(m).insert(key@, contents(value)),
{
    let mut m = m;
    insert_member(&mut m, key, value);
    m
}

/// Members with one more, a text.
pub fn put_text(
    m: serde_json::Map<String, serde_json::Value>,
    key: &str,
    s: &str,
) -> (r: serde_json::Map<String, serde_json::Value>)
    ensures
        members(r) == members(m).insert(key@, JsonView::Text(s@)),
{
    put(m, key, text_value(s))
}

/// Members with one more, a count.
pub fn put_count(
    m: serde_json::Map<String, serde_json::Value>,
    key: &str,
    n: u64,
) -> (r: serde_json::Map<String, serde_json::Value>)
    ensures
        members(r) == members(m).insert(key@, JsonView::Number(n as int)),
{
    put(m, key, count_value(n))
}

/// Members with one more, a truth value.
pub fn put_bool(
    m: serde_json::Map<String, serde_json::Value>,
    key: &str,
    b: bool,
) -> (r: serde_json::Map<String, serde_json::Value>)
    ensures
        members(r) == members(m).insert(key@, JsonView::Bool(b)),
{
    put(m, key, bool_value(b))
}

/// Members with one more, an object.
pub fn put_object(
    m: serde_json::Map<String, serde_json::Value>,
    key: &str,
    inner: serde_json::Map<String, serde_json::Value>,
) -> (r: serde_json::Map<String, serde_json::Value>)
    ensures
        members(r) == members(m).insert(key@, JsonView::Object(members(inner))),
{
    put(m, key, object_value(inner))
}

/// A list of texts as a document.
pub fn texts_value(l: &Vec<String>) -> (r: serde_json::Value)
    ensures
        contents(r) == texts(text::strs(l@)),
{
    let mut items: Vec<serde_json::Value> = Vec::new();
    for i in 0..l.len()
        invariant
            all_contents(items@) == text::strs(l@).take(i as int).map_values(|s: Seq<char>| JsonView::Text(s)),
    {
        let ghost done = items@;
        let one = text_value(&l[i]);
        items.push(one);
        assert(all_contents(items@) =~= all_contents(done).push(contents(one)));
        assert(text::strs(l@).take(i + 1) =~= text::strs(l@).take(i as int).push(l@[i as int]@));
        assert(all_contents(items@) =~= text::strs(l@).take(i + 1).map_values(|s: Seq<char>| JsonView::Text(s)));
    }
    assert(text::strs(l@).take(l@.len() as int) =~= text::strs(l@));
    list_value(items)
}

/// A list of one document.
pub fn single(v: serde_json::Value) -> (r: serde_json::Value)
    ensures
        contents(r) == JsonView::List(seq![contents(v)]),
{
    let mut items: Vec<serde_json::Value> = Vec::new();
    items.push(v);
    assert(all_contents(items@) =~= seq![contents(v)]);
    list_value(items)
}

/// The list without items.
pub fn empty_list() -> (r: serde_json::Value)
    ensures
        contents(r) == JsonView::List(Seq::empty()),
{
    let items: Vec<serde_json::Value> = Vec::new();
    assert(all_contents(items@) =~= Seq::empty());
    list_value(items)
}

/// An optional text as a document.
pub fn optional_value(o: &Option<String>) -> (r: serde_json::Value)
    ensures
        contents(r) == optional(text::opt_str(*o)),
{
    match o {
        Some(s) => text_value(s),
        None => null_value(),
    }
}

} // verus!

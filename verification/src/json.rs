//! The JSON values and maps of `serde_json`, and what the library takes on trust of them.
use vstd::prelude::*;

verus! {

/// An object of `serde_json`: a map from text to JSON values.
#[verifier::external_type_specification]
#[verifier::external_body]
#[verifier::reject_recursive_types(K)]
#[verifier::reject_recursive_types(V)]
pub struct ExJsonMap<K, V>(serde_json::Map<K, V>);

/// A JSON value of `serde_json`.
#[verifier::external_type_specification]
#[verifier::external_body]
pub struct ExJsonValue(serde_json::Value);

/// The error of `serde_json`'s reader and writer.
#[verifier::external_type_specification]
#[verifier::external_body]
pub struct ExJsonError(serde_json::Error);

/// What a JSON map holds: the value under each key.
pub uninterp spec fn entries(m: serde_json::Map<String, serde_json::Value>) -> Map<Seq<char>, serde_json::Value>;

/// The contents of an empty map.
pub open spec fn no_entries() -> Map<Seq<char>, serde_json::Value> {
    Map::empty()
}

/// The integer that `Value::as_i64` reads from a value.
pub uninterp spec fn int_of(v: serde_json::Value) -> Option<i64>;

/// The JSON number that holds an integer.
pub uninterp spec fn int_value(n: i64) -> serde_json::Value;

/// What an object holds; `None` for a value that is no object.
pub uninterp spec fn object_entries(v: serde_json::Value) -> Option<Map<Seq<char>, serde_json::Value>>;

/// The JSON object that holds the given entries.
pub uninterp spec fn object_value(e: Map<Seq<char>, serde_json::Value>) -> serde_json::Value;

/// The value that a JSON text denotes; `None` where the reader rejects the text.
pub uninterp spec fn parsed(text: Seq<char>) -> Option<serde_json::Value>;

/// The indented JSON text of a value.
pub uninterp spec fn pretty(v: serde_json::Value) -> Seq<char>;

/// `serde_json::Map::contains_key`: whether the map holds the key.
#[verifier::external_body]
pub(crate) fn map_contains_key(m: &serde_json::Map<String, serde_json::Value>, key: &str) -> (r: bool)
    ensures
        r == entries(*m).contains_key(key@),
{
    m.contains_key(key)
}

/// `serde_json::Map::get`: the value under the key, `None` where the map does not hold it.
#[verifier::external_body]
pub(crate) fn map_get<'a>(m: &'a serde_json::Map<String, serde_json::Value>, key: &str) -> (r: Option<&'a serde_json::Value>)
    ensures
        r is Some <==> entries(*m).contains_key(key@),
        r is Some ==> *r->0 == entries(*m)[key@],
{
    m.get(key)
}

/// `serde_json::Map::insert`: puts the value under the key, in place of what stood there, and
/// hands back what stood there.
#[verifier::external_body]
pub(crate) fn map_insert(m: &mut serde_json::Map<String, serde_json::Value>, key: String, value: serde_json::Value) -> (r: Option<serde_json::Value>)
    ensures
        entries(*final(m)) == entries(*old(m)).insert(key@, value),
        r is Some <==> entries(*old(m)).contains_key(key@),
        r is Some ==> r->0 == entries(*old(m))[key@],
{
    m.insert(key, value)
}

/// `serde_json::Map::entry` with `Entry::or_insert`: puts the value under the key only where
/// nothing stands there.
#[verifier::external_body]
pub(crate) fn map_or_insert(m: &mut serde_json::Map<String, serde_json::Value>, key: &str, value: serde_json::Value)
    ensures
        entries(*final(m)) == if entries(*old(m)).contains_key(key@) {
            entries(*old(m))
        } else {
            entries(*old(m)).insert(key@, value)
        },
{
    m.entry(key).or_insert(value);
}

/// `serde_json::Map::clone`: a map that holds the same.
#[verifier::external_body]
pub(crate) fn map_clone(m: &serde_json::Map<String, serde_json::Value>) -> (r: serde_json::Map<String, serde_json::Value>)
    ensures
        entries(r) == entries(*m),
{
    m.clone()
}

/// `serde_json::Map::new`: a map that holds nothing.
#[verifier::external_body]
pub(crate) fn map_new() -> (r: serde_json::Map<String, serde_json::Value>)
    ensures
        entries(r) == no_entries(),
{
    serde_json::Map::new()
}

/// `serde_json::Value::as_i64`: the integer that the value holds, `None` where it holds none
/// that fits.
#[verifier::external_body]
pub(crate) fn value_as_i64(v: &serde_json::Value) -> (r: Option<i64>)
    ensures
        r == int_of(*v),
{
    v.as_i64()
}

/// `serde_json::Number::from` for an `i64`, as a value: reading the integer back gives the one
/// that was put in.
#[verifier::external_body]
pub(crate) fn value_from_i64(n: i64) -> (r: serde_json::Value)
    ensures
        r == int_value(n),
        int_of(r) == Some(n),
{
    serde_json::Value::Number(serde_json::Number::from(n))
}

/// `serde_json::Value::as_object`: the map of an object, `None` for any other value.
#[verifier::external_body]
pub(crate) fn value_as_object(v: &serde_json::Value) -> (r: Option<&serde_json::Map<String, serde_json::Value>>)
    ensures
        r is Some <==> object_entries(*v) is Some,
        r is Some ==> object_entries(*v) == Some(entries(*r->0)),
{
    v.as_object()
}

/// `serde_json::Value::as_object_mut`: access to the map of an object. What the map holds when
/// the access ends is what the object then holds; any other value stays as it is.
#[verifier::external_body]
pub(crate) fn value_as_object_mut(v: &mut serde_json::Value) -> (r: Option<&mut serde_json::Map<String, serde_json::Value>>)
    ensures
        r is Some <==> object_entries(*old(v)) is Some,
        r is Some ==> object_entries(*old(v)) == Some(entries(*r->0)),
        r is Some ==> *final(v) == object_value(entries(*final(r->0))),
        r is Some ==> object_entries(*final(v)) == Some(entries(*final(r->0))),
        r is None ==> *final(v) == *old(v),
{
    v.as_object_mut()
}

/// `serde_json::Value::Object`: the object that holds what the map holds.
#[verifier::external_body]
pub(crate) fn value_from_map(m: serde_json::Map<String, serde_json::Value>) -> (r: serde_json::Value)
    ensures
        r == object_value(entries(m)),
        object_entries(r) == Some(entries(m)),
{
    serde_json::Value::Object(m)
}

/// `serde_json::from_str` for a `Value`: fails exactly on the texts that denote no value.
#[verifier::external_body]
pub(crate) fn parse(text: &str) -> (r: Result<serde_json::Value, serde_json::Error>)
    ensures
        r is Ok <==> parsed(text@) is Some,
        r is Ok ==> parsed(text@) == Some(r->Ok_0),
{
    serde_json::from_str(text)
}

/// Whether a value comes back unaltered when it is written and read again. All values do but for
/// some that hold floating-point numbers or are nested too deep to be read.
pub open spec fn keeps(v: serde_json::Value) -> bool {
    parsed(pretty(v)) == Some(v)
}

/// Whether the entries `read` are what comes back of the entries `written`: the same keys, under
/// each the value that comes back of the one written, and so the same integer, or none.
pub open spec fn read_back(written: Map<Seq<char>, serde_json::Value>, read: Map<Seq<char>, serde_json::Value>) -> bool {
    &&& read.dom() == written.dom()
    &&& forall|k: Seq<char>| #[trigger]
        written.contains_key(k) ==> {
            &&& parsed(pretty(written[k])) == Some(read[k])
            &&& int_of(read[k]) == int_of(written[k])
            &&& int_of(written[k]) is Some ==> read[k] == written[k]
        }
}

/// Whether the value `read` is what comes back of the value `written`, as far as objects go.
pub open spec fn comes_back(written: serde_json::Value, read: serde_json::Value) -> bool {
    match (object_entries(written), object_entries(read)) {
        (Some(e), Some(f)) => read_back(e, f),
        (None, None) => true,
        _ => false,
    }
}

/// Whether the object that a text denotes holds the value under the key.
pub open spec fn text_holds(text: Seq<char>, key: Seq<char>, v: serde_json::Value) -> bool {
    parsed(text) matches Some(o) && object_entries(o) matches Some(e) && e.contains_key(key) && e[key] == v
}

/// Whether each entry is an integer, or a value that keeps and that some text holds in an object.
pub open spec fn are_legible(e: Map<Seq<char>, serde_json::Value>) -> bool {
    forall|k: Seq<char>| #[trigger]
        e.contains_key(k) ==> int_of(e[k]) is Some || keeps(e[k]) && exists|text: Seq<char>, key: Seq<char>| #[trigger]
            text_holds(text, key, e[k])
}

/// Whether a value is an object of such entries.
pub open spec fn is_legible(v: serde_json::Value) -> bool {
    object_entries(v) matches Some(e) && are_legible(e)
}

/// `serde_json::to_string_pretty` for a `Value`, which never fails. Where `serde_json` reads the
/// text of an object again, it finds the same keys, and under each key what it finds when the
/// value there is written and read by itself; integers come back unaltered. It does read the
/// text again where each entry keeps, and was read in an object before, so that it is not nested
/// too deep. Of a floating-point number it may find a neighbour, so nothing more is claimed.
#[verifier::external_body]
pub(crate) fn write_pretty(v: &serde_json::Value) -> (r: Result<String, serde_json::Error>)
    ensures
        r is Ok,
        r is Ok ==> r->Ok_0@ == pretty(*v),
        r is Ok && parsed(r->Ok_0@) is Some ==> comes_back(*v, parsed(r->Ok_0@)->0),
        r is Ok && is_legible(*v) ==> parsed(r->Ok_0@) is Some,
{
    serde_json::to_string_pretty(v)
}

} // verus!

//! JSON values: the tree the requests, responses and settings files are made of, and
//! the calls into `serde_json` that read and write it as text.

use vstd::prelude::*;

use crate::comments::has_no_comment;

verus! {

/// A number of `serde_json`, carried as it is.
#[verifier::external_type_specification]
#[verifier::external_body]
pub struct ExNumber(serde_json::Number);

/// A value of `serde_json`.
#[verifier::external_type_specification]
#[verifier::external_body]
pub struct ExValue(serde_json::Value);

/// The error of `serde_json`.
#[verifier::external_type_specification]
#[verifier::external_body]
pub struct ExJsonError(serde_json::Error);

/// `Number::clone` hands back the same number.
pub assume_specification[ <serde_json::Number as Clone>::clone ](n: &serde_json::Number) -> (r:
    serde_json::Number)
    ensures
        r == *n,
;

/// A JSON value. Where a key occurs twice in an object, the later entry counts.
#[derive(Debug, PartialEq)]
pub enum Json {
    Null,
    Bool(bool),
    Number(serde_json::Number),
    Text(String),
    Array(Vec<Json>),
    Object(Vec<(String, Json)>),
}

/// What a JSON value is: the order of the entries of an object does not count.
#[verifier::ext_equal]
pub enum JsonView {
    Null,
    Bool(bool),
    Number(serde_json::Number),
    Text(Seq<char>),
    Array(Seq<JsonView>),
    Object(Map<Seq<char>, JsonView>),
}

/// The values of a list.
pub open spec fn array_view(s: Seq<Json>) -> Seq<JsonView>
    decreases s,
{
    if s.len() == 0 {
        Seq::empty()
    } else {
        proof {
            vstd::seq::axiom_seq_len_decreases(s, s.drop_last());
        }
        array_view(s.drop_last()).push(s[s.len() - 1].view())
    }
}

/// The mapping that a list of entries stands for: a later entry replaces an earlier
/// one of the same key.
pub open spec fn object_view(s: Seq<(String, Json)>) -> Map<Seq<char>, JsonView>
    decreases s,
{
    if s.len() == 0 {
        Map::empty()
    } else {
        proof {
            vstd::seq::axiom_seq_len_decreases(s, s.drop_last());
            assert(decreases_to!(s => s[s.len() - 1]));
            assert(decreases_to!(s[s.len() - 1] => s[s.len() - 1].1));
        }
        object_view(s.drop_last()).insert(s[s.len() - 1].0@, s[s.len() - 1].1.view())
    }
}

impl Json {
    /// What this value is.
    pub open spec fn view(&self) -> JsonView
        decreases self,
    {
        match *self {
            Json::Null => JsonView::Null,
            Json::Bool(b) => JsonView::Bool(b),
            Json::Number(n) => JsonView::Number(n),
            Json::Text(t) => JsonView::Text(t@),
            Json::Array(a) => JsonView::Array(array_view(a@)),
            Json::Object(o) => JsonView::Object(object_view(o@)),
        }
    }
}


/// The `u64` that a number is, where it is one.
pub uninterp spec fn number_u64(n: serde_json::Number) -> Option<u64>;

/// The number that a `u64` is.
pub uninterp spec fn uint_number(n: u64) -> serde_json::Number;

/// `Number::from` on a `u64`, which `uint_number` names; `as_u64` gives the `u64` back.
#[verifier::external_body]
fn number_from(n: u64) -> (r: serde_json::Number)
    ensures
        r == uint_number(n),
        number_u64(r) == Some(n),
{
    serde_json::Number::from(n)
}

/// `Number::as_u64`: the number where it is an integer from 0 to `u64::MAX`.
#[verifier::external_body]
fn number_as_u64(n: &serde_json::Number) -> (r: Option<u64>)
    ensures
        r == number_u64(*n),
{
    n.as_u64()
}

/// What a value of `serde_json` is, as a tree.
pub uninterp spec fn value_view(v: serde_json::Value) -> JsonView;

/// The value that a JSON text stands for, where it is one.
pub uninterp spec fn parsed_json(text: Seq<char>) -> Option<JsonView>;

/// The JSON text of a value, without white space between its tokens.
pub uninterp spec fn compact_json(v: JsonView) -> Seq<char>;

/// The JSON text of a value, one entry or element to a line, indented by two spaces a
/// level.
pub uninterp spec fn pretty_json(v: JsonView) -> Seq<char>;

/// `serde_json::from_str`, asked for a `Value`: whether `text` is JSON and, where it is,
/// the value, are a function of `text`, which `parsed_json` names.
#[verifier::external_body]
fn parse_value(text: &str) -> (r: Result<serde_json::Value, serde_json::Error>)
    ensures
        match r {
            Ok(v) => parsed_json(text@) == Some(value_view(v)),
            Err(_) => parsed_json(text@) is None,
        },
{
    serde_json::from_str::<serde_json::Value>(text)
}

/// A `serde_json::Value` as a `Json`, variant for variant.
#[verifier::external_body]
fn from_value(v: &serde_json::Value) -> (r: Json)
    ensures
        r@ == value_view(*v),
{
    match v {
        serde_json::Value::Null => Json::Null,
        serde_json::Value::Bool(b) => Json::Bool(*b),
        serde_json::Value::Number(n) => Json::Number(n.clone()),
        serde_json::Value::String(t) => Json::Text(t.clone()),
        serde_json::Value::Array(a) => Json::Array(a.iter().map(from_value).collect()),
        serde_json::Value::Object(o) => {
            Json::Object(o.iter().map(|e| (e.0.clone(), from_value(e.1))).collect())
        },
    }
}

/// A `Json` as a `serde_json::Value`, variant for variant.
#[verifier::external_body]
fn to_value(j: &Json) -> (r: serde_json::Value)
    ensures
        value_view(r) == j@,
{
    match j {
        Json::Null => serde_json::Value::Null,
        Json::Bool(b) => serde_json::Value::Bool(*b),
        Json::Number(n) => serde_json::Value::Number(n.clone()),
        Json::Text(t) => serde_json::Value::String(t.clone()),
        Json::Array(a) => serde_json::Value::Array(a.iter().map(to_value).collect()),
        Json::Object(o) => {
            serde_json::Value::Object(o.iter().map(|e| (e.0.clone(), to_value(&e.1))).collect())
        },
    }
}

/// Whether a value is made of objects and lists, at most `depth` in each other, texts, truth
/// values, `null` and numbers that fit in a `u64`.
pub open spec fn is_plain(v: JsonView, depth: nat) -> bool
    decreases depth,
{
    match v {
        JsonView::Null | JsonView::Bool(_) | JsonView::Text(_) => true,
        JsonView::Number(n) => number_u64(n) is Some,
        JsonView::Array(a) => depth > 0 && forall|i: int|
            0 <= i < a.len() ==> is_plain(#[trigger] a[i], (depth - 1) as nat),
        JsonView::Object(m) => depth > 0 && forall|k: Seq<char>|
            m.contains_key(k) ==> is_plain(#[trigger] m[k], (depth - 1) as nat),
    }
}

/// How deep the values are that are read back as they were written.
pub const PLAIN_DEPTH: usize = 100;

/// `Value::to_string`: the compact text, which `compact_json` names.
#[verifier::external_body]
fn value_text(v: &serde_json::Value) -> (r: String)
    ensures
        r@ == compact_json(value_view(*v)),
{
    v.to_string()
}

/// `serde_json::to_string_pretty` on a `Value`: the indented text, which `pretty_json`
/// names. Writing a `Value` to a string does not fail. `from_str` reads the same value from
/// the text, where no number in it is a fraction or below zero and nothing is nested too
/// deeply to be read; of other values that is left unsaid. Outside of its strings the text
/// has no slash, so it has no comment.
#[verifier::external_body]
fn value_pretty_text(v: &serde_json::Value) -> (r: String)
    ensures
        r@ == pretty_json(value_view(*v)),
        is_plain(value_view(*v), PLAIN_DEPTH as nat) ==> parsed_json(r@) == Some(value_view(*v)),
        has_no_comment(r@),
{
    serde_json::to_string_pretty(v).unwrap_or_default()
}

/// The value that a JSON text stands for.
pub fn parse_json(text: &str) -> (r: Option<Json>)
    ensures
        match r {
            Some(j) => parsed_json(text@) == Some(j@),
            None => parsed_json(text@) is None,
        },
{
    match parse_value(text) {
        Ok(v) => Some(from_value(&v)),
        Err(_) => None,
    }
}

/// The compact text of a value.
pub fn json_text(j: &Json) -> (r: String)
    ensures
        r@ == compact_json(j@),
{
    let v = to_value(j);
    value_text(&v)
}

/// The indented text of a value. A plain value is read back from it.
pub fn json_pretty_text(j: &Json) -> (r: String)
    ensures
        r@ == pretty_json(j@),
        is_plain(j@, PLAIN_DEPTH as nat) ==> parsed_json(r@) == Some(j@),
        has_no_comment(r@),
{
    let v = to_value(j);
    value_pretty_text(&v)
}

impl Clone for Json {
    fn clone(&self) -> (r: Self)
        ensures
            r@ == self@,
        decreases self,
    {
        match self {
            Json::Null => Json::Null,
            Json::Bool(b) => Json::Bool(*b),
            Json::Number(n) => Json::Number(n.clone()),
            Json::Text(t) => Json::Text(t.clone()),
            Json::Array(a) => {
                let mut out: Vec<Json> = Vec::new();
                let mut i: usize = 0;
                assert(array_view(a@.take(0)) =~= array_view(out@));
                while i < a.len()
                    invariant
                        i <= a@.len(),
                        decreases_to!(self => a@),
                        array_view(out@) == array_view(a@.take(i as int)),
                    decreases a@.len() - i,
                {
                    assert(decreases_to!(a@ => a@[i as int]));
                    let e = a[i].clone();
                    let ghost before = out@;
                    out.push(e);
                    i = i + 1;
                    assert(out@.drop_last() =~= before);
                    assert(a@.take(i as int).drop_last() =~= a@.take(i - 1));
                }
                assert(a@.take(a@.len() as int) =~= a@);
                Json::Array(out)
            },
            Json::Object(o) => {
                let mut out: Vec<(String, Json)> = Vec::new();
                let mut i: usize = 0;
                assert(object_view(o@.take(0)) =~= object_view(out@));
                while i < o.len()
                    invariant
                        i <= o@.len(),
                        decreases_to!(self => o@),
                        object_view(out@) == object_view(o@.take(i as int)),
                    decreases o@.len() - i,
                {
                    assert(decreases_to!(o@ => o@[i as int]));
                    assert(decreases_to!(o@[i as int] => o@[i as int].1));
                    let k = o[i].0.clone();
                    let e = o[i].1.clone();
                    let ghost before = out@;
                    out.push((k, e));
                    i = i + 1;
                    assert(out@.drop_last() =~= before);
                    assert(o@.take(i as int).drop_last() =~= o@.take(i - 1));
                }
                assert(o@.take(o@.len() as int) =~= o@);
                Json::Object(out)
            },
        }
    }
}


/// The JSON number `n`.
pub open spec fn uint(n: u64) -> JsonView {
    JsonView::Number(uint_number(n))
}

/// The JSON number `n`.
pub fn json_uint(n: u64) -> (r: Json)
    ensures
        r@ == uint(n),
{
    Json::Number(number_from(n))
}

/// The JSON string `t`.
pub fn json_str(t: &str) -> (r: Json)
    ensures
        r@ == JsonView::Text(t@),
{
    Json::Text(t.to_owned())
}

/// An object without entries.
pub fn json_object() -> (r: Json)
    ensures
        r@ == JsonView::Object(Map::empty()),
{
    let r = Json::Object(Vec::new());
    assert(r@ == JsonView::Object(Map::empty()));
    r
}

/// `v` where it is an object, an object without entries where it is not.
pub open spec fn as_object(v: JsonView) -> Map<Seq<char>, JsonView> {
    match v {
        JsonView::Object(m) => m,
        _ => Map::empty(),
    }
}

/// An object with the entry `key: value`, in place of any earlier entry of that key.
pub fn with(object: Json, key: &str, value: Json) -> (r: Json)
    ensures
        r@ == JsonView::Object(as_object(object@).insert(key@, value@)),
{
    let ghost earlier = as_object(object@);
    let mut entries = match object {
        Json::Object(o) => o,
        _ => Vec::new(),
    };
    let ghost before = entries@;
    assert(object_view(before) =~= earlier);
    let ghost added = value@;
    entries.push((key.to_owned(), value));
    assert(entries@.drop_last() =~= before);
    assert(object_view(entries@) =~= earlier.insert(key@, added));
    Json::Object(entries)
}

/// The entry of `key` in an object.
pub open spec fn entry(v: JsonView, key: Seq<char>) -> Option<JsonView> {
    match v {
        JsonView::Object(m) => if m.contains_key(key) {
            Some(m[key])
        } else {
            None
        },
        _ => None,
    }
}

impl Json {
    /// The entry of `key`, where this is an object that has one.
    pub fn get(&self, key: &str) -> (r: Option<&Json>)
        ensures
            match r {
                Some(j) => entry(self@, key@) == Some(j@),
                None => entry(self@, key@) is None,
            },
    {
        match self {
            Json::Object(o) => {
                let mut i: usize = o.len();
                assert(o@.take(o@.len() as int) =~= o@);
                while i > 0
                    invariant
                        i <= o@.len(),
                        object_view(o@).contains_key(key@) == object_view(
                            o@.take(i as int),
                        ).contains_key(key@),
                        object_view(o@).contains_key(key@) ==> object_view(o@)[key@]
                            == object_view(o@.take(i as int))[key@],
                        self@ == JsonView::Object(object_view(o@)),
                    decreases i,
                {
                    assert(o@.take(i as int).drop_last() =~= o@.take(i - 1));
                    i = i - 1;
                    if crate::text::same(&o[i].0, key) {
                        return Some(&o[i].1);
                    }
                }
                None
            },
            _ => None,
        }
    }

    /// The text, where this is a string.
    pub fn as_str(&self) -> (r: Option<&str>)
        ensures
            match r {
                Some(t) => self@ == JsonView::Text(t@),
                None => !(self@ is Text),
            },
    {
        match self {
            Json::Text(t) => Some(t.as_str()),
            _ => None,
        }
    }

    /// The number, where this is one that a `u64` holds.
    pub fn as_u64(&self) -> (r: Option<u64>)
        ensures
            r == (match self@ {
                JsonView::Number(n) => number_u64(n),
                _ => None,
            }),
    {
        match self {
            Json::Number(n) => number_as_u64(n),
            _ => None,
        }
    }

    /// The elements, where this is a list.
    pub fn as_array(&self) -> (r: Option<&Vec<Json>>)
        ensures
            match r {
                Some(a) => self@ == JsonView::Array(array_view(a@)),
                None => !(self@ is Array),
            },
    {
        match self {
            Json::Array(a) => Some(a),
            _ => None,
        }
    }
}

/// `array_view` takes the values one by one.
pub proof fn lemma_array_view(s: Seq<Json>)
    ensures
        array_view(s).len() == s.len(),
        forall|i: int| 0 <= i < s.len() ==> #[trigger] array_view(s)[i] == s[i]@,
    decreases s.len(),
{
    if s.len() > 0 {
        lemma_array_view(s.drop_last());
        assert forall|i: int| 0 <= i < s.len() implies #[trigger] array_view(s)[i] == s[i]@ by {
            if i < s.len() - 1 {
                assert(array_view(s)[i] == array_view(s.drop_last())[i]);
                assert(s.drop_last()[i] == s[i]);
            }
        }
    }
}

} // verus!

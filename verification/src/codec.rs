//! Reading JSON from bytes and writing it to bytes, which `serde_json` does.

use crate::json::{
    entries_map, entry_trees, is_plain, number_text, trees, Json, JsonObject, JsonTree,
};
use crate::text::{text_eq, utf8_text};
use crate::tokens::{between_tokens, is_bare};
use serde_json::{Number, Value};
use vstd::prelude::*;
use vstd::string::*;
use vstd::utf8::*;

verus! {

/// The value type of `serde_json`.
#[verifier::external_type_specification]
#[verifier::external_body]
pub struct ExValue(Value);

/// The error type of `serde_json`: where a text is not JSON, and why.
#[verifier::external_type_specification]
#[verifier::external_body]
pub struct ExError(serde_json::Error);

/// What a `serde_json::Value` holds.
pub uninterp spec fn value_tree(v: Value) -> JsonTree;

/// The value that `serde_json::from_slice` reads from bytes, or `None` where it fails.
pub uninterp spec fn json_parse(bytes: Seq<u8>) -> Option<JsonTree>;

/// The text that `serde_json::to_vec` writes for a value.
pub uninterp spec fn json_text(t: JsonTree) -> Seq<char>;

/// How deep `serde_json::from_slice` lets arrays and objects nest.
pub open spec fn max_depth() -> nat {
    127
}

/// Whether a line feed that is put between two tokens of a text leaves it a JSON text that
/// reads as `t`.
pub open spec fn line_feeds_mean_nothing(text: Seq<char>, t: JsonTree) -> bool {
    forall|a: Seq<char>, b: Seq<char>|
        a + b == text && between_tokens(a, b) ==> #[trigger] json_parse(
            encode_utf8(a + (seq!['\n'] + b)),
        ) == Some(t)
}

/// `serde_json::from_slice`: whether it succeeds, and what the value then holds, is a
/// function of the bytes. It reads JSON and nothing else: it fails on a `/` that stands
/// outside string literals, and on a comma before a closing bracket. It skips white space
/// between any two tokens, so a line feed there changes nothing.
#[verifier::external_body]
fn value_from_slice(bytes: &[u8]) -> (r: Result<Value, serde_json::Error>)
    ensures
        match r {
            Ok(v) => {
                &&& json_parse(bytes@) == Some(value_tree(v))
                &&& is_bare(decode_utf8(bytes@))
                &&& line_feeds_mean_nothing(decode_utf8(bytes@), value_tree(v))
            },
            Err(_) => json_parse(bytes@) is None,
        },
{
    serde_json::from_slice(bytes)
}

/// `serde_json::to_vec` on a `Value`, for which it has no way to fail: the text that it
/// writes is a function of what the value holds, and `from_slice` reads the same value back
/// from it where the nesting stays within what it accepts and all numbers are integers.
#[verifier::external_body]
fn value_to_vec(v: &Value) -> (r: Vec<u8>)
    ensures
        r@ == encode_utf8(json_text(value_tree(*v))),
        is_plain(value_tree(*v), max_depth()) ==> json_parse(r@) == Some(value_tree(*v)),
{
    serde_json::to_vec(v).expect("a JSON value has only string keys")
}

/// A `serde_json::Value` with its outermost layer taken off.
enum Layer {
    Null,
    Bool(bool),
    Number(Number),
    Str(String),
    Array(Vec<Value>),
    Object(Vec<(String, Value)>),
}

/// What a row of values holds.
spec fn value_trees(s: Seq<Value>) -> Seq<JsonTree> {
    Seq::new(s.len(), |i: int| value_tree(s[i]))
}

/// What a row of entries holds.
spec fn value_entries(s: Seq<(String, Value)>) -> Seq<(Seq<char>, JsonTree)> {
    Seq::new(s.len(), |i: int| (s[i].0@, value_tree(s[i].1)))
}

/// Whether no key occurs twice in a row of entries.
spec fn distinct_keys(s: Seq<(Seq<char>, JsonTree)>) -> bool {
    forall|i: int, j: int| 0 <= i < j < s.len() ==> (#[trigger] s[i]).0 != (#[trigger] s[j]).0
}

impl Layer {
    /// The value that the layer is the outside of.
    spec fn tree(self) -> JsonTree {
        match self {
            Layer::Null => JsonTree::Null,
            Layer::Bool(b) => JsonTree::Bool(b),
            Layer::Number(n) => JsonTree::Number(number_text(n)),
            Layer::Str(s) => JsonTree::Str(s@),
            Layer::Array(a) => JsonTree::Array(value_trees(a@)),
            Layer::Object(o) => JsonTree::Object(entries_map(value_entries(o@))),
        }
    }
}

/// The variants of `serde_json::Value`, told apart; the entries of an object come from the
/// `into_iter` of `serde_json::Map`, which gives each key once.
#[verifier::external_body]
fn take_apart(v: Value) -> (r: Layer)
    ensures
        r.tree() == value_tree(v),
        match r {
            Layer::Object(o) => distinct_keys(value_entries(o@)),
            _ => true,
        },
{
    match v {
        Value::Null => Layer::Null,
        Value::Bool(b) => Layer::Bool(b),
        Value::Number(n) => Layer::Number(n),
        Value::String(s) => Layer::Str(s),
        Value::Array(a) => Layer::Array(a),
        Value::Object(o) => Layer::Object(o.into_iter().collect()),
    }
}

/// The variants of `serde_json::Value`, built; an object comes from the `from_iter` of
/// `serde_json::Map`, which takes up all entries where no key occurs twice.
#[verifier::external_body]
fn put_together(l: Layer) -> (r: Value)
    requires
        match l {
            Layer::Object(o) => distinct_keys(value_entries(o@)),
            _ => true,
        },
    ensures
        value_tree(r) == l.tree(),
{
    match l {
        Layer::Null => Value::Null,
        Layer::Bool(b) => Value::Bool(b),
        Layer::Number(n) => Value::Number(n),
        Layer::Str(s) => Value::String(s),
        Layer::Array(a) => Value::Array(a),
        Layer::Object(o) => Value::Object(o.into_iter().collect()),
    }
}

/// A row of entries stands for finitely many members.
proof fn lemma_entries_finite(s: Seq<(Seq<char>, JsonTree)>)
    ensures
        entries_map(s).dom().finite(),
    decreases s.len(),
{
    if s.len() > 0 {
        lemma_entries_finite(s.drop_last());
        assert(entries_map(s).dom() =~= entries_map(s.drop_last()).dom().insert(s.last().0));
    } else {
        assert(entries_map(s).dom() =~= Set::empty());
    }
}

/// With distinct keys every entry is a member.
proof fn lemma_distinct_entries(s: Seq<(Seq<char>, JsonTree)>, i: int)
    requires
        distinct_keys(s),
        0 <= i < s.len(),
    ensures
        entries_map(s).contains_key(s[i].0),
        entries_map(s)[s[i].0] == s[i].1,
    decreases s.len(),
{
    if i < s.len() - 1 {
        lemma_distinct_entries(s.drop_last(), i);
        assert(s.drop_last()[i] == s[i]);
    }
}

/// With distinct keys an entry is replaced by setting it where it stands.
proof fn lemma_replaced_entry(s: Seq<(Seq<char>, JsonTree)>, i: int, value: JsonTree)
    requires
        distinct_keys(s),
        0 <= i < s.len(),
    ensures
        distinct_keys(s.update(i, (s[i].0, value))),
        entries_map(s.update(i, (s[i].0, value))) == entries_map(s).insert(s[i].0, value),
    decreases s.len(),
{
    let t = s.update(i, (s[i].0, value));
    let before = s.drop_last();
    if i == s.len() - 1 {
        assert(t.drop_last() =~= before);
    } else {
        lemma_replaced_entry(before, i, value);
        assert(before[i] == s[i]);
        assert(t.drop_last() =~= before.update(i, (s[i].0, value)));
        assert(t.last() == s.last());
        assert(s.last().0 != s[i].0);
    }
    assert(entries_map(t) =~= entries_map(s).insert(s[i].0, value));
}

/// Sets an entry: in the place of the one with its key, or else behind the others.
fn set_entry(entries: &mut Vec<(String, Value)>, key: String, value: Value)
    requires
        distinct_keys(value_entries(old(entries)@)),
    ensures
        distinct_keys(value_entries(final(entries)@)),
        entries_map(value_entries(final(entries)@)) == entries_map(
            value_entries(old(entries)@),
        ).insert(key@, value_tree(value)),
{
    let ghost before = value_entries(entries@);
    let mut i: usize = 0;
    while i < entries.len()
        invariant
            i <= entries@.len(),
            entries@ == old(entries)@,
            before == value_entries(entries@),
            distinct_keys(before),
            forall|j: int| 0 <= j < i ==> (#[trigger] before[j]).0 != key@,
        decreases entries@.len() - i,
    {
        if text_eq(entries[i].0.as_str(), key.as_str()) {
            proof {
                lemma_replaced_entry(before, i as int, value_tree(value));
            }
            let ghost entry = (before[i as int].0, value_tree(value));
            entries.set(i, (key, value));
            assert(value_entries(entries@) =~= before.update(i as int, entry));
            return;
        }
        assert(before[i as int].0 != key@);
        i += 1;
    }
    let ghost entry = (key@, value_tree(value));
    entries.push((key, value));
    assert(value_entries(entries@) =~= before.push(entry));
    assert(before.push(entry).drop_last() =~= before);
}

/// The library's form of a value of `serde_json`.
pub fn from_value(v: Value) -> (r: Json)
    ensures
        r@ == value_tree(v),
    decreases value_tree(v),
{
    let ghost tree = value_tree(v);
    match take_apart(v) {
        Layer::Null => Json::Null,
        Layer::Bool(b) => Json::Bool(b),
        Layer::Number(n) => Json::Number(n),
        Layer::Str(s) => Json::Str(s),
        Layer::Array(a) => {
            let mut out: Vec<Json> = Vec::new();
            for item in it: a.into_iter()
                invariant
                    it.seq() == a@,
                    tree == value_tree(v),
                    tree == JsonTree::Array(value_trees(a@)),
                    out@.len() == it.index(),
                    forall|j: int| 0 <= j < it.index() ==> (#[trigger] out@[j])@ == value_tree(a@[j]),
            {
                assert(decreases_to!(tree => tree->Array_0));
                assert(decreases_to!(tree->Array_0 => tree->Array_0[it.index()]));
                out.push(from_value(item));
            }
            assert(trees(out@) =~= value_trees(a@));
            Json::array(out)
        },
        Layer::Object(o) => {
            let mut out: Vec<(String, Json)> = Vec::new();
            for entry in it: o.into_iter()
                invariant
                    it.seq() == o@,
                    tree == value_tree(v),
                    tree == JsonTree::Object(entries_map(value_entries(o@))),
                    distinct_keys(value_entries(o@)),
                    out@.len() == it.index(),
                    forall|j: int|
                        0 <= j < it.index() ==> (#[trigger] out@[j]).0@ == o@[j].0@ && out@[j].1@
                            == value_tree(o@[j].1),
            {
                let (key, item): (String, Value) = entry;
                proof {
                    lemma_distinct_entries(value_entries(o@), it.index());
                    lemma_entries_finite(value_entries(o@));
                    assert(decreases_to!(tree => tree->Object_0));
                    assert(decreases_to!(tree->Object_0 => tree->Object_0[key@]));
                }
                out.push((key, from_value(item)));
            }
            let object: JsonObject = JsonObject { entries: out };
            proof {
                object.lemma_members();
                assert(entry_trees(out@) =~= value_entries(o@));
            }
            Json::Object(object)
        },
    }
}

/// The form that `serde_json` has of a value.
pub fn into_value(j: Json) -> (r: Value)
    ensures
        value_tree(r) == j@,
    decreases j,
{
    match j {
        Json::Null => put_together(Layer::Null),
        Json::Bool(b) => put_together(Layer::Bool(b)),
        Json::Number(n) => put_together(Layer::Number(n)),
        Json::Str(s) => put_together(Layer::Str(s)),
        Json::Array(a) => {
            let mut out: Vec<Value> = Vec::new();
            for item in it: a.into_iter()
                invariant
                    it.seq() == a@,
                    decreases_to!(j => a@),
                    out@.len() == it.index(),
                    forall|i: int| 0 <= i < it.index() ==> value_tree(#[trigger] out@[i]) == a@[i]@,
            {
                assert(item == a@[it.index()]);
                out.push(into_value(item));
            }
            proof {
                assert(value_trees(out@) =~= trees(a@));
                Json::lemma_array(a);
            }
            put_together(Layer::Array(out))
        },
        Json::Object(object) => {
            let entries: Vec<(String, Json)> = object.entries;
            let mut out: Vec<(String, Value)> = Vec::new();
            for entry in it: entries.into_iter()
                invariant
                    it.seq() == entries@,
                    decreases_to!(j => entries@),
                    distinct_keys(value_entries(out@)),
                    entries_map(value_entries(out@)) == entries_map(
                        entry_trees(entries@).take(it.index()),
                    ),
            {
                let ghost k = it.index();
                assert(entry == entries@[k]);
                let (key, item): (String, Json) = entry;
                set_entry(&mut out, key, into_value(item));
                assert(entry_trees(entries@).take(k + 1).drop_last() =~= entry_trees(
                    entries@,
                ).take(k));
            }
            proof {
                object.lemma_members();
                assert(entry_trees(entries@).take(entries@.len() as int) =~= entry_trees(
                    entries@,
                ));
            }
            put_together(Layer::Object(out))
        },
    }
}

/// Bytes that are not JSON.
#[derive(Debug)]
pub struct JsonError {
    /// What `serde_json` says of them.
    pub reason: serde_json::Error,
}

/// Reads a JSON value from bytes.
pub fn from_bytes(bytes: &[u8]) -> (r: Result<Json, JsonError>)
    ensures
        match r {
            Ok(j) => {
                &&& json_parse(bytes@) == Some(j@)
                &&& is_bare(decode_utf8(bytes@))
                &&& line_feeds_mean_nothing(decode_utf8(bytes@), j@)
            },
            Err(_) => json_parse(bytes@) is None,
        },
{
    match value_from_slice(bytes) {
        Ok(v) => Ok(from_value(v)),
        Err(reason) => Err(JsonError { reason }),
    }
}

/// The bytes of the text that stands for a value.
pub open spec fn json_bytes(t: JsonTree) -> Seq<u8> {
    encode_utf8(json_text(t))
}

/// Writes a JSON value to bytes.
pub fn to_bytes(j: Json) -> (r: Vec<u8>)
    ensures
        r@ == json_bytes(j@),
        is_plain(j@, max_depth()) ==> json_parse(r@) == Some(j@),
{
    value_to_vec(&into_value(j))
}

/// Writes a JSON value to text.
pub fn to_text(j: Json) -> (r: String)
    ensures
        r@ == json_text(j@),
{
    let ghost text = json_text(j@);
    let bytes: Vec<u8> = to_bytes(j);
    proof {
        encode_utf8_valid_utf8(text);
        encode_utf8_decode_utf8(text);
    }
    match utf8_text(bytes.as_slice()) {
        Some(s) => s.to_owned(),
        None => String::new(),
    }
}

/// The bytes of a value are those of its text in UTF-8.
pub proof fn law_bytes_are_those_of_the_text(t: JsonTree)
    ensures
        json_bytes(t) == encode_utf8(json_text(t)),
        valid_utf8(json_bytes(t)),
        decode_utf8(json_bytes(t)) == json_text(t),
        max_depth() == 127,
{
    encode_utf8_valid_utf8(json_text(t));
    encode_utf8_decode_utf8(json_text(t));
}

} // verus!

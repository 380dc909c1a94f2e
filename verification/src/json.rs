//! JSON values: what they are, and how they are read and built.

use crate::text::{decimal, is_digit, is_numeral, lemma_decimal, text_eq};
use serde_json::Number;
use vstd::prelude::*;

verus! {

/// The number type of `serde_json`: an integer or a finite float. It is carried through
/// and never computed with.
#[verifier::external_type_specification]
#[verifier::external_body]
pub struct ExNumber(Number);

/// The text that `serde_json::Number`'s `Display` writes.
pub uninterp spec fn number_text(n: Number) -> Seq<char>;

/// `serde_json::Number`'s `Display`: the number's text, which is a function of the number.
#[verifier::external_body]
fn number_to_string(n: &Number) -> (r: String)
    ensures
        r@ == number_text(*n),
{
    n.to_string()
}

/// `serde_json::Number`'s `From<u64>`: the text of the number is the decimal numeral.
#[verifier::external_body]
fn number_from_u64(n: u64) -> (r: Number)
    ensures
        number_text(r) == decimal(n as nat),
{
    Number::from(n)
}

/// `serde_json::Number`'s `Clone`: the copy has the same text.
#[verifier::external_body]
fn number_clone(n: &Number) -> (r: Number)
    ensures
        number_text(r) == number_text(*n),
{
    n.clone()
}

/// A JSON value as mathematics. A number is the text that it is written with; an object is
/// a map, since the order of its members means nothing.
pub ghost enum JsonTree {
    Null,
    Bool(bool),
    Number(Seq<char>),
    Str(Seq<char>),
    Array(Seq<JsonTree>),
    Object(Map<Seq<char>, JsonTree>),
}

impl JsonTree {
    /// The member of an object, where this is an object that has it.
    pub open spec fn get(self, key: Seq<char>) -> Option<JsonTree> {
        match self {
            JsonTree::Object(m) => if m.contains_key(key) {
                Some(m[key])
            } else {
                None
            },
            _ => None,
        }
    }

    /// The text, where this is a string.
    pub open spec fn as_str(self) -> Option<Seq<char>> {
        match self {
            JsonTree::Str(s) => Some(s),
            _ => None,
        }
    }

    /// The elements, where this is an array.
    pub open spec fn as_array(self) -> Option<Seq<JsonTree>> {
        match self {
            JsonTree::Array(a) => Some(a),
            _ => None,
        }
    }

    /// The text of a member, where this is an object that has it and it is a string.
    pub open spec fn get_str(self, key: Seq<char>) -> Option<Seq<char>> {
        match self.get(key) {
            Some(t) => t.as_str(),
            None => None,
        }
    }
}

/// The object without members.
pub open spec fn no_members() -> Map<Seq<char>, JsonTree> {
    Map::empty()
}

/// The number of an unsigned integer.
pub open spec fn number_tree(n: nat) -> JsonTree {
    JsonTree::Number(decimal(n))
}

/// Whether a number's text is that of an integer: digits behind an optional `-`.
pub open spec fn is_integer_text(s: Seq<char>) -> bool {
    let digits = if s.len() > 0 && s[0] == '-' {
        s.skip(1)
    } else {
        s
    };
    is_numeral(digits)
}

/// Whether arrays and objects nest no deeper than `depth` in a value, and all its numbers
/// are integers.
pub open spec fn is_plain(t: JsonTree, depth: nat) -> bool
    decreases depth,
{
    match t {
        JsonTree::Number(s) => is_integer_text(s),
        JsonTree::Array(a) => depth > 0 && forall|i: int|
            0 <= i < a.len() ==> is_plain(#[trigger] a[i], (depth - 1) as nat),
        JsonTree::Object(m) => depth > 0 && forall|k: Seq<char>| #[trigger]
            m.contains_key(k) ==> is_plain(m[k], (depth - 1) as nat),
        _ => true,
    }
}

/// A plain value is plain where more nesting is allowed.
pub proof fn lemma_plain_deeper(t: JsonTree, depth: nat, deeper: nat)
    requires
        is_plain(t, depth),
        depth <= deeper,
    ensures
        is_plain(t, deeper),
    decreases depth,
{
    match t {
        JsonTree::Array(a) => {
            assert forall|i: int| 0 <= i < a.len() implies is_plain(
                #[trigger] a[i],
                (deeper - 1) as nat,
            ) by {
                lemma_plain_deeper(a[i], (depth - 1) as nat, (deeper - 1) as nat);
            }
        },
        JsonTree::Object(m) => {
            assert forall|k: Seq<char>| #[trigger] m.contains_key(k) implies is_plain(
                m[k],
                (deeper - 1) as nat,
            ) by {
                lemma_plain_deeper(m[k], (depth - 1) as nat, (deeper - 1) as nat);
            }
        },
        _ => {},
    }
}

/// A JSON value.
#[derive(Debug)]
pub enum Json {
    Null,
    Bool(bool),
    Number(Number),
    Str(String),
    Array(Vec<Json>),
    Object(JsonObject),
}

/// A JSON object: of two entries with one key the later one counts.
#[derive(Debug)]
pub struct JsonObject {
    pub entries: Vec<(String, Json)>,
}

/// The map that a row of entries stands for: of two entries with one key the later counts.
pub open spec fn entries_map(entries: Seq<(Seq<char>, JsonTree)>) -> Map<Seq<char>, JsonTree>
    decreases entries.len(),
{
    if entries.len() == 0 {
        Map::empty()
    } else {
        entries_map(entries.drop_last()).insert(entries.last().0, entries.last().1)
    }
}

/// The trees of a row of values.
pub open spec fn trees(s: Seq<Json>) -> Seq<JsonTree> {
    Seq::new(s.len(), |i: int| s[i]@)
}

/// The keys and trees of a row of entries.
pub open spec fn entry_trees(s: Seq<(String, Json)>) -> Seq<(Seq<char>, JsonTree)> {
    Seq::new(s.len(), |i: int| (s[i].0@, s[i].1@))
}

impl View for Json {
    type V = JsonTree;

    open spec fn view(&self) -> JsonTree {
        self.tree()
    }
}

impl View for JsonObject {
    type V = Map<Seq<char>, JsonTree>;

    open spec fn view(&self) -> Map<Seq<char>, JsonTree> {
        entries_map(self.pairs())
    }
}

impl Json {
    /// The value as mathematics.
    pub open spec fn tree(self) -> JsonTree
        decreases self,
    {
        match self {
            Json::Null => JsonTree::Null,
            Json::Bool(b) => JsonTree::Bool(b),
            Json::Number(n) => JsonTree::Number(number_text(n)),
            Json::Str(s) => JsonTree::Str(s@),
            Json::Array(a) => JsonTree::Array(
                Seq::new(
                    a@.len(),
                    |i: int|
                        if 0 <= i < a@.len() {
                            a@[i].tree()
                        } else {
                            JsonTree::Null
                        },
                ),
            ),
            Json::Object(o) => JsonTree::Object(entries_map(o.pairs())),
        }
    }

    /// The array of the given elements.
    pub proof fn lemma_array(a: Vec<Json>)
        ensures
            Json::Array(a)@ == JsonTree::Array(trees(a@)),
    {
        match Json::Array(a)@ {
            JsonTree::Array(s) => {
                assert(s =~= trees(a@));
            },
            _ => {},
        }
    }

    /// A string.
    pub fn string(s: &str) -> (r: Json)
        ensures
            r@ == JsonTree::Str(s@),
    {
        Json::Str(s.to_owned())
    }

    /// A number.
    pub fn number(n: u64) -> (r: Json)
        ensures
            r@ == number_tree(n as nat),
    {
        Json::Number(number_from_u64(n))
    }

    /// An array.
    pub fn array(a: Vec<Json>) -> (r: Json)
        ensures
            r@ == JsonTree::Array(trees(a@)),
    {
        proof {
            Json::lemma_array(a);
        }
        Json::Array(a)
    }

    /// An array without elements.
    pub fn empty_array() -> (r: Json)
        ensures
            r@ == JsonTree::Array(Seq::empty()),
    {
        let a: Vec<Json> = Vec::new();
        assert(trees(a@) =~= Seq::empty());
        Json::array(a)
    }

    /// The member of an object, where this is an object that has it.
    pub fn get(&self, key: &str) -> (r: Option<&Json>)
        ensures
            match r {
                Some(j) => self@.get(key@) == Some(j@),
                None => self@.get(key@) is None,
            },
    {
        match self {
            Json::Object(o) => o.get(key),
            _ => None,
        }
    }

    /// The text, where this is a string.
    pub fn as_str(&self) -> (r: Option<&str>)
        ensures
            match r {
                Some(s) => self@.as_str() == Some(s@),
                None => self@.as_str() is None,
            },
    {
        match self {
            Json::Str(s) => Some(s.as_str()),
            _ => None,
        }
    }

    /// The text of a member, where this is an object that has it and it is a string.
    pub fn get_str(&self, key: &str) -> (r: Option<&str>)
        ensures
            match r {
                Some(s) => self@.get_str(key@) == Some(s@),
                None => self@.get_str(key@) is None,
            },
    {
        match self.get(key) {
            Some(j) => j.as_str(),
            None => None,
        }
    }

    /// The elements, where this is an array.
    pub fn as_array(&self) -> (r: Option<&Vec<Json>>)
        ensures
            match r {
                Some(a) => self@.as_array() == Some(trees(a@)),
                None => self@.as_array() is None,
            },
    {
        match self {
            Json::Array(a) => {
                proof {
                    Json::lemma_array(*a);
                }
                Some(a)
            },
            _ => None,
        }
    }

    /// A copy of the value.
    pub fn copy(&self) -> (r: Json)
        ensures
            r@ == self@,
        decreases self,
    {
        match self {
            Json::Null => Json::Null,
            Json::Bool(b) => Json::Bool(*b),
            Json::Number(n) => Json::Number(number_clone(n)),
            Json::Str(s) => Json::Str(s.clone()),
            Json::Array(a) => {
                let mut out: Vec<Json> = Vec::new();
                let mut i: usize = 0;
                while i < a.len()
                    invariant
                        i <= a@.len(),
                        out@.len() == i,
                        forall|j: int| 0 <= j < i ==> (#[trigger] out@[j])@ == a@[j]@,
                        decreases_to!(*self => a),
                    decreases a@.len() - i,
                {
                    let item: Json = a[i].copy();
                    out.push(item);
                    i += 1;
                }
                proof {
                    assert(trees(out@) =~= trees(a@));
                    Json::lemma_array(*a);
                }
                Json::array(out)
            },
            Json::Object(o) => {
                let entries: &Vec<(String, Json)> = &o.entries;
                let mut out: Vec<(String, Json)> = Vec::new();
                let mut i: usize = 0;
                while i < entries.len()
                    invariant
                        i <= entries@.len(),
                        out@.len() == i,
                        forall|j: int|
                            0 <= j < i ==> (#[trigger] out@[j]).0@ == entries@[j].0@ && out@[j].1@
                                == entries@[j].1@,
                        decreases_to!(*self => entries),
                    decreases entries@.len() - i,
                {
                    let key: String = entries[i].0.clone();
                    let item: Json = entries[i].1.copy();
                    out.push((key, item));
                    i += 1;
                }
                let copied: JsonObject = JsonObject { entries: out };
                proof {
                    o.lemma_members();
                    copied.lemma_members();
                    assert(entry_trees(out@) =~= entry_trees(entries@));
                }
                Json::Object(copied)
            },
        }
    }
}

impl JsonObject {
    /// The keys and trees of the entries.
    pub open spec fn pairs(self) -> Seq<(Seq<char>, JsonTree)>
        decreases self,
    {
        Seq::new(
            self.entries@.len(),
            |i: int|
                if 0 <= i < self.entries@.len() {
                    (self.entries@[i].0@, self.entries@[i].1.tree())
                } else {
                    (Seq::empty(), JsonTree::Null)
                },
        )
    }

    /// The members are what the entries, in their order, stand for.
    pub proof fn lemma_members(self)
        ensures
            self@ == entries_map(entry_trees(self.entries@)),
    {
        assert(self.pairs() =~= entry_trees(self.entries@));
    }

    /// An object without members.
    pub fn new() -> (r: JsonObject)
        ensures
            r@ == no_members(),
    {
        JsonObject { entries: Vec::new() }
    }

    /// Sets a member.
    pub fn insert(&mut self, key: &str, value: Json)
        ensures
            final(self)@ == old(self)@.insert(key@, value@),
    {
        self.entries.push((key.to_owned(), value));
        proof {
            old(self).lemma_members();
            self.lemma_members();
            assert(entry_trees(self.entries@).drop_last() =~= entry_trees(old(self).entries@));
        }
    }

    /// The object with a member set.
    pub fn with(self, key: &str, value: Json) -> (r: JsonObject)
        ensures
            r@ == self@.insert(key@, value@),
    {
        let mut out: JsonObject = self;
        out.insert(key, value);
        out
    }

    /// The member with the given key.
    pub fn get(&self, key: &str) -> (r: Option<&Json>)
        ensures
            match r {
                Some(j) => self@.contains_key(key@) && self@[key@] == j@,
                None => !self@.contains_key(key@),
            },
    {
        proof {
            self.lemma_members();
        }
        let ghost all = entry_trees(self.entries@);
        let mut i: usize = self.entries.len();
        assert(all.take(i as int) =~= all);
        while i > 0
            invariant
                i <= self.entries@.len(),
                all == entry_trees(self.entries@),
                self@.contains_key(key@) == entries_map(all.take(i as int)).contains_key(key@),
                self@[key@] == entries_map(all.take(i as int))[key@],
            decreases i,
        {
            assert(all.take(i as int).drop_last() =~= all.take(i - 1));
            assert(all.take(i as int).last() == all[i - 1]);
            i -= 1;
            if text_eq(self.entries[i].0.as_str(), key) {
                return Some(&self.entries[i].1);
            }
        }
        None
    }

    /// Whether the object has no members.
    pub fn is_empty(&self) -> (r: bool)
        ensures
            r == (self@ == no_members()),
    {
        proof {
            self.lemma_members();
            if self.entries@.len() > 0 {
                assert(self@.contains_key(self.entries@.last().0@));
            }
        }
        self.entries.len() == 0
    }
}

/// The text that a JSON-RPC id is matched by: a string's own, or a number's.
pub open spec fn id_text(id: Option<JsonTree>) -> Option<Seq<char>> {
    match id {
        Some(JsonTree::Str(s)) => Some(s),
        Some(JsonTree::Number(s)) => Some(s),
        _ => None,
    }
}

/// The tree of a value that may be absent.
pub open spec fn tree_of(j: Option<&Json>) -> Option<JsonTree> {
    match j {
        Some(j) => Some(j@),
        None => None,
    }
}

/// The text that a JSON-RPC id is matched by: a string's own, or a number's.
pub fn json_id_to_string(id: Option<&Json>) -> (r: Option<String>)
    ensures
        match r {
            Some(s) => id_text(tree_of(id)) == Some(s@),
            None => id_text(tree_of(id)) is None,
        },
{
    match id {
        Some(Json::Str(s)) => Some(s.clone()),
        Some(Json::Number(n)) => Some(number_to_string(n)),
        _ => None,
    }
}

/// An object has the members of its map and no others.
pub proof fn law_objects_have_their_members(m: Map<Seq<char>, JsonTree>, key: Seq<char>)
    ensures
        m.contains_key(key) ==> JsonTree::Object(m).get(key) == Some(m[key]),
        !m.contains_key(key) ==> JsonTree::Object(m).get(key) is None,
{
}

/// Only objects have members, and only strings and arrays are read as what they are.
pub proof fn law_values_are_told_apart(t: JsonTree, key: Seq<char>)
    ensures
        t.get(key) is Some ==> t is Object,
        t is Str <==> t.as_str() is Some,
        t is Array <==> t.as_array() is Some,
        forall|s: Seq<char>| t == JsonTree::Str(s) <==> t.as_str() == Some(s),
        forall|a: Seq<JsonTree>| t == JsonTree::Array(a) <==> t.as_array() == Some(a),
        forall|s: Seq<char>|
            t.get_str(key) == Some(s) <==> t.get(key) == Some(JsonTree::Str(s)),
{
}

/// Of the entries of an object the last one with a key counts, and the others do as if it
/// were not there.
pub proof fn law_later_entries_count(
    entries: Seq<(Seq<char>, JsonTree)>,
    key: Seq<char>,
    value: JsonTree,
    other: Seq<char>,
)
    ensures
        entries_map(Seq::empty()) == Map::<Seq<char>, JsonTree>::empty(),
        entries_map(entries.push((key, value))).contains_key(key),
        entries_map(entries.push((key, value)))[key] == value,
        other != key ==> entries_map(entries.push((key, value))).contains_key(other)
            == entries_map(entries).contains_key(other),
        other != key ==> entries_map(entries.push((key, value)))[other] == entries_map(
            entries,
        )[other],
{
    assert(entries.push((key, value)).drop_last() =~= entries);
}

/// A value stands for what it holds.
pub proof fn law_values_stand_for_what_they_hold(
    b: bool,
    n: Number,
    s: String,
    a: Vec<Json>,
    o: JsonObject,
)
    ensures
        Json::Null@ == JsonTree::Null,
        Json::Bool(b)@ == JsonTree::Bool(b),
        Json::Number(n)@ == JsonTree::Number(number_text(n)),
        Json::Str(s)@ == JsonTree::Str(s@),
        Json::Array(a)@ matches JsonTree::Array(t) && t.len() == a@.len() && forall|i: int|
            0 <= i < a@.len() ==> #[trigger] t[i] == a@[i]@,
        Json::Object(o)@ == JsonTree::Object(o@),
        o.pairs().len() == o.entries@.len(),
        forall|i: int|
            0 <= i < o.entries@.len() ==> #[trigger] o.pairs()[i] == (
                o.entries@[i].0@,
                o.entries@[i].1@,
            ),
{
    Json::lemma_array(a);
    o.lemma_members();
}

/// A request is found again by the text of its id: a string's own, or a number's. Nothing
/// else is an id.
pub proof fn law_ids_are_strings_and_numbers(id: Option<JsonTree>, text: Seq<char>)
    ensures
        id_text(id) == Some(text) <==> id == Some(JsonTree::Str(text)) || id == Some(
            JsonTree::Number(text),
        ),
        forall|n: nat| number_tree(n) == JsonTree::Number(#[trigger] decimal(n)),
{
}

/// What is plain: all but numbers that are no integers, and values that nest too deep.
pub proof fn law_plain_values(t: JsonTree, depth: nat)
    ensures
        t is Null || t is Bool || t is Str ==> is_plain(t, depth),
        forall|n: nat| is_plain(JsonTree::Number(#[trigger] decimal(n)), depth),
        t matches JsonTree::Array(a) ==> (is_plain(t, depth + 1) <==> forall|i: int|
            0 <= i < a.len() ==> is_plain(#[trigger] a[i], depth)),
        t matches JsonTree::Object(m) ==> (is_plain(t, depth + 1) <==> forall|k: Seq<char>|
            #[trigger] m.contains_key(k) ==> is_plain(m[k], depth)),
{
    assert forall|n: nat| is_plain(JsonTree::Number(#[trigger] decimal(n)), depth) by {
        lemma_decimal(n);
        assert(is_digit(decimal(n)[0]));
    }
}

/// The numbers that are plain are the integers: digits, behind one `-` at most.
pub proof fn law_plain_numbers_are_integers(text: Seq<char>, depth: nat, i: int)
    ensures
        is_plain(JsonTree::Number(text), depth) && 0 <= i < text.len() ==> '0' <= text[i] <= '9'
            || (i == 0 && text[0] == '-'),
        (forall|k: int| 0 <= k < text.len() ==> '0' <= #[trigger] text[k] <= '9') && text.len() > 0
            ==> is_plain(JsonTree::Number(text), depth) && is_plain(
            JsonTree::Number(seq!['-'] + text),
            depth,
        ),
        !is_plain(JsonTree::Number(Seq::empty()), depth),
{
    let negative = seq!['-'] + text;
    assert(negative.skip(1) =~= text && negative[0] == '-');
    if is_plain(JsonTree::Number(text), depth) && 0 <= i < text.len() {
        if text[0] == '-' {
            if i > 0 {
                assert(is_digit(text.skip(1)[i - 1]));
            }
        } else {
            assert(is_digit(text[i]));
        }
    }
    if (forall|k: int| 0 <= k < text.len() ==> '0' <= #[trigger] text[k] <= '9') && text.len() > 0 {
        assert('0' <= text[0] <= '9');
        assert forall|k: int| 0 <= k < text.len() implies is_digit(#[trigger] text[k]) by {}
        assert(is_integer_text(text));
        assert(is_integer_text(negative));
    }
}

} // verus!

//! JSON documents as plain trees.
//!
//! [`parse_json`] reads a text into a [`Json`] tree and [`print_json`] writes one. The reading and
//! writing are the work of `serde_json`; taking its values apart into trees, and putting them
//! together again, is proved here level by level. What the rest of the library does with documents,
//! it does with trees.
use vstd::prelude::*;
use vstd::string::*;

use crate::order::before;
use crate::text::{opt_str, same};

verus! {

/// A JSON value as `serde_json` holds it.
#[verifier::external_type_specification]
#[verifier::external_body]
pub struct ExValue(serde_json::Value);

/// A JSON value. Integers that fit 64 bits are kept as such, other numbers as `serde_json` has them.
pub enum Json {
    Null,
    Bool(bool),
    Unsigned(u64),
    Negative(i64),
    Fraction(serde_json::Value),
    Text(String),
    List(Vec<Json>),
    Record(Vec<(String, Json)>),
}

/// What a [`Json`] value denotes.
pub enum JsonTree {
    Null,
    Bool(bool),
    Unsigned(u64),
    Negative(i64),
    Fraction(serde_json::Value),
    Text(Seq<char>),
    List(Seq<JsonTree>),
    Record(Seq<(Seq<char>, JsonTree)>),
}

impl View for Json {
    type V = JsonTree;

    open spec fn view(&self) -> JsonTree {
        self.tree()
    }
}

impl Json {
    /// What the value denotes.
    pub open spec fn tree(self) -> JsonTree
        decreases self,
    {
        match self {
            Json::Null => JsonTree::Null,
            Json::Bool(b) => JsonTree::Bool(b),
            Json::Unsigned(n) => JsonTree::Unsigned(n),
            Json::Negative(n) => JsonTree::Negative(n),
            Json::Fraction(n) => JsonTree::Fraction(n),
            Json::Text(s) => JsonTree::Text(s@),
            Json::List(v) => JsonTree::List(
                Seq::new(
                    v@.len(),
                    |i: int|
                        if 0 <= i < v@.len() {
                            v@[i].tree()
                        } else {
                            arbitrary()
                        },
                ),
            ),
            Json::Record(v) => JsonTree::Record(
                Seq::new(
                    v@.len(),
                    |i: int|
                        if 0 <= i < v@.len() {
                            (v@[i].0@, v@[i].1.tree())
                        } else {
                            arbitrary()
                        },
                ),
            ),
        }
    }
}

/// What a list of values denotes.
pub open spec fn trees(v: Seq<Json>) -> Seq<JsonTree> {
    v.map_values(|j: Json| j.tree())
}

/// How deep `serde_json` lets lists and records nest.
pub const MAX_DEPTH: usize = 127;

impl JsonTree {
    /// Whether lists and records nest at most `depth` deep, every record's keys ascend, and every
    /// number is kept in the way that is its own.
    pub open spec fn orderly(self, depth: nat) -> bool
        decreases depth,
    {
        match self {
            JsonTree::Negative(n) => n < 0,
            JsonTree::Fraction(v) => content(v) == self,
            JsonTree::List(s) => depth > 0 && forall|i: int|
                0 <= i < s.len() ==> (#[trigger] s[i]).orderly((depth - 1) as nat),
            JsonTree::Record(s) => depth > 0 && ascends(s) && (forall|i: int|
                0 <= i < s.len() ==> (#[trigger] s[i]).1.orderly((depth - 1) as nat)),
            _ => true,
        }
    }

    /// Whether every number in it, down to `depth`, is an integer.
    pub open spec fn integral(self, depth: nat) -> bool
        decreases depth,
    {
        match self {
            JsonTree::Fraction(_) => false,
            JsonTree::List(s) => depth > 0 && forall|i: int|
                0 <= i < s.len() ==> (#[trigger] s[i]).integral((depth - 1) as nat),
            JsonTree::Record(s) => depth > 0 && forall|i: int|
                0 <= i < s.len() ==> (#[trigger] s[i]).1.integral((depth - 1) as nat),
            _ => true,
        }
    }

    /// The member of a record under `key`.
    pub open spec fn member(self, key: Seq<char>) -> Option<JsonTree> {
        match self {
            JsonTree::Record(s) => member_of(s, key),
            _ => None,
        }
    }

    /// The text, where it is one.
    pub open spec fn text(self) -> Option<Seq<char>> {
        match self {
            JsonTree::Text(s) => Some(s),
            _ => None,
        }
    }

    /// The items, where it is a list.
    pub open spec fn items(self) -> Option<Seq<JsonTree>> {
        match self {
            JsonTree::List(s) => Some(s),
            _ => None,
        }
    }

    /// The text under `key`, where it is a record and there is one.
    pub open spec fn member_text(self, key: Seq<char>) -> Option<Seq<char>> {
        match self.member(key) {
            Some(t) => t.text(),
            None => None,
        }
    }
}

/// Whether the keys of a record ascend.
pub open spec fn ascends(s: Seq<(Seq<char>, JsonTree)>) -> bool {
    forall|i: int, j: int|
        0 <= i < j < s.len() ==> before((#[trigger] s[i]).0, (#[trigger] s[j]).0)
}

/// The first member under `key`.
pub open spec fn member_of(s: Seq<(Seq<char>, JsonTree)>, key: Seq<char>) -> Option<JsonTree>
    decreases s.len(),
{
    if s.len() == 0 {
        None
    } else if s[0].0 == key {
        Some(s[0].1)
    } else {
        member_of(s.drop_first(), key)
    }
}

impl Json {
    /// The member of a record under `key`.
    pub fn get(&self, key: &str) -> (r: Option<&Json>)
        ensures
            match r {
                Some(j) => self@.member(key@) == Some(j@),
                None => self@.member(key@) is None,
            },
    {
        match self {
            Json::Record(v) => {
                let ghost s = self@->Record_0;
                let mut i: usize = 0;
                assert(s.skip(0) == s);
                while i < v.len()
                    invariant
                        i <= v@.len(),
                        *self == Json::Record(*v),
                        s == self@->Record_0,
                        s.len() == v@.len(),
                        member_of(s, key@) == member_of(s.skip(i as int), key@),
                    decreases v@.len() - i,
                {
                    assert(s.skip(i as int)[0] == s[i as int]);
                    assert(s.skip(i as int).drop_first() == s.skip(i + 1));
                    if same(v[i].0.as_str(), key) {
                        return Some(&v[i].1);
                    }
                    i = i + 1;
                }
                None
            },
            _ => None,
        }
    }

    /// The text, where the value is one.
    pub fn as_text(&self) -> (r: Option<&str>)
        ensures
            opt_str(r) == self@.text(),
    {
        match self {
            Json::Text(s) => Some(s.as_str()),
            _ => None,
        }
    }

    /// The text under `key`, where the value is a record and there is one.
    pub fn get_text(&self, key: &str) -> (r: Option<&str>)
        ensures
            opt_str(r) == self@.member_text(key@),
    {
        match self.get(key) {
            Some(j) => j.as_text(),
            None => None,
        }
    }

    /// The items, where the value is a list.
    pub fn as_list(&self) -> (r: Option<&Vec<Json>>)
        ensures
            match r {
                Some(v) => self@.items() == Some(trees(v@)),
                None => self@.items() is None,
            },
    {
        match self {
            Json::List(v) => {
                assert(self@->List_0 == trees(v@));
                Some(v)
            },
            _ => None,
        }
    }
}

// ----- values of serde_json -----

/// What a `serde_json` value holds.
pub uninterp spec fn content(v: serde_json::Value) -> JsonTree;

/// One level of a `serde_json` value: what it is, with the values in it left as they are.
pub enum Level {
    Null,
    Bool(bool),
    Unsigned(u64),
    Negative(i64),
    Fraction(serde_json::Value),
    Text(String),
    List(Vec<serde_json::Value>),
    Record(Vec<(String, serde_json::Value)>),
}

/// What the values of a list hold.
pub open spec fn contents(s: Seq<serde_json::Value>) -> Seq<JsonTree> {
    s.map_values(|v: serde_json::Value| content(v))
}

/// What the members of a record hold.
pub open spec fn member_contents(s: Seq<(String, serde_json::Value)>) -> Seq<
    (Seq<char>, JsonTree),
> {
    s.map_values(|m: (String, serde_json::Value)| (m.0@, content(m.1)))
}

impl Level {
    /// What a value with this level on top holds.
    pub open spec fn denotes(self) -> JsonTree {
        match self {
            Level::Null => JsonTree::Null,
            Level::Bool(b) => JsonTree::Bool(b),
            Level::Unsigned(n) => JsonTree::Unsigned(n),
            Level::Negative(n) => JsonTree::Negative(n),
            Level::Fraction(v) => JsonTree::Fraction(v),
            Level::Text(s) => JsonTree::Text(s@),
            Level::List(a) => JsonTree::List(contents(a@)),
            Level::Record(m) => JsonTree::Record(member_contents(m@)),
        }
    }
}

/// Takes a `serde_json::Value` apart: one case for each of its variants, with the integers that
/// `Number::as_u64` and `Number::as_i64` give told apart from the other numbers, and the members of
/// a `Map` in its order.
#[verifier::external_body]
fn open_value(v: serde_json::Value) -> (r: Level)
    ensures
        r.denotes() == content(v),
        r matches Level::Fraction(w) ==> w == v,
{
    match v {
        serde_json::Value::Null => Level::Null,
        serde_json::Value::Bool(b) => Level::Bool(b),
        serde_json::Value::Number(n) => match (n.as_u64(), n.as_i64()) {
            (Some(u), _) => Level::Unsigned(u),
            (None, Some(i)) => Level::Negative(i),
            (None, None) => Level::Fraction(serde_json::Value::Number(n)),
        },
        serde_json::Value::String(s) => Level::Text(s),
        serde_json::Value::Array(a) => Level::List(a),
        serde_json::Value::Object(m) => Level::Record(m.into_iter().collect()),
    }
}

/// Makes a `serde_json::Value` of one level. A `Map` sorts its members by their keys, so the
/// members of a record come out as they went in where their keys ascend; a number that is not
/// negative comes out as unsigned.
#[verifier::external_body]
fn close_value(level: Level) -> (v: serde_json::Value)
    ensures
        match level {
            Level::Negative(n) => n < 0 ==> content(v) == level.denotes(),
            Level::Fraction(w) => v == w,
            Level::Record(m) => ascends(member_contents(m@)) ==> content(v) == level.denotes(),
            _ => content(v) == level.denotes(),
        },
{
    match level {
        Level::Null => serde_json::Value::Null,
        Level::Bool(b) => serde_json::Value::Bool(b),
        Level::Unsigned(n) => serde_json::Value::from(n),
        Level::Negative(n) => serde_json::Value::from(n),
        Level::Fraction(w) => w,
        Level::Text(s) => serde_json::Value::String(s),
        Level::List(a) => serde_json::Value::Array(a),
        Level::Record(m) => serde_json::Value::Object(m.into_iter().collect()),
    }
}

/// `Value::clone`: the same value again.
#[verifier::external_body]
fn same_value(v: &serde_json::Value) -> (r: serde_json::Value)
    ensures
        r == *v,
{
    v.clone()
}

/// The document that a text holds, where it is JSON.
pub uninterp spec fn json_tree(text: Seq<char>) -> Option<JsonTree>;

/// The text of a document.
pub uninterp spec fn json_text(tree: JsonTree) -> Seq<char>;

/// `serde_json::from_str::<Value>`: the document in `text`, or `None` where the text is not
/// JSON. What it holds is a function of the text, named [`json_tree`]. Its records are kept in
/// ascending order of their keys, and it nests no deeper than [`MAX_DEPTH`].
#[verifier::external_body]
fn parse_value(text: &str) -> (r: Option<serde_json::Value>)
    ensures
        match r {
            Some(v) => json_tree(text@) == Some(content(v)),
            None => json_tree(text@) is None,
        },
        r matches Some(v) ==> content(v).orderly(MAX_DEPTH as nat),
{
    serde_json::from_str::<serde_json::Value>(text).ok()
}

/// `Value::to_string`: the compact text of a document, a function of what it holds that is named
/// [`json_text`]. A document that holds only integers, nests no deeper than [`MAX_DEPTH`] and has
/// ascending keys is read back from it as it was.
#[verifier::external_body]
fn print_value(v: &serde_json::Value) -> (r: String)
    ensures
        r@ == json_text(content(*v)),
        content(*v).orderly(MAX_DEPTH as nat) && content(*v).integral(MAX_DEPTH as nat)
            ==> json_tree(r@) == Some(content(*v)),
{
    v.to_string()
}

// ----- trees -----

/// The tree of a value.
fn json_of(v: serde_json::Value) -> (j: Json)
    ensures
        j@ == content(v),
    decreases content(v),
{
    let ghost whole = content(v);
    match open_value(v) {
        Level::Null => Json::Null,
        Level::Bool(b) => Json::Bool(b),
        Level::Unsigned(n) => Json::Unsigned(n),
        Level::Negative(n) => Json::Negative(n),
        Level::Fraction(w) => Json::Fraction(w),
        Level::Text(s) => Json::Text(s),
        Level::List(a) => {
            let ghost s = whole->List_0;
            let ghost all = a@;
            assert(s == contents(all));
            let mut left = a;
            let mut back: Vec<Json> = Vec::new();
            while left.len() > 0
                invariant
                    whole == content(v),
                    whole == JsonTree::List(s),
                    s == contents(all),
                    left@ == all.take(left@.len() as int),
                    left@.len() + back@.len() == all.len(),
                    forall|k: int|
                        0 <= k < back@.len() ==> (#[trigger] back@[k])@ == s[all.len() - 1 - k],
                decreases left@.len(),
            {
                let n: usize = left.len();
                let x = left.pop().unwrap();
                assert(x == all[n - 1]);
                assert(s[n - 1] == content(x));
                assert(decreases_to!(whole => whole->List_0[n - 1]));
                back.push(json_of(x));
            }
            let mut out: Vec<Json> = Vec::new();
            while back.len() > 0
                invariant
                    s.len() == all.len(),
                    out@.len() + back@.len() == all.len(),
                    forall|k: int|
                        0 <= k < back@.len() ==> (#[trigger] back@[k])@ == s[all.len() - 1 - k],
                    forall|k: int| 0 <= k < out@.len() ==> (#[trigger] out@[k])@ == s[k],
                decreases back@.len(),
            {
                let x = back.pop().unwrap();
                out.push(x);
            }
            let j = Json::List(out);
            assert(j@->List_0 == s);
            j
        },
        Level::Record(m) => {
            let ghost s = whole->Record_0;
            let ghost all = m@;
            assert(s == member_contents(all));
            let mut left = m;
            let mut back: Vec<(String, Json)> = Vec::new();
            while left.len() > 0
                invariant
                    whole == content(v),
                    whole == JsonTree::Record(s),
                    s == member_contents(all),
                    left@ == all.take(left@.len() as int),
                    left@.len() + back@.len() == all.len(),
                    forall|k: int|
                        0 <= k < back@.len() ==> ((#[trigger] back@[k]).0@, back@[k].1@)
                            == s[all.len() - 1 - k],
                decreases left@.len(),
            {
                let n: usize = left.len();
                let x = left.pop().unwrap();
                assert(x == all[n - 1]);
                assert(s[n - 1] == (x.0@, content(x.1)));
                assert(decreases_to!(whole => whole->Record_0[n - 1].1));
                back.push((x.0, json_of(x.1)));
            }
            let mut out: Vec<(String, Json)> = Vec::new();
            while back.len() > 0
                invariant
                    s.len() == all.len(),
                    out@.len() + back@.len() == all.len(),
                    forall|k: int|
                        0 <= k < back@.len() ==> ((#[trigger] back@[k]).0@, back@[k].1@)
                            == s[all.len() - 1 - k],
                    forall|k: int|
                        0 <= k < out@.len() ==> ((#[trigger] out@[k]).0@, out@[k].1@) == s[k],
                decreases back@.len(),
            {
                let x = back.pop().unwrap();
                out.push(x);
            }
            let j = Json::Record(out);
            assert(j@->Record_0 == s);
            j
        },
    }
}

/// The value of a tree.
fn value_of(j: &Json, Ghost(depth): Ghost<nat>) -> (v: serde_json::Value)
    requires
        j@.orderly(depth),
    ensures
        content(v) == j@,
    decreases j,
{
    match j {
        Json::Null => close_value(Level::Null),
        Json::Bool(b) => close_value(Level::Bool(*b)),
        Json::Unsigned(n) => close_value(Level::Unsigned(*n)),
        Json::Negative(n) => close_value(Level::Negative(*n)),
        Json::Fraction(w) => close_value(Level::Fraction(same_value(w))),
        Json::Text(s) => close_value(Level::Text(s.clone())),
        Json::List(v) => {
            let ghost s = j@->List_0;
            let mut out: Vec<serde_json::Value> = Vec::new();
            let mut i: usize = 0;
            while i < v.len()
                invariant
                    i <= v@.len(),
                    *j == Json::List(*v),
                    j@.orderly(depth),
                    j@ == JsonTree::List(s),
                    s.len() == v@.len(),
                    out@.len() == i,
                    forall|k: int| 0 <= k < i ==> content(#[trigger] out@[k]) == s[k],
                decreases v@.len() - i,
            {
                assert(s[i as int] == v@[i as int]@);
                assert(j@->List_0[i as int].orderly((depth - 1) as nat));
                out.push(value_of(&v[i], Ghost((depth - 1) as nat)));
                i = i + 1;
            }
            assert(contents(out@) == s);
            close_value(Level::List(out))
        },
        Json::Record(v) => {
            let ghost s = j@->Record_0;
            let mut out: Vec<(String, serde_json::Value)> = Vec::new();
            let mut i: usize = 0;
            while i < v.len()
                invariant
                    i <= v@.len(),
                    *j == Json::Record(*v),
                    j@.orderly(depth),
                    j@ == JsonTree::Record(s),
                    s.len() == v@.len(),
                    out@.len() == i,
                    forall|k: int|
                        0 <= k < i ==> ((#[trigger] out@[k]).0@, content(out@[k].1)) == s[k],
                decreases v@.len() - i,
            {
                assert(s[i as int] == (v@[i as int].0@, v@[i as int].1@));
                assert(j@->Record_0[i as int].1.orderly((depth - 1) as nat));
                out.push((v[i].0.clone(), value_of(&v[i].1, Ghost((depth - 1) as nat))));
                i = i + 1;
            }
            assert(member_contents(out@) == s);
            close_value(Level::Record(out))
        },
    }
}

/// The document in a text, where the text is JSON.
pub(crate) fn parse_json(text: &str) -> (r: Option<Json>)
    ensures
        match r {
            Some(j) => json_tree(text@) == Some(j@) && j@.orderly(MAX_DEPTH as nat),
            None => json_tree(text@) is None,
        },
{
    match parse_value(text) {
        Some(v) => Some(json_of(v)),
        None => None,
    }
}

/// The compact text of a document. A document without fractions is read back from it as it was.
pub(crate) fn print_json(j: &Json) -> (r: String)
    requires
        j@.orderly(MAX_DEPTH as nat),
    ensures
        r@ == json_text(j@),
        j@.integral(MAX_DEPTH as nat) ==> json_tree(r@) == Some(j@),
{
    let v = value_of(j, Ghost(MAX_DEPTH as nat));
    print_value(&v)
}

// ----- laws -----

/// A member of a record is the first under its name; nothing but a record has members.
pub proof fn law_first_member_counts(s: Seq<(Seq<char>, JsonTree)>, key: Seq<char>, k: int)
    requires
        0 <= k <= s.len(),
        forall|j: int| 0 <= j < k ==> (#[trigger] s[j]).0 != key,
    ensures
        k == s.len() ==> JsonTree::Record(s).member(key) is None,
        k < s.len() && s[k].0 == key ==> JsonTree::Record(s).member(key) == Some(s[k].1),
    decreases s.len(),
{
    if s.len() > 0 && k > 0 {
        let rest = s.drop_first();
        assert(s[0].0 != key);
        assert forall|j: int| 0 <= j < k - 1 implies (#[trigger] rest[j]).0 != key by {
            assert(rest[j] == s[j + 1]);
        }
        law_first_member_counts(rest, key, k - 1);
    }
}

/// What a tree is told by: a text by its characters, a list by its items, a record by its members, and
/// nothing else has any of these.
pub proof fn law_trees_are_told_apart(t: JsonTree, key: Seq<char>)
    ensures
        t.text() is Some <==> t is Text,
        t matches JsonTree::Text(s) ==> t.text() == Some(s),
        t.items() is Some <==> t is List,
        t matches JsonTree::List(s) ==> t.items() == Some(s),
        !(t is Record) ==> t.member(key) is None,
        t.member(key) matches Some(m) ==> t.member_text(key) == m.text(),
        t.member(key) is None ==> t.member_text(key) is None,
{
}

} // verus!

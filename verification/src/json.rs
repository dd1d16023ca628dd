//! JSON documents as plain values.

use crate::text as t;
use vstd::prelude::*;

verus! {

/// A JSON document. A number with a fraction or an exponent keeps no value.
#[derive(Debug, PartialEq, Eq)]
pub enum Json {
    Null,
    Bool(bool),
    Int(i128),
    Fraction,
    Text(String),
    List(Vec<Json>),
    Record(Vec<(String, Json)>),
}

/// What a document holds.
pub enum Tree {
    Null,
    Bool(bool),
    Int(int),
    Fraction,
    Text(Seq<char>),
    List(Seq<Tree>),
    Record(Seq<(Seq<char>, Tree)>),
}

impl View for Json {
    type V = Tree;

    open spec fn view(&self) -> Tree {
        self.tree()
    }
}

impl Json {
    /// What the document holds.
    pub open spec fn tree(self) -> Tree
        decreases self,
    {
        match self {
            Json::Null => Tree::Null,
            Json::Bool(b) => Tree::Bool(b),
            Json::Int(n) => Tree::Int(n as int),
            Json::Fraction => Tree::Fraction,
            Json::Text(s) => Tree::Text(s@),
            Json::List(v) => Tree::List(
                Seq::new(
                    v@.len(),
                    |i: int|
                        if 0 <= i < v@.len() {
                            v@[i].tree()
                        } else {
                            Tree::Null
                        },
                ),
            ),
            Json::Record(v) => Tree::Record(
                Seq::new(
                    v@.len(),
                    |i: int|
                        if 0 <= i < v@.len() {
                            (v@[i].0@, v@[i].1.tree())
                        } else {
                            (Seq::empty(), Tree::Null)
                        },
                ),
            ),
        }
    }
}

/// The value of the first entry under `key`, from entry `i` on.
pub open spec fn entry_from(entries: Seq<(Seq<char>, Tree)>, key: Seq<char>, i: int) -> Option<Tree>
    decreases entries.len() - i,
{
    if i < 0 || i >= entries.len() {
        None
    } else if entries[i].0 == key {
        Some(entries[i].1)
    } else {
        entry_from(entries, key, i + 1)
    }
}

impl Tree {
    /// The value under `key`, where the document is a record that has it.
    pub open spec fn get(self, key: Seq<char>) -> Option<Tree> {
        match self {
            Tree::Record(entries) => entry_from(entries, key, 0),
            _ => None,
        }
    }

    pub open spec fn text(self) -> Option<Seq<char>> {
        match self {
            Tree::Text(s) => Some(s),
            _ => None,
        }
    }

    pub open spec fn text_at(self, key: Seq<char>) -> Option<Seq<char>> {
        match self.get(key) {
            Some(t) => t.text(),
            None => None,
        }
    }
}

pub open spec fn opt_tree(o: Option<&Json>) -> Option<Tree> {
    match o {
        Some(j) => Some(j@),
        None => None,
    }
}

impl Json {
    pub fn get(&self, key: &str) -> (r: Option<&Json>)
        ensures
            opt_tree(r) == self@.get(key@),
    {
        match self {
            Json::Record(v) => {
                let ghost entries = self@->Record_0;
                let mut i: usize = 0;
                while i < v.len()
                    invariant
                        i <= v.len(),
                        self matches Json::Record(w) && w == v,
                        self@ == Tree::Record(entries),
                        entries.len() == v@.len(),
                        entry_from(entries, key@, 0) == entry_from(entries, key@, i as int),
                    decreases v.len() - i,
                {
                    assert(entries[i as int] == (v@[i as int].0@, v@[i as int].1@));
                    if t::same(v[i].0.as_str(), key) {
                        return Some(&v[i].1);
                    }
                    i += 1;
                }
                None
            },
            _ => None,
        }
    }

    pub fn text(&self) -> (r: Option<String>)
        ensures
            t::opt_view(r) == self@.text(),
    {
        match self {
            Json::Text(s) => Some(s.clone()),
            _ => None,
        }
    }

    pub fn text_at(&self, key: &str) -> (r: Option<String>)
        ensures
            t::opt_view(r) == self@.text_at(key@),
    {
        match self.get(key) {
            Some(t) => t.text(),
            None => None,
        }
    }
}

#[verifier::external_type_specification]
#[verifier::external_body]
pub struct ExValue(serde_json::Value);

/// What a `serde_json::Value` holds.
pub uninterp spec fn value_tree(v: serde_json::Value) -> Tree;

/// The document that `serde_json` reads in a text, where it reads one.
pub uninterp spec fn parsed_json(text: Seq<char>) -> Option<Tree>;

/// The document that `serde_json` reads in bytes, where it reads one.
pub uninterp spec fn parsed_json_bytes(bytes: Seq<u8>) -> Option<Tree>;

/// The outermost layer of a `serde_json::Value`.
pub enum Layer {
    Null,
    Bool(bool),
    Int(i128),
    Fraction,
    Text(String),
    List(Vec<serde_json::Value>),
    Record(Vec<(String, serde_json::Value)>),
}

impl Layer {
    pub open spec fn tree(self) -> Tree {
        match self {
            Layer::Null => Tree::Null,
            Layer::Bool(b) => Tree::Bool(b),
            Layer::Int(n) => Tree::Int(n as int),
            Layer::Fraction => Tree::Fraction,
            Layer::Text(s) => Tree::Text(s@),
            Layer::List(v) => Tree::List(v@.map_values(|x: serde_json::Value| value_tree(x))),
            Layer::Record(v) => Tree::Record(
                v@.map_values(|x: (String, serde_json::Value)| (x.0@, value_tree(x.1))),
            ),
        }
    }
}

/// `serde_json::from_str` into a `serde_json::Value`: whether it accepts the
/// text, and what the value holds, depend on the text alone.
#[verifier::external_body]
fn parse_value(text: &str) -> (r: Option<serde_json::Value>)
    ensures
        r is Some <==> parsed_json(text@) is Some,
        r matches Some(v) ==> parsed_json(text@) == Some(value_tree(v)),
{
    serde_json::from_str::<serde_json::Value>(text).ok()
}

/// `serde_json::from_slice` into a `serde_json::Value`: whether it accepts the
/// bytes, and what the value holds, depend on the bytes alone.
#[verifier::external_body]
fn parse_value_bytes(bytes: &[u8]) -> (r: Option<serde_json::Value>)
    ensures
        r is Some <==> parsed_json_bytes(bytes@) is Some,
        r matches Some(v) ==> parsed_json_bytes(bytes@) == Some(value_tree(v)),
{
    serde_json::from_slice::<serde_json::Value>(bytes).ok()
}

/// Takes a `serde_json::Value` apart by its variants. `Number::as_i128` is
/// `None` exactly for a number held as a float; an object's entries come in
/// the order of `serde_json::Map`.
#[verifier::external_body]
fn open_value(v: serde_json::Value) -> (r: Layer)
    ensures
        r.tree() == value_tree(v),
{
    match v {
        serde_json::Value::Null => Layer::Null,
        serde_json::Value::Bool(b) => Layer::Bool(b),
        serde_json::Value::Number(n) => match n.as_i128() {
            Some(i) => Layer::Int(i),
            None => Layer::Fraction,
        },
        serde_json::Value::String(s) => Layer::Text(s),
        serde_json::Value::Array(v) => Layer::List(v),
        serde_json::Value::Object(m) => Layer::Record(m.into_iter().collect()),
    }
}

fn of_value(v: serde_json::Value) -> (r: Json)
    ensures
        r@ == value_tree(v),
    decreases value_tree(v),
{
    let ghost whole = value_tree(v);
    match open_value(v) {
        Layer::Null => Json::Null,
        Layer::Bool(b) => Json::Bool(b),
        Layer::Int(n) => Json::Int(n),
        Layer::Fraction => Json::Fraction,
        Layer::Text(s) => Json::Text(s),
        Layer::List(items) => {
            let mut out: Vec<Json> = Vec::new();
            let ghost vals = items@;
            for x in it: items
                invariant
                    it.seq() == vals,
                    whole == value_tree(v),
                    whole == Tree::List(vals.map_values(|x: serde_json::Value| value_tree(x))),
                    out@.len() == it.index(),
                    forall|k: int| 0 <= k < out@.len() ==> (#[trigger] out@[k])@ == value_tree(vals[k]),
            {
                assert(decreases_to!(whole => whole->List_0[it.index() as int]));
                out.push(of_value(x));
            }
            let r = Json::List(out);
            assert(r@->List_0 =~= whole->List_0);
            r
        },
        Layer::Record(items) => {
            let mut out: Vec<(String, Json)> = Vec::new();
            let ghost vals = items@;
            for x in it: items
                invariant
                    it.seq() == vals,
                    whole == value_tree(v),
                    whole == Tree::Record(
                        vals.map_values(|x: (String, serde_json::Value)| (x.0@, value_tree(x.1))),
                    ),
                    out@.len() == it.index(),
                    forall|k: int|
                        0 <= k < out@.len() ==> (#[trigger] out@[k]).0@ == vals[k].0@ && out@[k].1@
                            == value_tree(vals[k].1),
            {
                assert(decreases_to!(whole => whole->Record_0[it.index() as int].1));
                out.push((x.0, of_value(x.1)));
            }
            let r = Json::Record(out);
            assert(r@->Record_0 =~= whole->Record_0);
            r
        },
    }
}

/// Reads a JSON document from bytes.
pub fn parse_json_bytes(bytes: &[u8]) -> (r: Option<Json>)
    ensures
        r is Some <==> parsed_json_bytes(bytes@) is Some,
        r matches Some(j) ==> parsed_json_bytes(bytes@) == Some(j@),
{
    match parse_value_bytes(bytes) {
        Some(v) => Some(of_value(v)),
        None => None,
    }
}

/// Reads a JSON document from a text.
pub fn parse_json(text: &str) -> (r: Option<Json>)
    ensures
        r is Some <==> parsed_json(text@) is Some,
        r matches Some(j) ==> parsed_json(text@) == Some(j@),
{
    match parse_value(text) {
        Some(v) => Some(of_value(v)),
        None => None,
    }
}

impl Tree {
    pub open spec fn items(self) -> Option<Seq<Tree>> {
        match self {
            Tree::List(v) => Some(v),
            _ => None,
        }
    }

    pub open spec fn items_at(self, key: Seq<char>) -> Option<Seq<Tree>> {
        match self.get(key) {
            Some(t) => t.items(),
            None => None,
        }
    }

    pub open spec fn truth(self) -> Option<bool> {
        match self {
            Tree::Bool(b) => Some(b),
            _ => None,
        }
    }

    pub open spec fn truth_at(self, key: Seq<char>) -> Option<bool> {
        match self.get(key) {
            Some(t) => t.truth(),
            None => None,
        }
    }

    /// An integer of the range of `i64`.
    pub open spec fn int64(self) -> Option<int> {
        match self {
            Tree::Int(n) => if i64::MIN <= n <= i64::MAX {
                Some(n)
            } else {
                None
            },
            _ => None,
        }
    }

    pub open spec fn int64_at(self, key: Seq<char>) -> Option<int> {
        match self.get(key) {
            Some(t) => t.int64(),
            None => None,
        }
    }

    /// An integer of the range of `u64`.
    pub open spec fn uint64(self) -> Option<int> {
        match self {
            Tree::Int(n) => if 0 <= n <= u64::MAX {
                Some(n)
            } else {
                None
            },
            _ => None,
        }
    }

    pub open spec fn uint64_at(self, key: Seq<char>) -> Option<int> {
        match self.get(key) {
            Some(t) => t.uint64(),
            None => None,
        }
    }
}

/// What a list of documents holds.
pub open spec fn trees(v: Seq<Json>) -> Seq<Tree> {
    v.map_values(|j: Json| j@)
}

pub open spec fn opt_trees(o: Option<&Vec<Json>>) -> Option<Seq<Tree>> {
    match o {
        Some(v) => Some(trees(v@)),
        None => None,
    }
}

impl Json {
    pub fn items(&self) -> (r: Option<&Vec<Json>>)
        ensures
            opt_trees(r) == self@.items(),
    {
        match self {
            Json::List(v) => {
                assert(self@->List_0 =~= trees(v@));
                Some(v)
            },
            _ => None,
        }
    }

    pub fn items_at(&self, key: &str) -> (r: Option<&Vec<Json>>)
        ensures
            opt_trees(r) == self@.items_at(key@),
    {
        match self.get(key) {
            Some(j) => j.items(),
            None => None,
        }
    }

    pub fn truth(&self) -> (r: Option<bool>)
        ensures
            r == self@.truth(),
    {
        match self {
            Json::Bool(b) => Some(*b),
            _ => None,
        }
    }

    pub fn truth_at(&self, key: &str) -> (r: Option<bool>)
        ensures
            r == self@.truth_at(key@),
    {
        match self.get(key) {
            Some(j) => j.truth(),
            None => None,
        }
    }

    pub fn int64(&self) -> (r: Option<i64>)
        ensures
            r is Some <==> self@.int64() is Some,
            r matches Some(n) ==> self@.int64() == Some(n as int),
    {
        match self {
            Json::Int(n) => if *n >= i64::MIN as i128 && *n <= i64::MAX as i128 {
                Some(*n as i64)
            } else {
                None
            },
            _ => None,
        }
    }

    pub fn int64_at(&self, key: &str) -> (r: Option<i64>)
        ensures
            r is Some <==> self@.int64_at(key@) is Some,
            r matches Some(n) ==> self@.int64_at(key@) == Some(n as int),
    {
        match self.get(key) {
            Some(j) => j.int64(),
            None => None,
        }
    }

    pub fn uint64(&self) -> (r: Option<u64>)
        ensures
            r is Some <==> self@.uint64() is Some,
            r matches Some(n) ==> self@.uint64() == Some(n as int),
    {
        match self {
            Json::Int(n) => if *n >= 0 && *n <= u64::MAX as i128 {
                Some(*n as u64)
            } else {
                None
            },
            _ => None,
        }
    }

    pub fn uint64_at(&self, key: &str) -> (r: Option<u64>)
        ensures
            r is Some <==> self@.uint64_at(key@) is Some,
            r matches Some(n) ==> self@.uint64_at(key@) == Some(n as int),
    {
        match self.get(key) {
            Some(j) => j.uint64(),
            None => None,
        }
    }
}

// ---------------------------------------------------------------------------
// Building documents
// ---------------------------------------------------------------------------

/// What the fields of a record hold.
pub open spec fn entries(v: Seq<(String, Json)>) -> Seq<(Seq<char>, Tree)> {
    v.map_values(|e: (String, Json)| (e.0@, e.1@))
}

/// Adds a field.
pub fn field(fields: &mut Vec<(String, Json)>, key: &str, value: Json)
    ensures
        entries(final(fields)@) == entries(old(fields)@).push((key@, value@)),
{
    let ghost before = entries(fields@);
    fields.push((key.to_owned(), value));
    assert(entries(fields@) =~= before.push((key@, value@)));
}

/// A record with the fields.
pub fn record(fields: Vec<(String, Json)>) -> (r: Json)
    ensures
        r@ == Tree::Record(entries(fields@)),
{
    let r = Json::Record(fields);
    assert(r.tree()->Record_0 =~= entries(fields@));
    r
}

/// A list with the items.
pub fn list(items: Vec<Json>) -> (r: Json)
    ensures
        r@ == Tree::List(trees(items@)),
{
    let r = Json::List(items);
    assert(r.tree()->List_0 =~= trees(items@));
    r
}

} // verus!

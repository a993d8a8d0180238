//! The JSON panel: validate, pretty-print and minify a document, and label its nodes.

use vstd::prelude::*;

use crate::palette::Paint;
use crate::text::{cat, decimal, decimal_of};

verus! {

/// A value without entries.
#[derive(Clone, Debug, PartialEq, Eq)]
pub enum Scalar {
    Text(String),
    /// A number, as it is written.
    Number(String),
    Bool(bool),
    Null,
}

/// Model of a value without entries.
pub enum ScalarV {
    Text(Seq<char>),
    Number(Seq<char>),
    Bool(bool),
    Null,
}

impl View for Scalar {
    type V = ScalarV;

    open spec fn view(&self) -> ScalarV {
        match *self {
            Scalar::Text(s) => ScalarV::Text(s@),
            Scalar::Number(n) => ScalarV::Number(n@),
            Scalar::Bool(b) => ScalarV::Bool(b),
            Scalar::Null => ScalarV::Null,
        }
    }
}

/// A document's value: entries in the order they are shown in.
#[derive(Debug, PartialEq, Eq)]
pub enum Node {
    Object(Vec<(String, Node)>),
    Array(Vec<Node>),
    Leaf(Scalar),
}

/// Model of a value.
pub enum NodeV {
    Object(Seq<(Seq<char>, NodeV)>),
    Array(Seq<NodeV>),
    Leaf(ScalarV),
}

impl Node {
    pub open spec fn model(self) -> NodeV
        decreases self,
    {
        match self {
            Node::Object(es) => NodeV::Object(
                Seq::new(
                    es@.len(),
                    |i: int|
                        (
                            es@[i].0@,
                            if 0 <= i < es@.len() {
                                es@[i].1.model()
                            } else {
                                NodeV::Leaf(ScalarV::Null)
                            },
                        ),
                ),
            ),
            Node::Array(items) => NodeV::Array(
                Seq::new(
                    items@.len(),
                    |i: int|
                        if 0 <= i < items@.len() {
                            items@[i].model()
                        } else {
                            NodeV::Leaf(ScalarV::Null)
                        },
                ),
            ),
            Node::Leaf(v) => NodeV::Leaf(v@),
        }
    }
}

/// A value as the parser holds it.
#[verifier::external_type_specification]
#[verifier::external_body]
pub struct ExValue(serde_json::Value);

/// What a value holds, all the way down: numbers as they are written, the entries of an object
/// in the order the parser keeps them in.
pub uninterp spec fn value_tree(v: serde_json::Value) -> NodeV;

/// `serde_json::from_str` into a value: what it holds; else line, column and words of the error.
pub uninterp spec fn json_read(text: Seq<char>) -> Result<NodeV, (int, int, Seq<char>)>;

/// `serde_json::to_string_pretty` on a value.
pub uninterp spec fn tree_pretty(t: NodeV) -> Seq<char>;

/// `serde_json::to_string` on a value.
pub uninterp spec fn tree_compact(t: NodeV) -> Seq<char>;

/// Where and why a document is refused; `None` where it is accepted.
pub open spec fn json_fault(text: Seq<char>) -> Option<(int, int, Seq<char>)> {
    match json_read(text) {
        Ok(_) => None,
        Err(f) => Some(f),
    }
}

/// A document's value, where it is accepted.
pub open spec fn json_tree(text: Seq<char>) -> Option<NodeV> {
    match json_read(text) {
        Ok(t) => Some(t),
        Err(_) => None,
    }
}

/// A document laid out over lines, where it is accepted.
pub open spec fn json_pretty(text: Seq<char>) -> Option<Seq<char>> {
    match json_read(text) {
        Ok(t) => Some(tree_pretty(t)),
        Err(_) => None,
    }
}

/// A document on one line, where it is accepted.
pub open spec fn json_compact(text: Seq<char>) -> Option<Seq<char>> {
    match json_read(text) {
        Ok(t) => Some(tree_compact(t)),
        Err(_) => None,
    }
}

/// `serde_json::from_str` into a value; else line, column and words of the error. The result
/// depends on the text alone.
#[verifier::external_body]
fn read_value(text: &str) -> (r: Result<serde_json::Value, (usize, usize, String)>)
    ensures
        match r {
            Ok(v) => json_read(text@) == Ok::<NodeV, (int, int, Seq<char>)>(value_tree(v)),
            Err(f) => json_read(text@) == Err::<NodeV, (int, int, Seq<char>)>(
                (f.0 as int, f.1 as int, f.2@),
            ),
        },
{
    serde_json::from_str(text).map_err(|e| (e.line(), e.column(), e.to_string()))
}

/// `serde_json::to_string_pretty`: a value always has a text, which depends on what it holds
/// alone.
#[verifier::external_body]
fn pretty_value(v: &serde_json::Value) -> (r: Option<String>)
    ensures
        r is Some,
        r is Some ==> (r->0)@ == tree_pretty(value_tree(*v)),
{
    serde_json::to_string_pretty(v).ok()
}

/// `serde_json::to_string`: a value always has a text, which depends on what it holds alone.
#[verifier::external_body]
fn compact_value(v: &serde_json::Value) -> (r: Option<String>)
    ensures
        r is Some,
        r is Some ==> (r->0)@ == tree_compact(value_tree(*v)),
{
    serde_json::to_string(v).ok()
}

/// One level of a value.
enum Level<'a> {
    Object(Vec<(&'a str, &'a serde_json::Value)>),
    Array(Vec<&'a serde_json::Value>),
    Leaf(Scalar),
}

spec fn level_tree(l: Level) -> NodeV {
    match l {
        Level::Object(es) => NodeV::Object(
            Seq::new(es@.len(), |i: int| (es@[i].0@, value_tree(*es@[i].1))),
        ),
        Level::Array(items) => NodeV::Array(
            Seq::new(items@.len(), |i: int| value_tree(*items@[i])),
        ),
        Level::Leaf(v) => NodeV::Leaf(v@),
    }
}

/// `serde_json::Value`: its variants told apart, and what each holds handed out; a number is
/// written by `serde_json::Number`'s `to_string`.
#[verifier::external_body]
fn open_value(v: &serde_json::Value) -> (r: Level<'_>)
    ensures
        level_tree(r) == value_tree(*v),
{
    match v {
        serde_json::Value::Object(m) => Level::Object(
            m.iter().map(|(k, v)| (k.as_str(), v)).collect(),
        ),
        serde_json::Value::Array(a) => Level::Array(a.iter().collect()),
        serde_json::Value::String(s) => Level::Leaf(Scalar::Text(s.clone())),
        serde_json::Value::Number(n) => Level::Leaf(Scalar::Number(n.to_string())),
        serde_json::Value::Bool(b) => Level::Leaf(Scalar::Bool(*b)),
        serde_json::Value::Null => Level::Leaf(Scalar::Null),
    }
}

/// An entry of an object, and an item of an array, is less than the whole.
proof fn lemma_entries_less(t: NodeV)
    ensures
        t matches NodeV::Object(es) ==> forall|i: int|
            0 <= i < es.len() ==> decreases_to!(t => (#[trigger] es[i]).1),
        t matches NodeV::Array(items) ==> forall|i: int|
            0 <= i < items.len() ==> decreases_to!(t => #[trigger] items[i]),
{
    match t {
        NodeV::Object(es) => {
            assert forall|i: int| 0 <= i < es.len() implies decreases_to!(
                t => (#[trigger] es[i]).1
            ) by {
                assert(decreases_to!(es => es[i]));
            }
        },
        NodeV::Array(items) => {
            assert forall|i: int| 0 <= i < items.len() implies decreases_to!(
                t => #[trigger] items[i]
            ) by {
                assert(decreases_to!(items => items[i]));
            }
        },
        NodeV::Leaf(_) => {},
    }
}

/// A value all the way down.
fn grow(v: &serde_json::Value) -> (r: Node)
    ensures
        r.model() == value_tree(*v),
    decreases value_tree(*v),
{
    let ghost t = value_tree(*v);
    proof {
        lemma_entries_less(t);
    }
    match open_value(v) {
        Level::Object(es) => {
            let mut out: Vec<(String, Node)> = Vec::new();
            let mut i: usize = 0;
            while i < es.len()
                invariant
                    t == value_tree(*v),
                    t == level_tree(Level::Object(es)),
                    t matches NodeV::Object(es) ==> forall|i: int|
                        0 <= i < es.len() ==> decreases_to!(t => (#[trigger] es[i]).1),
                    i == out@.len(),
                    i <= es@.len(),
                    forall|k: int|
                        0 <= k < i ==> (#[trigger] out@[k]).0@ == es@[k].0@ && out@[k].1.model()
                            == value_tree(*es@[k].1),
                decreases es@.len() - i,
            {
                assert(t->Object_0[i as int].1 == value_tree(*es@[i as int].1));
                let child = grow(es[i].1);
                out.push((es[i].0.to_string(), child));
                i = i + 1;
            }
            let r = Node::Object(out);
            assert(r.model()->Object_0 =~= t->Object_0);
            r
        },
        Level::Array(items) => {
            let mut out: Vec<Node> = Vec::new();
            let mut i: usize = 0;
            while i < items.len()
                invariant
                    t == value_tree(*v),
                    t == level_tree(Level::Array(items)),
                    t matches NodeV::Array(items) ==> forall|i: int|
                        0 <= i < items.len() ==> decreases_to!(t => #[trigger] items[i]),
                    i == out@.len(),
                    i <= items@.len(),
                    forall|k: int|
                        0 <= k < i ==> (#[trigger] out@[k]).model() == value_tree(*items@[k]),
                decreases items@.len() - i,
            {
                assert(t->Array_0[i as int] == value_tree(*items@[i as int]));
                let child = grow(items[i]);
                out.push(child);
                i = i + 1;
            }
            let r = Node::Array(out);
            assert(r.model()->Array_0 =~= t->Array_0);
            r
        },
        Level::Leaf(s) => Node::Leaf(s),
    }
}

/// A document laid out over lines, where it is accepted.
pub(crate) fn pretty_text(text: &str) -> (r: Option<String>)
    ensures
        match r {
            Some(s) => json_pretty(text@) == Some(s@),
            None => json_pretty(text@) is None,
        },
{
    match read_value(text) {
        Ok(v) => pretty_value(&v),
        Err(_) => None,
    }
}

/// What the panel starts with.
pub const SAMPLE: &'static str = "{
  \"name\": \"egui-ios\",
  \"version\": 0.35,
  \"plugins\": [\"terminal\", \"regex\", \"json\"],
  \"wasm\": true,
  \"limits\": { \"memory_mb\": 256, \"jit\": null }
}";

pub struct JsonViewer {
    pub input: String,
    pub show_tree: bool,
}

/// What is said of a document: that it is valid, or where it is not.
pub open spec fn verdict_of(fault: Option<(int, int, Seq<char>)>) -> Seq<char> {
    match fault {
        None => "✓ valid JSON"@,
        Some((line, col, why)) => "✗ line "@ + decimal_of(line as nat) + ", col "@ + decimal_of(
            col as nat,
        ) + ": "@ + why,
    }
}

/// Say where a document is refused, or that it is valid.
pub fn tell_fault(fault: Option<(usize, usize, String)>) -> (r: String)
    ensures
        r@ == verdict_of(
            match fault {
                Some(f) => Some((f.0 as int, f.1 as int, f.2@)),
                None => None,
            },
        ),
{
    match fault {
        None => "✓ valid JSON".to_string(),
        Some((line, col, why)) => {
            let a = cat("✗ line ", decimal(line).as_str());
            let b = cat(a.as_str(), ", col ");
            let c = cat(b.as_str(), decimal(col).as_str());
            let d = cat(c.as_str(), ": ");
            cat(d.as_str(), why.as_str())
        },
    }
}

impl JsonViewer {
    pub fn new() -> (r: Self)
        ensures
            r.input@ == SAMPLE@,
            r.show_tree,
    {
        JsonViewer { input: SAMPLE.to_string(), show_tree: true }
    }

    /// Whether the document is valid, and what is said of it.
    pub fn verdict(&self) -> (r: (bool, String))
        ensures
            r.0 == json_fault(self.input@) is None,
            r.1@ == verdict_of(json_fault(self.input@)),
    {
        let fault = match read_value(self.input.as_str()) {
            Ok(_) => None,
            Err(f) => Some(f),
        };
        (fault.is_none(), tell_fault(fault))
    }

    /// The document laid out over lines, where it is valid.
    pub fn formatted(&self) -> (r: Option<String>)
        ensures
            match r {
                Some(s) => json_pretty(self.input@) == Some(s@),
                None => json_pretty(self.input@) is None,
            },
            r is Some == json_fault(self.input@) is None,
    {
        pretty_text(self.input.as_str())
    }

    /// Put the document on one line; one that is not valid stays.
    pub fn minify(&mut self)
        ensures
            final(self).show_tree == old(self).show_tree,
            final(self).input@ == minified(json_compact(old(self).input@), old(self).input@),
            json_fault(old(self).input@) is Some ==> final(self).input@ == old(self).input@,
    {
        let compact = match read_value(self.input.as_str()) {
            Ok(v) => compact_value(&v),
            Err(_) => None,
        };
        self.take_compact(compact);
    }

    /// Take a compact form of the document, where there is one.
    pub fn take_compact(&mut self, compact: Option<String>)
        ensures
            final(self).show_tree == old(self).show_tree,
            final(self).input@ == minified(
                match compact {
                    Some(s) => Some(s@),
                    None => None,
                },
                old(self).input@,
            ),
    {
        if let Some(s) = compact {
            self.input = s;
        }
    }
}

/// A document's compact form, or the document where it has none.
pub open spec fn minified(compact: Option<Seq<char>>, text: Seq<char>) -> Seq<char> {
    match compact {
        Some(s) => s,
        None => text,
    }
}

/// Label of an object or an array: its key and how many entries it has.
pub open spec fn summary_of(key: Seq<char>, n: nat, object: bool) -> Seq<char> {
    if object {
        key + "  {"@ + decimal_of(n) + "}"@
    } else {
        key + "  ["@ + decimal_of(n) + "]"@
    }
}

/// Label an object or an array.
pub fn summary(key: &str, n: usize, object: bool) -> (r: String)
    ensures
        r@ == summary_of(key@, n as nat, object),
{
    let count = decimal(n);
    if object {
        cat(cat(cat(key, "  {").as_str(), count.as_str()).as_str(), "}")
    } else {
        cat(cat(cat(key, "  [").as_str(), count.as_str()).as_str(), "]")
    }
}

/// How a value reads: strings in quotes.
pub open spec fn scalar_text(v: ScalarV) -> Seq<char> {
    match v {
        ScalarV::Text(s) => "\""@ + s + "\""@,
        ScalarV::Number(n) => n,
        ScalarV::Bool(b) => if b {
            "true"@
        } else {
            "false"@
        },
        ScalarV::Null => "null"@,
    }
}

/// The colour a value is shown in, by its type.
pub open spec fn scalar_paint(v: ScalarV) -> Paint {
    match v {
        ScalarV::Text(_) => (166, 227, 161),
        ScalarV::Number(_) => (250, 179, 135),
        ScalarV::Bool(_) => (137, 180, 250),
        ScalarV::Null => (127, 132, 156),
    }
}

/// How a value reads, and its colour.
pub fn scalar_display(v: &Scalar) -> (r: (String, Paint))
    ensures
        r.0@ == scalar_text(v@),
        r.1 == scalar_paint(v@),
{
    match v {
        Scalar::Text(s) => (cat(cat("\"", s.as_str()).as_str(), "\""), (166, 227, 161)),
        Scalar::Number(n) => (n.clone(), (250, 179, 135)),
        Scalar::Bool(b) => (
            if *b {
                "true".to_string()
            } else {
                "false".to_string()
            },
            (137, 180, 250),
        ),
        Scalar::Null => ("null".to_string(), (127, 132, 156)),
    }
}

/// A row of the tree: its label; the value of one without entries, with its colour; whether it
/// starts out open; and the rows under it.
pub struct TreeRow {
    pub label: String,
    pub value: Option<(String, Paint)>,
    pub open: bool,
    pub rows: Vec<TreeRow>,
}

/// Model of a row.
pub struct RowV {
    pub label: Seq<char>,
    pub value: Option<(Seq<char>, Paint)>,
    pub open: bool,
    pub rows: Seq<RowV>,
}

impl TreeRow {
    pub open spec fn model(self) -> RowV
        decreases self,
    {
        RowV {
            label: self.label@,
            value: match self.value {
                Some((text, paint)) => Some((text@, paint)),
                None => None,
            },
            open: self.open,
            rows: Seq::new(
                self.rows@.len(),
                |i: int|
                    if 0 <= i < self.rows@.len() {
                        self.rows@[i].model()
                    } else {
                        blank_row()
                    },
            ),
        }
    }
}

pub open spec fn blank_row() -> RowV {
    RowV { label: Seq::empty(), value: None, open: false, rows: Seq::empty() }
}

/// The row of a value under a key. An object's entries stand under their keys, an array's items
/// under their indices, and all of them start out closed.
pub open spec fn row_of(t: NodeV, key: Seq<char>, open: bool) -> RowV
    decreases t,
{
    match t {
        NodeV::Object(es) => RowV {
            label: summary_of(key, es.len(), true),
            value: None,
            open,
            rows: Seq::new(
                es.len(),
                |i: int|
                    if 0 <= i < es.len() {
                        row_of(es[i].1, es[i].0, false)
                    } else {
                        blank_row()
                    },
            ),
        },
        NodeV::Array(items) => RowV {
            label: summary_of(key, items.len(), false),
            value: None,
            open,
            rows: Seq::new(
                items.len(),
                |i: int|
                    if 0 <= i < items.len() {
                        row_of(items[i], decimal_of(i as nat), false)
                    } else {
                        blank_row()
                    },
            ),
        },
        NodeV::Leaf(v) => RowV {
            label: key + ":"@,
            value: Some((scalar_text(v), scalar_paint(v))),
            open: false,
            rows: Seq::empty(),
        },
    }
}

/// The row of a value under a key.
pub fn tree_row(node: &Node, key: &str, open: bool) -> (r: TreeRow)
    ensures
        r.model() == row_of(node.model(), key@, open),
    decreases node,
{
    match node {
        Node::Object(es) => {
            let mut rows: Vec<TreeRow> = Vec::new();
            let mut i: usize = 0;
            while i < es.len()
                invariant
                    *node == Node::Object(*es),
                    i == rows@.len(),
                    i <= es@.len(),
                    forall|k: int|
                        0 <= k < i ==> (#[trigger] rows@[k]).model() == row_of(
                            es@[k].1.model(),
                            es@[k].0@,
                            false,
                        ),
                decreases es@.len() - i,
            {
                assert(decreases_to!(node->Object_0 => node->Object_0[i as int]));
                assert(decreases_to!(*node => node->Object_0));
                rows.push(tree_row(&es[i].1, es[i].0.as_str(), false));
                i = i + 1;
            }
            let r = TreeRow { label: summary(key, es.len(), true), value: None, open, rows };
            assert(r.model().rows =~= row_of(node.model(), key@, open).rows);
            r
        },
        Node::Array(items) => {
            let mut rows: Vec<TreeRow> = Vec::new();
            let mut i: usize = 0;
            while i < items.len()
                invariant
                    *node == Node::Array(*items),
                    i == rows@.len(),
                    i <= items@.len(),
                    forall|k: int|
                        0 <= k < i ==> (#[trigger] rows@[k]).model() == row_of(
                            items@[k].model(),
                            decimal_of(k as nat),
                            false,
                        ),
                decreases items@.len() - i,
            {
                assert(decreases_to!(node->Array_0 => node->Array_0[i as int]));
                assert(decreases_to!(*node => node->Array_0));
                rows.push(tree_row(&items[i], decimal(i).as_str(), false));
                i = i + 1;
            }
            let r = TreeRow { label: summary(key, items.len(), false), value: None, open, rows };
            assert(r.model().rows =~= row_of(node.model(), key@, open).rows);
            r
        },
        Node::Leaf(v) => {
            let r = TreeRow {
                label: cat(key, ":"),
                value: Some(scalar_display(v)),
                open: false,
                rows: Vec::new(),
            };
            assert(r.model().rows =~= Seq::<RowV>::empty());
            r
        },
    }
}

impl JsonViewer {
    /// The document as a tree, its root open; none where it is not valid.
    pub fn tree(&self) -> (r: Option<TreeRow>)
        ensures
            r is Some == json_fault(self.input@) is None,
            r is Some ==> (r->0).model() == row_of(json_tree(self.input@)->0, "root"@, true),
    {
        match read_value(self.input.as_str()) {
            Ok(v) => Some(tree_row(&grow(&v), "root", true)),
            Err(_) => None,
        }
    }
}

} // verus!

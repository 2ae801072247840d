//! The shapes that an attribute's value can have.

use vstd::prelude::*;
use vstd::string::StringExecFns;
use crate::yaml::{Node, Tree};

verus! {

/// The value of one attribute.
#[derive(Debug, PartialEq, Eq)]
pub enum Value {
    /// A single string.
    Scalar(String),
    /// Entries in the order of the source; they need not be of one shape.
    List(Vec<Value>),
    /// Alternatives, written in the source as a sequence under the key `or`.
    OrGroup(Vec<String>),
    /// The key was written without a value.
    Null,
    /// Any other value: a number, a boolean, a mapping without alternatives.
    Opaque,
}

/// What a [`Value`] stands for in contracts.
pub ghost enum Shape {
    Scalar(Seq<char>),
    List(Seq<Shape>),
    OrGroup(Seq<Seq<char>>),
    Null,
    Opaque,
}

/// The views of a run of strings, one by one.
pub open spec fn texts(strings: Seq<String>) -> Seq<Seq<char>> {
    Seq::new(strings.len(), |i: int| strings[i]@)
}

/// The shape that a value stands for.
pub open spec fn shape(value: Value) -> Shape
    decreases value,
{
    match value {
        Value::Scalar(s) => Shape::Scalar(s@),
        Value::List(items) => Shape::List(
            Seq::new(items@.len(), |i: int| if 0 <= i < items@.len() { shape(items@[i]) } else { Shape::Null }),
        ),
        Value::OrGroup(choices) => Shape::OrGroup(texts(choices@)),
        Value::Null => Shape::Null,
        Value::Opaque => Shape::Opaque,
    }
}

impl View for Value {
    type V = Shape;

    open spec fn view(&self) -> Shape {
        shape(*self)
    }
}

/// The views of a run of values, one by one.
pub open spec fn shapes(values: Seq<Value>) -> Seq<Shape> {
    Seq::new(values.len(), |i: int| values[i]@)
}

/// The view of a list is the views of its items.
pub proof fn lemma_list_view(items: Vec<Value>)
    ensures
        Value::List(items)@ == Shape::List(shapes(items@)),
{
    assert(Value::List(items)@->List_0 =~= shapes(items@));
}

/// The key under which a mapping holds alternatives.
pub open spec fn or_key() -> Seq<char> {
    seq!['o', 'r']
}

/// The value of the first entry that has the given key.
pub open spec fn find<K, V>(entries: Seq<(K, V)>, key: K) -> Option<V>
    decreases entries.len(),
{
    if entries.len() == 0 {
        None
    } else if entries[0].0 == key {
        Some(entries[0].1)
    } else {
        find(entries.drop_first(), key)
    }
}

/// The strings among the items, in their order; items of other shapes are left out.
pub open spec fn strings_among(items: Seq<Tree>) -> Seq<Seq<char>>
    decreases items.len(),
{
    if items.len() == 0 {
        Seq::empty()
    } else {
        match items.last() {
            Tree::String(s) => strings_among(items.drop_last()).push(s),
            _ => strings_among(items.drop_last()),
        }
    }
}

/// The shape of a YAML node as an attribute's value. A string is a scalar, a
/// sequence a list of the shapes of its items, an empty value null. A mapping
/// that gives a sequence under the key `or` is a group of alternatives, which
/// are the strings of that sequence. Everything else is opaque.
pub open spec fn shape_of(tree: Tree) -> Shape
    decreases tree,
{
    match tree {
        Tree::String(s) => Shape::Scalar(s),
        Tree::Array(items) => Shape::List(
            Seq::new(items.len(), |i: int| if 0 <= i < items.len() { shape_of(items[i]) } else { Shape::Null }),
        ),
        Tree::Hash(entries) => match find(entries, Tree::String(or_key())) {
            Some(Tree::Array(choices)) => Shape::OrGroup(strings_among(choices)),
            _ => Shape::Opaque,
        },
        Tree::Null => Shape::Null,
        _ => Shape::Opaque,
    }
}

/// `find` skips a prefix that does not hold the key.
pub proof fn lemma_find_skip<K, V>(entries: Seq<(K, V)>, key: K, n: int)
    requires
        0 <= n <= entries.len(),
        forall|j: int| 0 <= j < n ==> entries[j].0 != key,
    ensures
        find(entries, key) == find(entries.skip(n), key),
    decreases n,
{
    if n == 0 {
        assert(entries.skip(0) =~= entries);
    } else {
        lemma_find_skip(entries.drop_first(), key, n - 1);
        assert(entries.drop_first().skip(n - 1) =~= entries.skip(n));
    }
}

/// Where `find` finds nothing, no entry has the key.
pub proof fn lemma_find_none<K, V>(entries: Seq<(K, V)>, key: K)
    requires
        find(entries, key) is None,
    ensures
        forall|i: int| 0 <= i < entries.len() ==> entries[i].0 != key,
    decreases entries.len(),
{
    if entries.len() > 0 {
        let rest = entries.drop_first();
        lemma_find_none(rest, key);
        assert forall|i: int| 0 <= i < entries.len() implies entries[i].0 != key by {
            if i > 0 {
                assert(entries[i] == rest[i - 1]);
            }
        }
    }
}

/// The value that a mapping gives under the key `or`, if it has that key.
fn alternatives_entry(entries: &Vec<(Node, Node)>) -> (found: Option<usize>)
    ensures
        match found {
            Some(i) => i < entries.len() && find(crate::yaml::pairs(entries@), Tree::String(or_key()))
                == Some(entries[i as int].1@),
            None => find(crate::yaml::pairs(entries@), Tree::String(or_key())) is None,
        },
{
    let key = String::from_str("or");
    proof {
        reveal_strlit("or");
        assert(key@ =~= or_key());
    }
    let ghost all = crate::yaml::pairs(entries@);
    let mut i: usize = 0;
    while i < entries.len()
        invariant
            i <= entries.len(),
            key@ == or_key(),
            all == crate::yaml::pairs(entries@),
            forall|j: int| 0 <= j < i ==> all[j].0 != Tree::String(or_key()),
        decreases entries.len() - i,
    {
        let hit = match &entries[i].0 {
            Node::String(s) => *s == key,
            _ => false,
        };
        if hit {
            proof {
                lemma_find_skip(all, Tree::String(or_key()), i as int);
            }
            return Some(i);
        }
        i += 1;
    }
    proof {
        lemma_find_skip(all, Tree::String(or_key()), all.len() as int);
    }
    None
}

impl Value {
    /// The string, where the value is a scalar.
    pub fn as_scalar(&self) -> (text: Option<&String>)
        ensures
            match text {
                Some(s) => self@ == Shape::Scalar(s@),
                None => !(self@ is Scalar),
            },
    {
        match self {
            Value::Scalar(s) => Some(s),
            _ => None,
        }
    }

    /// The items, where the value is a list.
    pub fn as_list(&self) -> (items: Option<&Vec<Value>>)
        ensures
            match items {
                Some(list) => self@ == Shape::List(shapes(list@)),
                None => !(self@ is List),
            },
    {
        match self {
            Value::List(list) => {
                proof {
                    lemma_list_view(*list);
                }
                Some(list)
            },
            _ => None,
        }
    }

    /// The alternatives, where the value is a group of them.
    pub fn as_or_group(&self) -> (choices: Option<&Vec<String>>)
        ensures
            match choices {
                Some(group) => self@ == Shape::OrGroup(texts(group@)),
                None => !(self@ is OrGroup),
            },
    {
        match self {
            Value::OrGroup(group) => Some(group),
            _ => None,
        }
    }

    /// Whether the key was written without a value.
    pub fn is_null(&self) -> (null: bool)
        ensures
            null == (self@ is Null),
    {
        match self {
            Value::Null => true,
            _ => false,
        }
    }

    /// Reads a value off a YAML node.
    pub fn from_node(node: &Node) -> (value: Value)
        ensures
            value@ == shape_of(node@),
        decreases node,
    {
        match node {
            Node::String(s) => Value::Scalar(s.clone()),
            Node::Array(items) => {
                let ghost trees = node@->Array_0;
                let mut list: Vec<Value> = Vec::new();
                let mut i: usize = 0;
                while i < items.len()
                    invariant
                        i <= items.len(),
                        list@.len() == i,
                        node == Node::Array(*items),
                        trees == node@->Array_0,
                        forall|j: int| 0 <= j < i ==> (#[trigger] list@[j])@ == shape_of(trees[j]),
                    decreases items.len() - i,
                {
                    proof {
                        assert(trees[i as int] == items@[i as int]@);
                    }
                    let item = Value::from_node(&items[i]);
                    list.push(item);
                    i += 1;
                }
                let value = Value::List(list);
                proof {
                    let got = value@->List_0;
                    let want = shape_of(node@)->List_0;
                    assert(got.len() == want.len());
                    assert forall|j: int| 0 <= j < got.len() implies got[j] == want[j] by {
                        assert(got[j] == list@[j]@);
                        assert(want[j] == shape_of(trees[j]));
                    }
                    assert(got =~= want);
                }
                value
            },
            Node::Hash(entries) => {
                proof {
                    assert(node@->Hash_0 =~= crate::yaml::pairs(entries@));
                }
                match alternatives_entry(entries) {
                    Some(i) => match &entries[i].1 {
                        Node::Array(choices) => {
                            proof {
                                assert(entries@[i as int].1@->Array_0 =~= crate::yaml::forest(choices@));
                            }
                            Value::OrGroup(strings_of(choices))
                        },
                        _ => Value::Opaque,
                    },
                    None => Value::Opaque,
                }
            },
            Node::Null => Value::Null,
            _ => Value::Opaque,
        }
    }
}

/// Copies the strings among the items, in their order.
fn strings_of(items: &Vec<Node>) -> (strings: Vec<String>)
    ensures
        texts(strings@) == strings_among(crate::yaml::forest(items@)),
{
    let ghost all = crate::yaml::forest(items@);
    let mut strings: Vec<String> = Vec::new();
    let mut i: usize = 0;
    assert(all.take(0) =~= Seq::<Tree>::empty());
    assert(texts(strings@) =~= Seq::<Seq<char>>::empty());
    while i < items.len()
        invariant
            i <= items.len(),
            all == crate::yaml::forest(items@),
            texts(strings@) == strings_among(all.take(i as int)),
        decreases items.len() - i,
    {
        let ghost before = texts(strings@);
        assert(all.take(i + 1).drop_last() =~= all.take(i as int));
        assert(all.take(i + 1).last() == items@[i as int]@);
        match &items[i] {
            Node::String(s) => {
                strings.push(s.clone());
                assert(texts(strings@) =~= before.push(s@));
            },
            _ => {},
        }
        i += 1;
    }
    assert(all.take(items.len() as int) =~= all);
    strings
}

} // verus!

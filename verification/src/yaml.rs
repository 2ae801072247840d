//! The tree of a YAML document as plain values.

use vstd::prelude::*;
use yaml_rust::{Yaml, YamlLoader};

verus! {

/// A node of a YAML document, one variant for each shape that `yaml_rust::Yaml`
/// has. A mapping is held as its entries in the order of the source.
#[derive(Debug, PartialEq, Eq)]
pub enum Node {
    /// A float, kept as the text that was read.
    Real(String),
    Integer(i64),
    String(String),
    Boolean(bool),
    Array(Vec<Node>),
    Hash(Vec<(Node, Node)>),
    Alias(usize),
    Null,
    BadValue,
}

/// What a [`Node`] stands for in contracts.
pub ghost enum Tree {
    Real(Seq<char>),
    Integer(int),
    String(Seq<char>),
    Boolean(bool),
    Array(Seq<Tree>),
    Hash(Seq<(Tree, Tree)>),
    Alias(nat),
    Null,
    BadValue,
}

/// The tree that a node stands for.
pub open spec fn tree_of(node: Node) -> Tree
    decreases node,
{
    match node {
        Node::Real(s) => Tree::Real(s@),
        Node::Integer(i) => Tree::Integer(i as int),
        Node::String(s) => Tree::String(s@),
        Node::Boolean(b) => Tree::Boolean(b),
        Node::Array(items) => Tree::Array(
            Seq::new(items@.len(), |i: int| if 0 <= i < items@.len() { tree_of(items@[i]) } else { Tree::Null }),
        ),
        Node::Hash(entries) => Tree::Hash(
            Seq::new(
                entries@.len(),
                |i: int|
                    if 0 <= i < entries@.len() {
                        (tree_of(entries@[i].0), tree_of(entries@[i].1))
                    } else {
                        (Tree::Null, Tree::Null)
                    },
            ),
        ),
        Node::Alias(n) => Tree::Alias(n as nat),
        Node::Null => Tree::Null,
        Node::BadValue => Tree::BadValue,
    }
}

impl View for Node {
    type V = Tree;

    open spec fn view(&self) -> Tree {
        tree_of(*self)
    }
}

/// The views of a run of nodes, one by one.
pub open spec fn forest(nodes: Seq<Node>) -> Seq<Tree> {
    Seq::new(nodes.len(), |i: int| nodes[i]@)
}

/// The views of the entries of a mapping, one by one.
pub open spec fn pairs(entries: Seq<(Node, Node)>) -> Seq<(Tree, Tree)> {
    Seq::new(entries.len(), |i: int| (entries[i].0@, entries[i].1@))
}

/// The view of a mapping node is the views of its entries.
pub proof fn lemma_hash_view(entries: Vec<(Node, Node)>)
    ensures
        Node::Hash(entries)@ == Tree::Hash(pairs(entries@)),
{
    assert(Node::Hash(entries)@->Hash_0 =~= pairs(entries@));
}

/// `yaml_rust::Yaml`, the loader's own tree. Nothing is known of a value of
/// it until it has been moved into a [`Node`].
#[verifier::external_type_specification]
#[verifier::external_body]
pub struct ExYaml(Yaml);

/// The documents that `yaml_rust::YamlLoader::load_from_str` reads from a
/// text, or `None` where it reports a scan error.
pub uninterp spec fn yaml_documents(source: Seq<char>) -> Option<Seq<Tree>>;

/// Moves a `yaml_rust::Yaml` into a [`Node`], variant for variant and field
/// for field; the entries of a mapping come in the order in which its
/// `LinkedHashMap` hands them out, which is the order of the source. No
/// contract: it serves [`load_yaml`] alone.
#[verifier::external_body]
fn node_of(yaml: Yaml) -> Node {
    match yaml {
        Yaml::Real(s) => Node::Real(s),
        Yaml::Integer(i) => Node::Integer(i),
        Yaml::String(s) => Node::String(s),
        Yaml::Boolean(b) => Node::Boolean(b),
        Yaml::Array(a) => Node::Array(a.into_iter().map(node_of).collect()),
        Yaml::Hash(h) => Node::Hash(h.into_iter().map(|(k, v)| (node_of(k), node_of(v))).collect()),
        Yaml::Alias(n) => Node::Alias(n),
        Yaml::Null => Node::Null,
        Yaml::BadValue => Node::BadValue,
    }
}

/// Calls `yaml_rust::YamlLoader::load_from_str`. Nothing is proved of the
/// loader: the contract only gives its result a name, [`yaml_documents`], on
/// the ground that the loader reads nothing but the text it is given. A scan
/// error becomes `None`. That the loader returns on every text is taken for
/// granted.
#[verifier::external_body]
pub(crate) fn load_yaml(source: &str) -> (docs: Option<Vec<Node>>)
    ensures
        yaml_documents(source@) == match docs {
            Some(nodes) => Some(forest(nodes@)),
            None => None,
        },
{
    match YamlLoader::load_from_str(source) {
        Ok(docs) => Some(docs.into_iter().map(node_of).collect()),
        Err(_) => None,
    }
}

} // verus!

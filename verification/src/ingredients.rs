//! The attributes of a recipe, and the rules by which filters keep or drop it.

use vstd::prelude::*;
use crate::filters::{Filter, Filters};
use crate::value::{find, lemma_find_skip, lemma_list_view, shape_of, shapes, texts, Shape, Value};
use crate::yaml::{forest, load_yaml, pairs, yaml_documents, Node, Tree};

verus! {

/// One attribute in contracts: its name and the shape of its value.
pub type Attribute = (Seq<char>, Shape);

/// No two attributes have the same name.
pub open spec fn distinct_keys(attrs: Seq<Attribute>) -> bool {
    forall|i: int, j: int| 0 <= i < j < attrs.len() ==> attrs[i].0 != attrs[j].0
}

/// The attributes with one more written: a name that is new goes to the end,
/// a name that is there keeps its place and takes the new value.
pub open spec fn put(attrs: Seq<Attribute>, key: Seq<char>, value: Shape) -> Seq<Attribute> {
    if find(attrs, key) is None {
        attrs.push((key, value))
    } else {
        Seq::new(attrs.len(), |i: int| if attrs[i].0 == key { (key, value) } else { attrs[i] })
    }
}

/// The attributes that the entries of a mapping give, written one after the
/// other. An entry whose key is not a string gives none.
pub open spec fn attributes_of(entries: Seq<(Tree, Tree)>) -> Seq<Attribute>
    decreases entries.len(),
{
    if entries.len() == 0 {
        Seq::empty()
    } else {
        let before = attributes_of(entries.drop_last());
        match entries.last().0 {
            Tree::String(key) => put(before, key, shape_of(entries.last().1)),
            _ => before,
        }
    }
}

/// The attributes of an attribute block that was read as these documents: those
/// of the last document, where there is one and it is a mapping.
pub open spec fn attributes_of_documents(documents: Seq<Tree>) -> Option<Seq<Attribute>> {
    if documents.len() == 0 {
        None
    } else {
        match documents.last() {
            Tree::Hash(entries) => Some(attributes_of(entries)),
            _ => None,
        }
    }
}

/// The attributes of an attribute block given as text, where the text reads as
/// YAML and its last document is a mapping.
pub open spec fn attributes_of_text(text: Seq<char>) -> Option<Seq<Attribute>> {
    match yaml_documents(text) {
        Some(documents) => attributes_of_documents(documents),
        None => None,
    }
}

/// Some item of the list is the scalar `text`.
pub open spec fn has_text(items: Seq<Shape>, text: Seq<char>) -> bool {
    exists|i: int| 0 <= i < items.len() && items[i] == Shape::Scalar(text)
}

/// An exclusion filter fires on the attributes, and so drops the recipe.
/// Without the key it never fires. A filter without a value fires on every
/// value but null. A filter with a value fires on the scalar equal to it and on
/// a list that holds it as a scalar; it does not reach into alternatives.
/// Strings are compared as they are: upper and lower case differ.
pub open spec fn fires(attrs: Seq<Attribute>, filter: Filter) -> bool {
    match find(attrs, filter.key) {
        None => false,
        Some(shape) => match filter.value {
            None => !(shape is Null),
            Some(wanted) => match shape {
                Shape::Scalar(s) => s == wanted,
                Shape::List(items) => has_text(items, wanted),
                _ => false,
            },
        },
    }
}

/// An inclusion filter is satisfied by the attributes. The key must be there.
/// A filter without a value is satisfied by every value but null. A filter
/// with a value is satisfied by the scalar equal to it, by a list that holds
/// it as a scalar, by alternatives of which it is one, and by an opaque
/// value; null does not satisfy it.
pub open spec fn satisfied(attrs: Seq<Attribute>, filter: Filter) -> bool {
    match find(attrs, filter.key) {
        None => false,
        Some(shape) => match filter.value {
            None => !(shape is Null),
            Some(wanted) => match shape {
                Shape::Scalar(s) => s == wanted,
                Shape::List(items) => has_text(items, wanted),
                Shape::OrGroup(choices) => choices.contains(wanted),
                Shape::Null => false,
                Shape::Opaque => true,
            },
        },
    }
}

/// The recipe is kept: no exclusion filter fires and every inclusion filter
/// is satisfied.
pub open spec fn matches(attrs: Seq<Attribute>, inclusion: Seq<Filter>, exclusion: Seq<Filter>) -> bool {
    &&& forall|i: int| 0 <= i < exclusion.len() ==> !fires(attrs, #[trigger] exclusion[i])
    &&& forall|i: int| 0 <= i < inclusion.len() ==> satisfied(attrs, #[trigger] inclusion[i])
}

/// The attributes of a recipe: names with their values, in the order of the
/// source, no name twice.
#[derive(Debug)]
pub struct Ingredients {
    entries: Vec<(String, Value)>,
}

/// The attributes that a run of entries stands for, one by one.
pub open spec fn attributes(entries: Seq<(String, Value)>) -> Seq<Attribute> {
    Seq::new(entries.len(), |i: int| (entries[i].0@, entries[i].1@))
}

impl View for Ingredients {
    type V = Seq<Attribute>;

    closed spec fn view(&self) -> Seq<Attribute> {
        attributes(self.entries@)
    }
}

/// The attributes that an optional value holds.
pub open spec fn view_of(made: Option<Ingredients>) -> Option<Seq<Attribute>> {
    match made {
        Some(ingredients) => Some(ingredients@),
        None => None,
    }
}

impl Ingredients {
    /// The number of attributes.
    pub fn len(&self) -> (n: usize)
        ensures
            n == self@.len(),
    {
        self.entries.len()
    }

    /// The name of the attribute at a position, counted from 0 in the order of the source.
    pub fn key(&self, index: usize) -> (key: &String)
        requires
            index < self@.len(),
        ensures
            key@ == self@[index as int].0,
    {
        &self.entries[index].0
    }

    /// The value of the attribute at a position, counted from 0 in the order of the source.
    pub fn value(&self, index: usize) -> (value: &Value)
        requires
            index < self@.len(),
        ensures
            value@ == self@[index as int].1,
    {
        &self.entries[index].1
    }

    /// The value written under a name, if the name is there.
    pub fn get(&self, key: &String) -> (value: Option<&Value>)
        ensures
            match value {
                Some(v) => find(self@, key@) == Some(v@),
                None => find(self@, key@) is None,
            },
    {
        let mut i: usize = 0;
        while i < self.entries.len()
            invariant
                i <= self.entries.len(),
                forall|j: int| 0 <= j < i ==> self@[j].0 != key@,
            decreases self.entries.len() - i,
        {
            if self.entries[i].0 == *key {
                proof {
                    lemma_find_skip(self@, key@, i as int);
                }
                return Some(&self.entries[i].1);
            }
            i += 1;
        }
        proof {
            lemma_find_skip(self@, key@, self@.len() as int);
        }
        None
    }

    /// Writes one attribute: see [`put`].
    fn write(&mut self, key: String, value: Value)
        requires
            distinct_keys(old(self)@),
        ensures
            final(self)@ == put(old(self)@, key@, value@),
            distinct_keys(final(self)@),
    {
        let ghost before = self@;
        let mut i: usize = 0;
        while i < self.entries.len()
            invariant
                i <= self.entries.len(),
                self@ == before,
                before == old(self)@,
                distinct_keys(before),
                forall|j: int| 0 <= j < i ==> before[j].0 != key@,
            decreases self.entries.len() - i,
        {
            if self.entries[i].0 == key {
                proof {
                    lemma_find_skip(before, key@, i as int);
                    assert(before.skip(i as int)[0] == before[i as int]);
                    assert(find(before, key@) is Some);
                }
                self.entries[i] = (key, value);
                assert(self@ =~= put(before, key@, value@));
                return ;
            }
            i += 1;
        }
        proof {
            lemma_find_skip(before, key@, before.len() as int);
        }
        self.entries.push((key, value));
        assert(self@ =~= put(before, key@, value@));
    }

    /// Reads the attributes off a YAML node, which must be a mapping.
    pub fn from_node(node: &Node) -> (made: Option<Ingredients>)
        ensures
            view_of(made) == match node@ {
                Tree::Hash(entries) => Some(attributes_of(entries)),
                _ => None,
            },
            made is Some ==> distinct_keys(made->0@),
    {
        match node {
            Node::Hash(entries) => {
                let ghost all = pairs(entries@);
                proof {
                    crate::yaml::lemma_hash_view(*entries);
                }
                let mut made = Ingredients { entries: Vec::new() };
                assert(made@ =~= Seq::<Attribute>::empty());
                assert(all.take(0) =~= Seq::<(Tree, Tree)>::empty());
                let mut i: usize = 0;
                while i < entries.len()
                    invariant
                        i <= entries.len(),
                        all == pairs(entries@),
                        made@ == attributes_of(all.take(i as int)),
                        distinct_keys(made@),
                    decreases entries.len() - i,
                {
                    proof {
                        assert(all.take(i + 1).drop_last() =~= all.take(i as int));
                        assert(all.take(i + 1).last() == (entries@[i as int].0@, entries@[i as int].1@));
                    }
                    match &entries[i].0 {
                        Node::String(key) => {
                            let value = Value::from_node(&entries[i].1);
                            made.write(key.clone(), value);
                        },
                        _ => {},
                    }
                    i += 1;
                }
                assert(all.take(entries.len() as int) =~= all);
                Some(made)
            },
            _ => None,
        }
    }
}

impl Ingredients {
    /// Reads the attributes off the documents of an attribute block: the last
    /// document counts, and it must be a mapping.
    pub fn from_documents(documents: &Vec<Node>) -> (made: Option<Ingredients>)
        ensures
            view_of(made) == attributes_of_documents(forest(documents@)),
            made is Some ==> distinct_keys(made->0@),
    {
        if documents.len() == 0 {
            None
        } else {
            Ingredients::from_node(&documents[documents.len() - 1])
        }
    }

    /// Reads the attributes off the text of an attribute block. Text that is no
    /// YAML, that is empty, or whose last document is no mapping gives `None`.
    pub fn new(text: &str) -> (made: Option<Ingredients>)
        ensures
            view_of(made) == attributes_of_text(text@),
            made is Some ==> distinct_keys(made->0@),
    {
        match load_yaml(text) {
            Some(documents) => Ingredients::from_documents(&documents),
            None => None,
        }
    }

    /// Whether an exclusion filter fires on these attributes.
    pub fn excluded_by(&self, pair: &(String, Option<String>)) -> (fired: bool)
        ensures
            fired == fires(self@, crate::filters::filter_of(*pair)),
    {
        match self.get(&pair.0) {
            None => false,
            Some(value) => match &pair.1 {
                None => !value.is_null(),
                Some(wanted) => match value {
                    Value::Scalar(s) => *s == *wanted,
                    Value::List(items) => {
                        proof {
                            lemma_list_view(*items);
                        }
                        list_holds(items, wanted)
                    },
                    _ => false,
                },
            },
        }
    }

    /// Whether these attributes satisfy an inclusion filter.
    pub fn included_by(&self, pair: &(String, Option<String>)) -> (met: bool)
        ensures
            met == satisfied(self@, crate::filters::filter_of(*pair)),
    {
        match self.get(&pair.0) {
            None => false,
            Some(value) => match &pair.1 {
                None => !value.is_null(),
                Some(wanted) => match value {
                    Value::Scalar(s) => *s == *wanted,
                    Value::List(items) => {
                        proof {
                            lemma_list_view(*items);
                        }
                        list_holds(items, wanted)
                    },
                    Value::OrGroup(choices) => choices_hold(choices, wanted),
                    Value::Null => false,
                    Value::Opaque => true,
                },
            },
        }
    }

    /// Decides whether the recipe is kept: no exclusion filter may fire, and
    /// every inclusion filter must be satisfied.
    pub fn filter(&self, inclusion_filters: &Filters, exclusion_filters: &Filters) -> (keep: bool)
        ensures
            keep == matches(self@, inclusion_filters@, exclusion_filters@),
    {
        let mut i: usize = 0;
        while i < exclusion_filters.len()
            invariant
                i <= exclusion_filters@.len(),
                forall|j: int| 0 <= j < i ==> !fires(self@, #[trigger] exclusion_filters@[j]),
            decreases exclusion_filters@.len() - i,
        {
            if self.excluded_by(exclusion_filters.get(i)) {
                return false;
            }
            i += 1;
        }
        let mut k: usize = 0;
        while k < inclusion_filters.len()
            invariant
                k <= inclusion_filters@.len(),
                forall|j: int| 0 <= j < k ==> satisfied(self@, #[trigger] inclusion_filters@[j]),
            decreases inclusion_filters@.len() - k,
        {
            if !self.included_by(inclusion_filters.get(k)) {
                return false;
            }
            k += 1;
        }
        true
    }
}

/// Whether some item of a list is the scalar `wanted`.
fn list_holds(items: &Vec<Value>, wanted: &String) -> (held: bool)
    ensures
        held == has_text(shapes(items@), wanted@),
{
    let mut i: usize = 0;
    while i < items.len()
        invariant
            i <= items.len(),
            forall|j: int| 0 <= j < i ==> shapes(items@)[j] != Shape::Scalar(wanted@),
        decreases items.len() - i,
    {
        let hit = match &items[i] {
            Value::Scalar(s) => *s == *wanted,
            _ => false,
        };
        if hit {
            assert(shapes(items@)[i as int] == Shape::Scalar(wanted@));
            return true;
        }
        i += 1;
    }
    false
}

/// Whether `wanted` is one of the alternatives.
fn choices_hold(choices: &Vec<String>, wanted: &String) -> (held: bool)
    ensures
        held == texts(choices@).contains(wanted@),
{
    let mut i: usize = 0;
    while i < choices.len()
        invariant
            i <= choices.len(),
            forall|j: int| 0 <= j < i ==> texts(choices@)[j] != wanted@,
        decreases choices.len() - i,
    {
        if choices[i] == *wanted {
            assert(texts(choices@)[i as int] == wanted@);
            return true;
        }
        i += 1;
    }
    false
}

} // verus!

//! What holds of the filters on every recipe.

use vstd::prelude::*;
use crate::filters::{Filter, Filters};
use crate::ingredients::{attributes_of, distinct_keys, fires, has_text, put, satisfied, Attribute, Ingredients};
use crate::markdown::{front_matter, Mark};
use crate::recipe::recipe_of;
use crate::value::{find, lemma_find_none, Shape};
use crate::yaml::{yaml_documents, Tree};

verus! {

/// To write an attribute keeps the names apart.
pub proof fn lemma_put_keeps_keys_distinct(attrs: Seq<Attribute>, key: Seq<char>, value: Shape)
    requires
        distinct_keys(attrs),
    ensures
        distinct_keys(put(attrs, key, value)),
{
    if find(attrs, key) is None {
        lemma_find_none(attrs, key);
    }
}

/// No name occurs twice among the attributes of a mapping, whatever its
/// entries are: where the entries repeat a key, the last value is kept.
pub proof fn lemma_attribute_names_are_distinct(entries: Seq<(Tree, Tree)>)
    ensures
        distinct_keys(attributes_of(entries)),
    decreases entries.len(),
{
    if entries.len() > 0 {
        lemma_attribute_names_are_distinct(entries.drop_last());
        match entries.last().0 {
            Tree::String(key) => {
                lemma_put_keeps_keys_distinct(
                    attributes_of(entries.drop_last()),
                    key,
                    crate::value::shape_of(entries.last().1),
                );
            },
            _ => {},
        }
    }
}

/// A recipe that lacks the key of an inclusion filter is dropped, whatever
/// the other filters are.
pub proof fn lemma_missing_key_is_dropped(
    attrs: Seq<Attribute>,
    inclusion: Seq<Filter>,
    exclusion: Seq<Filter>,
    i: int,
)
    requires
        0 <= i < inclusion.len(),
        find(attrs, inclusion[i].key) is None,
    ensures
        !crate::ingredients::matches(attrs, inclusion, exclusion),
{
    assert(!satisfied(attrs, inclusion[i]));
}

/// An exclusion filter without a value drops every recipe that has its key
/// with a value other than null, whatever the shape of that value is and
/// whatever the other filters are.
pub proof fn lemma_key_only_exclusion_drops(
    attrs: Seq<Attribute>,
    inclusion: Seq<Filter>,
    exclusion: Seq<Filter>,
    i: int,
)
    requires
        0 <= i < exclusion.len(),
        exclusion[i].value is None,
        find(attrs, exclusion[i].key) is Some,
        !(find(attrs, exclusion[i].key)->0 is Null),
    ensures
        !crate::ingredients::matches(attrs, inclusion, exclusion),
{
    assert(fires(attrs, exclusion[i]));
}

/// An exclusion filter with a value does not reach into alternatives: where
/// the value under its key is a group of alternatives, the filter does not
/// fire, even if its value is one of them, and the recipe is kept or dropped
/// as it is without that filter.
pub proof fn lemma_alternatives_are_not_excluded(
    attrs: Seq<Attribute>,
    inclusion: Seq<Filter>,
    exclusion: Seq<Filter>,
    key: Seq<char>,
    wanted: Seq<char>,
)
    requires
        find(attrs, key) is Some,
        find(attrs, key)->0 is OrGroup,
    ensures
        !fires(attrs, Filter { key: key, value: Some(wanted) }),
        crate::ingredients::matches(attrs, inclusion, exclusion.push(Filter { key: key, value: Some(wanted) }))
            == crate::ingredients::matches(attrs, inclusion, exclusion),
{
    let filter = Filter { key: key, value: Some(wanted) };
    let more = exclusion.push(filter);
    if crate::ingredients::matches(attrs, inclusion, exclusion) {
        assert forall|j: int| 0 <= j < more.len() implies !fires(attrs, #[trigger] more[j]) by {
            if j < exclusion.len() {
                assert(more[j] == exclusion[j]);
            }
        }
    }
    if crate::ingredients::matches(attrs, inclusion, more) {
        assert forall|j: int| 0 <= j < exclusion.len() implies !fires(attrs, #[trigger] exclusion[j]) by {
            assert(more[j] == exclusion[j]);
        }
    }
}

/// An inclusion filter with a value is satisfied by a list exactly when some
/// item of the list is that value as a scalar: one such item is enough, and
/// without one the recipe is dropped.
pub proof fn lemma_list_needs_one_item(
    attrs: Seq<Attribute>,
    exclusion: Seq<Filter>,
    key: Seq<char>,
    wanted: Seq<char>,
    items: Seq<Shape>,
)
    requires
        find(attrs, key) == Some(Shape::List(items)),
    ensures
        satisfied(attrs, Filter { key: key, value: Some(wanted) }) == has_text(items, wanted),
        crate::ingredients::matches(attrs, seq![Filter { key: key, value: Some(wanted) }], Seq::empty())
            == has_text(items, wanted),
        !has_text(items, wanted) ==> !crate::ingredients::matches(
            attrs,
            seq![Filter { key: key, value: Some(wanted) }],
            exclusion,
        ),
{
    let filter = Filter { key: key, value: Some(wanted) };
    let only = seq![filter];
    assert(only[0] == filter);
    if has_text(items, wanted) {
        assert forall|j: int| 0 <= j < only.len() implies satisfied(attrs, #[trigger] only[j]) by {
            assert(only[j] == filter);
        }
    }
}

/// To decide twice on the same attributes and the same filters is to decide
/// the same: whatever two calls of [`Ingredients::filter`] return, they agree.
pub proof fn lemma_filter_decides_once(
    ingredients: &Ingredients,
    inclusion: &Filters,
    exclusion: &Filters,
    first: bool,
    second: bool,
)
    requires
        call_ensures(Ingredients::filter, (ingredients, inclusion, exclusion), first),
        call_ensures(Ingredients::filter, (ingredients, inclusion, exclusion), second),
    ensures
        first == second,
{
}

/// The attribute block with which a document opens reads as a YAML mapping.
pub open spec fn block_is_mapping(events: Seq<Mark>) -> bool {
    match front_matter(events) {
        Some(text) => match yaml_documents(text) {
            Some(documents) => documents.len() > 0 && documents.last() is Hash,
            None => false,
        },
        None => false,
    }
}

/// A document whose attribute block does not read as a mapping is no recipe,
/// whatever the filters are: so a block that is a single scalar, an empty
/// block, a block that is no YAML, and a document without a block.
pub proof fn lemma_block_must_be_a_mapping(
    events: Seq<Mark>,
    name: Seq<char>,
    inclusion: Seq<Filter>,
    exclusion: Seq<Filter>,
)
    requires
        !block_is_mapping(events),
    ensures
        recipe_of(events, name, inclusion, exclusion) is None,
{
}

} // verus!

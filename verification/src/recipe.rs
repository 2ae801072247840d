//! A recipe read from a markdown document and held against the filters.

use vstd::prelude::*;
use crate::filters::{Filter, Filters};
use crate::ingredients::{attributes_of_text, view_of, Attribute, Ingredients};
use crate::markdown::{body_of, front_matter, front_matter_text, instructions_of, markdown_events, markdown_marks, marks, Mark, Piece};

verus! {

/// A recipe: its name, its attributes, and the body of its document.
#[derive(Debug)]
pub struct Recipe {
    /// By convention in title case.
    name: String,
    ingredients: Ingredients,
    instructions: String,
}

/// What a [`Recipe`] stands for in contracts.
pub ghost struct RecipeView {
    pub name: Seq<char>,
    pub ingredients: Seq<Attribute>,
    pub instructions: Seq<char>,
}

impl View for Recipe {
    type V = RecipeView;

    closed spec fn view(&self) -> RecipeView {
        RecipeView { name: self.name@, ingredients: self.ingredients@, instructions: self.instructions@ }
    }
}

/// The recipe that an optional value holds.
pub open spec fn recipe_view_of(made: Option<Recipe>) -> Option<RecipeView> {
    match made {
        Some(recipe) => Some(recipe@),
        None => None,
    }
}

/// The recipe that comes of a document's events once its attribute block has
/// been read. There is none where the block gave no attributes, where the
/// filters drop the attributes, or where no body opens after the block.
pub open spec fn assembled(
    events: Seq<Mark>,
    name: Seq<char>,
    attributes: Option<Seq<Attribute>>,
    inclusion: Seq<Filter>,
    exclusion: Seq<Filter>,
) -> Option<RecipeView> {
    match (attributes, instructions_of(events)) {
        (Some(attrs), Some(body)) => if crate::ingredients::matches(attrs, inclusion, exclusion) {
            Some(RecipeView { name: name, ingredients: attrs, instructions: body })
        } else {
            None
        },
        _ => None,
    }
}

/// The recipe that a document's events give under the filters: the document
/// must open with an attribute block, whose text must read as a YAML mapping.
pub open spec fn recipe_of(events: Seq<Mark>, name: Seq<char>, inclusion: Seq<Filter>, exclusion: Seq<Filter>) -> Option<
    RecipeView,
> {
    match front_matter(events) {
        Some(text) => assembled(events, name, attributes_of_text(text), inclusion, exclusion),
        None => None,
    }
}

impl Recipe {
    /// Puts a recipe together from a document's events and the attributes read
    /// off its attribute block, if the filters keep it: see [`assembled`].
    pub fn assemble(
        events: &Vec<Piece>,
        name: String,
        ingredients: Option<Ingredients>,
        inclusion_filters: &Filters,
        exclusion_filters: &Filters,
    ) -> (made: Option<Recipe>)
        ensures
            recipe_view_of(made) == assembled(
                marks(events@),
                name@,
                view_of(ingredients),
                inclusion_filters@,
                exclusion_filters@,
            ),
    {
        let ingredients = match ingredients {
            Some(ingredients) => ingredients,
            None => {
                return None;
            },
        };
        if !ingredients.filter(inclusion_filters, exclusion_filters) {
            return None;
        }
        match body_of(events) {
            Some(instructions) => Some(Recipe { name, ingredients, instructions }),
            None => None,
        }
    }

    /// Reads a recipe off the events of a document, if it is one and the
    /// filters keep it: see [`recipe_of`].
    pub fn from_events(
        events: &Vec<Piece>,
        name: String,
        inclusion_filters: &Filters,
        exclusion_filters: &Filters,
    ) -> (made: Option<Recipe>)
        ensures
            recipe_view_of(made) == recipe_of(marks(events@), name@, inclusion_filters@, exclusion_filters@),
    {
        match front_matter_text(events) {
            Some(text) => {
                let ingredients = Ingredients::new(text.as_str());
                Recipe::assemble(events, name, ingredients, inclusion_filters, exclusion_filters)
            },
            None => None,
        }
    }

    /// Reads a recipe off the text of a markdown document, if it is one and
    /// the filters keep it. A text that is no recipe, or a recipe that the
    /// filters drop, gives `None`: nothing is reported.
    pub fn filtered_new(input: &str, name: String, inclusion_filters: &Filters, exclusion_filters: &Filters) -> (made:
        Option<Self>)
        ensures
            recipe_view_of(made) == recipe_of(markdown_marks(input@), name@, inclusion_filters@, exclusion_filters@),
    {
        let events = markdown_events(input);
        Recipe::from_events(&events, name, inclusion_filters, exclusion_filters)
    }

    /// The name of the recipe.
    pub fn name(&self) -> (name: &str)
        ensures
            name@ == self@.name,
    {
        self.name.as_str()
    }

    /// The attributes of the recipe.
    pub fn ingredients(&self) -> (ingredients: &Ingredients)
        ensures
            ingredients@ == self@.ingredients,
    {
        &self.ingredients
    }

    /// The body of the recipe's document.
    pub fn instructions(&self) -> (instructions: &String)
        ensures
            instructions@ == self@.instructions,
    {
        &self.instructions
    }
}

} // verus!

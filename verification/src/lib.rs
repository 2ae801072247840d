//! Search recipes kept as markdown files with a YAML attribute block.
//!
//! A recipe is a document whose attribute block maps names to values and whose
//! body holds the instructions. Inclusion and exclusion filters over the
//! attributes decide which recipes are kept.
//!
//! Strings are compared as they are written: `Vodka` and `vodka` differ.

pub mod color;
pub mod command;
pub mod filters;
pub mod ingredients;
pub mod laws;
pub mod markdown;
pub mod output;
pub mod recipe;
pub mod value;
pub mod yaml;

pub use color::{Paint, Style, Styles};
pub use command::{parse_key_some_val, select, title_of, Color, Selection, Shortfall};
pub use filters::Filters;
pub use ingredients::Ingredients;
pub use output::{RecipeDisplay, Span};
pub use recipe::Recipe;
pub use value::Value;

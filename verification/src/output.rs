//! A recipe laid out for the terminal.

use vstd::prelude::*;
use vstd::string::StringExecFns;
use crate::color::{Style, Styles};
use crate::ingredients::{Attribute, Ingredients};
use crate::recipe::{Recipe, RecipeView};
use crate::value::{lemma_list_view, shapes, texts, Shape, Value};

verus! {

/// A run of text with the style in which it is written.
#[derive(Debug, PartialEq, Eq)]
pub struct Span {
    pub text: String,
    pub style: Style,
}

/// What a [`Span`] stands for in contracts.
pub ghost struct Run {
    pub text: Seq<char>,
    pub style: Style,
}

impl View for Span {
    type V = Run;

    open spec fn view(&self) -> Run {
        Run { text: self.text@, style: self.style }
    }
}

/// The views of a run of spans, one by one.
pub open spec fn runs(spans: Seq<Span>) -> Seq<Run> {
    Seq::new(spans.len(), |i: int| spans[i]@)
}

/// A run of text in the style that changes nothing.
pub open spec fn unstyled(text: Seq<char>) -> Run {
    Run { text: text, style: Style::plain() }
}

/// One line for each item: two spaces, a dash, a space, and the item in the given style.
pub open spec fn item_lines(items: Seq<Seq<char>>, style: Style) -> Seq<Run>
    decreases items.len(),
{
    if items.len() == 0 {
        Seq::empty()
    } else {
        item_lines(items.drop_last(), style) + seq![
            unstyled("  - "@),
            Run { text: items.last(), style: style },
            unstyled("\n"@),
        ]
    }
}

/// What is written for each item of a list: a scalar as it is, any other item as nothing.
pub open spec fn item_texts(items: Seq<Shape>) -> Seq<Seq<char>> {
    Seq::new(
        items.len(),
        |i: int|
            match items[i] {
                Shape::Scalar(s) => s,
                _ => Seq::empty(),
            },
    )
}

/// The lines of one attribute. A scalar stands behind its key on one line. A
/// list and a group of alternatives give the key on a line of its own, the
/// second marked as a choice, and below it a line for each item. An opaque
/// value is named as unexpected. Null writes nothing.
pub open spec fn attribute_lines(attribute: Attribute, styles: Styles) -> Seq<Run> {
    let key = Run { text: attribute.0, style: styles.key_style };
    match attribute.1 {
        Shape::Scalar(s) => seq![key, unstyled(": "@), Run { text: s, style: styles.value_style }, unstyled("\n"@)],
        Shape::List(items) => seq![key, unstyled(":\n"@)] + item_lines(item_texts(items), styles.value_style),
        Shape::OrGroup(choices) => seq![key, unstyled(" (choice of):\n"@)] + item_lines(
            choices,
            styles.value_style,
        ),
        Shape::Null => Seq::empty(),
        Shape::Opaque => seq![unstyled("unexpected format "@), key, unstyled("\n"@)],
    }
}

/// The lines of the attributes, in their order.
pub open spec fn attributes_lines(attributes: Seq<Attribute>, styles: Styles) -> Seq<Run>
    decreases attributes.len(),
{
    if attributes.len() == 0 {
        Seq::empty()
    } else {
        attributes_lines(attributes.drop_last(), styles) + attribute_lines(attributes.last(), styles)
    }
}

/// A recipe as it is written: a heading with the name, an empty line, the
/// attributes, then the body and an empty line.
pub open spec fn rendering(recipe: RecipeView, styles: Styles) -> Seq<Run> {
    seq![unstyled("Recipe "@), Run { text: recipe.name, style: styles.title_style }, unstyled("\n\n"@)]
        + attributes_lines(recipe.ingredients, styles) + seq![
        Run { text: recipe.instructions, style: styles.body_style },
        unstyled("\n\n"@),
    ]
}

/// The text of a run of spans, without their styles.
pub open spec fn text_of(spans: Seq<Run>) -> Seq<char>
    decreases spans.len(),
{
    if spans.len() == 0 {
        Seq::empty()
    } else {
        text_of(spans.drop_last()) + spans.last().text
    }
}

/// Adds one span.
fn push_span(out: &mut Vec<Span>, text: &str, style: Style)
    ensures
        runs(final(out)@) == runs(old(out)@).push(Run { text: text@, style: style }),
{
    out.push(Span { text: String::from_str(text), style });
    assert(runs(out@) =~= runs(old(out)@).push(Run { text: text@, style: style }));
}

/// Adds one line for an item.
fn push_item(out: &mut Vec<Span>, text: &str, style: Style)
    ensures
        runs(final(out)@) == runs(old(out)@) + seq![
            unstyled("  - "@),
            Run { text: text@, style: style },
            unstyled("\n"@),
        ],
{
    push_span(out, "  - ", Style::new());
    push_span(out, text, style);
    push_span(out, "\n", Style::new());
    assert(runs(out@) =~= runs(old(out)@) + seq![
        unstyled("  - "@),
        Run { text: text@, style: style },
        unstyled("\n"@),
    ]);
}

/// Adds the lines of the items of a list.
fn push_list(out: &mut Vec<Span>, items: &Vec<Value>, style: Style)
    ensures
        runs(final(out)@) == runs(old(out)@) + item_lines(item_texts(shapes(items@)), style),
{
    let ghost base = runs(out@);
    let ghost all = item_texts(shapes(items@));
    let mut i: usize = 0;
    assert(all.take(0) =~= Seq::<Seq<char>>::empty());
    assert(runs(out@) =~= base + item_lines(all.take(0), style));
    while i < items.len()
        invariant
            i <= items.len(),
            all == item_texts(shapes(items@)),
            runs(out@) == base + item_lines(all.take(i as int), style),
        decreases items.len() - i,
    {
        let ghost before = runs(out@);
        proof {
            reveal_strlit("");
            assert(all.take(i + 1).drop_last() =~= all.take(i as int));
            assert(all.take(i + 1).last() == all[i as int]);
            assert(""@ =~= Seq::<char>::empty());
        }
        match &items[i] {
            Value::Scalar(s) => push_item(out, s.as_str(), style),
            _ => push_item(out, "", style),
        }
        assert(runs(out@) =~= base + item_lines(all.take(i + 1), style));
        i += 1;
    }
    assert(all.take(items.len() as int) =~= all);
}

/// Adds the lines of alternatives.
fn push_choices(out: &mut Vec<Span>, choices: &Vec<String>, style: Style)
    ensures
        runs(final(out)@) == runs(old(out)@) + item_lines(texts(choices@), style),
{
    let ghost base = runs(out@);
    let ghost all = texts(choices@);
    let mut i: usize = 0;
    assert(all.take(0) =~= Seq::<Seq<char>>::empty());
    assert(runs(out@) =~= base + item_lines(all.take(0), style));
    while i < choices.len()
        invariant
            i <= choices.len(),
            all == texts(choices@),
            runs(out@) == base + item_lines(all.take(i as int), style),
        decreases choices.len() - i,
    {
        proof {
            assert(all.take(i + 1).drop_last() =~= all.take(i as int));
            assert(all.take(i + 1).last() == all[i as int]);
        }
        push_item(out, choices[i].as_str(), style);
        assert(runs(out@) =~= base + item_lines(all.take(i + 1), style));
        i += 1;
    }
    assert(all.take(choices.len() as int) =~= all);
}

/// Adds the lines of one attribute.
fn push_attribute(out: &mut Vec<Span>, key: &String, value: &Value, styles: &Styles)
    ensures
        runs(final(out)@) == runs(old(out)@) + attribute_lines((key@, value@), *styles),
{
    let ghost base = runs(out@);
    match value {
        Value::Scalar(s) => {
            push_span(out, key.as_str(), styles.key_style);
            push_span(out, ": ", Style::new());
            push_span(out, s.as_str(), styles.value_style);
            push_span(out, "\n", Style::new());
            assert(runs(out@) =~= base + attribute_lines((key@, value@), *styles));
        },
        Value::List(items) => {
            proof {
                lemma_list_view(*items);
            }
            push_span(out, key.as_str(), styles.key_style);
            push_span(out, ":\n", Style::new());
            push_list(out, items, styles.value_style);
            assert(runs(out@) =~= base + attribute_lines((key@, value@), *styles));
        },
        Value::OrGroup(choices) => {
            push_span(out, key.as_str(), styles.key_style);
            push_span(out, " (choice of):\n", Style::new());
            push_choices(out, choices, styles.value_style);
            assert(runs(out@) =~= base + attribute_lines((key@, value@), *styles));
        },
        Value::Null => {
            assert(runs(out@) =~= base + attribute_lines((key@, value@), *styles));
        },
        Value::Opaque => {
            push_span(out, "unexpected format ", Style::new());
            push_span(out, key.as_str(), styles.key_style);
            push_span(out, "\n", Style::new());
            assert(runs(out@) =~= base + attribute_lines((key@, value@), *styles));
        },
    }
}

/// A recipe with the styles in which to write it.
pub struct RecipeDisplay<'a> {
    recipe: &'a Recipe,
    styles: Styles,
}

impl Recipe {
    /// The recipe ready to be written, in styles that change nothing.
    pub fn display(&self) -> (shown: RecipeDisplay<'_>)
        ensures
            shown.recipe() == self@,
            shown.styles() == Styles::plain(),
    {
        RecipeDisplay { recipe: self, styles: Styles::default() }
    }
}

impl<'a> RecipeDisplay<'a> {
    /// The recipe that is written.
    pub closed spec fn recipe(&self) -> RecipeView {
        self.recipe@
    }

    /// The styles in which it is written.
    pub closed spec fn styles(&self) -> Styles {
        self.styles
    }

    /// Colorizes the output.
    pub fn colorize(&mut self)
        ensures
            final(self).recipe() == old(self).recipe(),
            final(self).styles() == Styles::colored(),
    {
        self.styles.colorize();
    }

    /// What is written, as runs of text with their styles: see [`rendering`].
    pub fn spans(&self) -> (out: Vec<Span>)
        ensures
            runs(out@) == rendering(self.recipe(), self.styles()),
    {
        let ingredients: &Ingredients = self.recipe.ingredients();
        let ghost attrs = ingredients@;
        let ghost styles = self.styles;
        let mut out: Vec<Span> = Vec::new();
        push_span(&mut out, "Recipe ", Style::new());
        push_span(&mut out, self.recipe.name(), self.styles.title_style);
        push_span(&mut out, "\n\n", Style::new());
        let ghost head = runs(out@);
        assert(head =~= seq![
            unstyled("Recipe "@),
            Run { text: self.recipe().name, style: styles.title_style },
            unstyled("\n\n"@),
        ]);
        assert(attrs.take(0) =~= Seq::<Attribute>::empty());
        assert(runs(out@) =~= head + attributes_lines(attrs.take(0), styles));
        let mut i: usize = 0;
        while i < ingredients.len()
            invariant
                i <= ingredients@.len(),
                attrs == ingredients@,
                styles == self.styles,
                runs(out@) == head + attributes_lines(attrs.take(i as int), styles),
            decreases ingredients@.len() - i,
        {
            proof {
                assert(attrs.take(i + 1).drop_last() =~= attrs.take(i as int));
                assert(attrs.take(i + 1).last() == attrs[i as int]);
            }
            push_attribute(&mut out, ingredients.key(i), ingredients.value(i), &self.styles);
            assert(runs(out@) =~= head + attributes_lines(attrs.take(i + 1), styles));
            i += 1;
        }
        assert(attrs.take(ingredients@.len() as int) =~= attrs);
        let ghost body = runs(out@);
        push_span(&mut out, self.recipe.instructions().as_str(), self.styles.body_style);
        push_span(&mut out, "\n\n", Style::new());
        assert(runs(out@) =~= body + seq![
            Run { text: self.recipe().instructions, style: styles.body_style },
            unstyled("\n\n"@),
        ]);
        out
    }

    /// What is written, without the styles.
    pub fn text(&self) -> (text: String)
        ensures
            text@ == text_of(rendering(self.recipe(), self.styles())),
    {
        let spans = self.spans();
        let ghost all = runs(spans@);
        let mut text = String::new();
        let mut i: usize = 0;
        assert(all.take(0) =~= Seq::<Run>::empty());
        while i < spans.len()
            invariant
                i <= spans.len(),
                all == runs(spans@),
                text@ == text_of(all.take(i as int)),
            decreases spans.len() - i,
        {
            proof {
                assert(all.take(i + 1).drop_last() =~= all.take(i as int));
                assert(all.take(i + 1).last() == all[i as int]);
            }
            text.append(spans[i].text.as_str());
            i += 1;
        }
        assert(all.take(spans.len() as int) =~= all);
        text
    }
}

} // verus!

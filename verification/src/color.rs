//! The styles in which the parts of a recipe are written.

use vstd::prelude::*;

verus! {

/// The colours that the styles use.
#[derive(Clone, Copy, Debug, PartialEq, Eq)]
pub enum Paint {
    BrightPurple,
    BrightGreen,
    BrightRed,
}

/// How a run of text is written to a terminal.
#[derive(Clone, Copy, Debug, PartialEq, Eq)]
pub struct Style {
    pub bold: bool,
    pub italic: bool,
    /// The colour of the text; `None` leaves the terminal's own.
    pub color: Option<Paint>,
}

impl Style {
    /// The style that changes nothing.
    pub open spec fn plain() -> Style {
        Style { bold: false, italic: false, color: None }
    }

    /// The style that changes nothing.
    pub fn new() -> (style: Style)
        ensures
            style == Style::plain(),
    {
        Style { bold: false, italic: false, color: None }
    }
}

/// The styles of the parts of a recipe.
#[derive(Clone, Copy, Debug, PartialEq, Eq)]
pub struct Styles {
    pub title_style: Style,
    pub key_style: Style,
    pub value_style: Style,
    pub body_style: Style,
    pub err_style: Style,
}

impl Styles {
    /// The styles that change nothing.
    pub open spec fn plain() -> Styles {
        Styles {
            title_style: Style::plain(),
            key_style: Style::plain(),
            value_style: Style::plain(),
            body_style: Style::plain(),
            err_style: Style::plain(),
        }
    }

    /// The styles of coloured output.
    pub open spec fn colored() -> Styles {
        Styles {
            title_style: Style { bold: true, italic: false, color: Some(Paint::BrightPurple) },
            key_style: Style { bold: false, italic: false, color: Some(Paint::BrightPurple) },
            value_style: Style { bold: false, italic: true, color: Some(Paint::BrightGreen) },
            body_style: Style { bold: false, italic: false, color: Some(Paint::BrightGreen) },
            err_style: Style { bold: false, italic: false, color: Some(Paint::BrightRed) },
        }
    }

    /// Switches to the styles of coloured output.
    pub fn colorize(&mut self)
        ensures
            *final(self) == Styles::colored(),
    {
        self.title_style = Style { bold: true, italic: false, color: Some(Paint::BrightPurple) };
        self.key_style = Style { bold: false, italic: false, color: Some(Paint::BrightPurple) };
        self.value_style = Style { bold: false, italic: true, color: Some(Paint::BrightGreen) };
        self.body_style = Style { bold: false, italic: false, color: Some(Paint::BrightGreen) };
        self.err_style = Style { bold: false, italic: false, color: Some(Paint::BrightRed) };
    }
}

impl Default for Styles {
    fn default() -> (styles: Styles)
        ensures
            styles == Styles::plain(),
    {
        Styles {
            title_style: Style::new(),
            key_style: Style::new(),
            value_style: Style::new(),
            body_style: Style::new(),
            err_style: Style::new(),
        }
    }
}

} // verus!

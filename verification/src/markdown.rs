//! A markdown document as the run of events that matter to a recipe.

use pulldown_cmark::{Event, MetadataBlockKind, Options, Parser, Tag, TagEnd, TextMergeStream};
use vstd::prelude::*;
use vstd::string::StringExecFns;

verus! {

/// One event of a markdown document, as far as a recipe reads it.
#[derive(Debug, PartialEq, Eq)]
pub enum Piece {
    /// A YAML attribute block opens.
    MetadataStart,
    /// A YAML attribute block closes.
    MetadataEnd,
    /// A paragraph opens.
    ParagraphStart,
    /// A run of text.
    Text(String),
    /// A line break within a paragraph.
    SoftBreak,
    /// A forced line break.
    HardBreak,
    /// Any other event.
    Other,
}

/// What a [`Piece`] stands for in contracts.
pub ghost enum Mark {
    MetadataStart,
    MetadataEnd,
    ParagraphStart,
    Text(Seq<char>),
    SoftBreak,
    HardBreak,
    Other,
}

impl View for Piece {
    type V = Mark;

    open spec fn view(&self) -> Mark {
        match self {
            Piece::MetadataStart => Mark::MetadataStart,
            Piece::MetadataEnd => Mark::MetadataEnd,
            Piece::ParagraphStart => Mark::ParagraphStart,
            Piece::Text(s) => Mark::Text(s@),
            Piece::SoftBreak => Mark::SoftBreak,
            Piece::HardBreak => Mark::HardBreak,
            Piece::Other => Mark::Other,
        }
    }
}

/// The views of a run of pieces, one by one.
pub open spec fn marks(pieces: Seq<Piece>) -> Seq<Mark> {
    Seq::new(pieces.len(), |i: int| pieces[i]@)
}

/// The events that `pulldown_cmark::Parser` yields for a text when YAML
/// attribute blocks are switched on and no other extension is, with runs of
/// text merged by `pulldown_cmark::TextMergeStream`.
pub uninterp spec fn markdown_marks(input: Seq<char>) -> Seq<Mark>;

/// Runs `pulldown_cmark::Parser::new_ext` over the text, with
/// `Options::ENABLE_YAML_STYLE_METADATA_BLOCKS` alone, through
/// `pulldown_cmark::TextMergeStream::new`, and keeps of each event what a
/// recipe reads. Nothing is proved of the parser: the contract only gives its
/// result a name, [`markdown_marks`], on the ground that the parser reads
/// nothing but the text it is given. That the parser returns on every text
/// is taken for granted.
#[verifier::external_body]
pub(crate) fn markdown_events(input: &str) -> (pieces: Vec<Piece>)
    ensures
        marks(pieces@) == markdown_marks(input@),
{
    let mut options = Options::empty();
    options.insert(Options::ENABLE_YAML_STYLE_METADATA_BLOCKS);
    let mut pieces = Vec::new();
    for event in TextMergeStream::new(Parser::new_ext(input, options)) {
        pieces.push(match event {
            Event::Start(Tag::MetadataBlock(MetadataBlockKind::YamlStyle)) => Piece::MetadataStart,
            Event::End(TagEnd::MetadataBlock(MetadataBlockKind::YamlStyle)) => Piece::MetadataEnd,
            Event::Start(Tag::Paragraph) => Piece::ParagraphStart,
            Event::Text(text) => Piece::Text(text.into_string()),
            Event::SoftBreak => Piece::SoftBreak,
            Event::HardBreak => Piece::HardBreak,
            _ => Piece::Other,
        });
    }
    pieces
}

/// The text of the attribute block: the document must open with the start of
/// an attribute block, and a run of text must follow at once.
pub open spec fn front_matter(events: Seq<Mark>) -> Option<Seq<char>> {
    if events.len() >= 2 && events[0] == Mark::MetadataStart {
        match events[1] {
            Mark::Text(text) => Some(text),
            _ => None,
        }
    } else {
        None
    }
}

/// What one event adds to the body: a run of text adds itself, a line break
/// one newline, a forced line break two; any other event adds nothing.
pub open spec fn fragment(event: Mark) -> Seq<char> {
    match event {
        Mark::Text(text) => text,
        Mark::SoftBreak => seq!['\n'],
        Mark::HardBreak => seq!['\n', '\n'],
        _ => Seq::empty(),
    }
}

/// What a run of events adds to the body, one after the other.
pub open spec fn body_text(events: Seq<Mark>) -> Seq<char>
    decreases events.len(),
{
    if events.len() == 0 {
        Seq::empty()
    } else {
        body_text(events.drop_last()) + fragment(events.last())
    }
}

/// The body of the document: after the first two events the attribute block
/// must close and a paragraph must open at once; the body is what all later
/// events add, to the end of the document.
pub open spec fn instructions_of(events: Seq<Mark>) -> Option<Seq<char>> {
    if events.len() >= 4 && events[2] == Mark::MetadataEnd && events[3] == Mark::ParagraphStart {
        Some(body_text(events.skip(4)))
    } else {
        None
    }
}

/// The text of the attribute block with which a document opens: see [`front_matter`].
pub fn front_matter_text(events: &Vec<Piece>) -> (text: Option<&String>)
    ensures
        match text {
            Some(t) => front_matter(marks(events@)) == Some(t@),
            None => front_matter(marks(events@)) is None,
        },
{
    if events.len() < 2 {
        return None;
    }
    match &events[0] {
        Piece::MetadataStart => {},
        _ => {
            return None;
        },
    }
    match &events[1] {
        Piece::Text(text) => Some(text),
        _ => None,
    }
}

/// The body of a document: see [`instructions_of`].
pub fn body_of(events: &Vec<Piece>) -> (body: Option<String>)
    ensures
        match body {
            Some(b) => instructions_of(marks(events@)) == Some(b@),
            None => instructions_of(marks(events@)) is None,
        },
{
    if events.len() < 4 {
        return None;
    }
    match &events[2] {
        Piece::MetadataEnd => {},
        _ => {
            return None;
        },
    }
    match &events[3] {
        Piece::ParagraphStart => {},
        _ => {
            return None;
        },
    }
    let ghost rest = marks(events@).skip(4);
    let mut body = String::new();
    let mut i: usize = 4;
    assert(rest.take(0) =~= Seq::<Mark>::empty());
    while i < events.len()
        invariant
            4 <= i <= events.len(),
            rest == marks(events@).skip(4),
            body@ == body_text(rest.take(i - 4)),
        decreases events.len() - i,
    {
        proof {
            assert(rest.take(i - 4 + 1).drop_last() =~= rest.take(i - 4));
            assert(rest.take(i - 4 + 1).last() == events@[i as int]@);
            reveal_strlit("\n");
            reveal_strlit("\n\n");
        }
        match &events[i] {
            Piece::Text(text) => {
                body.append(text.as_str());
            },
            Piece::SoftBreak => {
                body.append("\n");
                assert(body@ =~= body_text(rest.take(i - 4)) + seq!['\n']);
            },
            Piece::HardBreak => {
                body.append("\n\n");
                assert(body@ =~= body_text(rest.take(i - 4)) + seq!['\n', '\n']);
            },
            _ => {
                assert(body@ =~= body_text(rest.take(i - 4)) + Seq::<char>::empty());
            },
        }
        i += 1;
    }
    assert(rest.take(events.len() - 4) =~= rest);
    Some(body)
}

} // verus!

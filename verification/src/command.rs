//! What the command line asks for: queries, titles, and how many recipes to show.

use convert_case::{Case, Casing};
use rand::seq::IteratorRandom;
use vstd::prelude::*;
use vstd::string::{StrSliceExecFns, StringExecFns};
use crate::filters::{filter_of, Filter};

verus! {

/// The position of the first `=` in a text, or the length of the text where it has none.
pub open spec fn first_equals(text: Seq<char>) -> int
    decreases text.len(),
{
    if text.len() == 0 || text[0] == '=' {
        0
    } else {
        1 + first_equals(text.drop_first())
    }
}

/// The filter that a query stands for. `key=value` asks for the value under
/// the key; the first `=` parts them, so that the value may hold more. A query
/// without `=` asks for the key alone.
pub open spec fn query_of(text: Seq<char>) -> Filter {
    let at = first_equals(text);
    if at < text.len() {
        Filter { key: text.take(at), value: Some(text.skip(at + 1)) }
    } else {
        Filter { key: text, value: None }
    }
}

/// `first_equals` is the position before which no `=` stands and at which
/// one stands or the text ends.
pub proof fn lemma_first_equals(text: Seq<char>, at: int)
    requires
        0 <= at <= text.len(),
        forall|j: int| 0 <= j < at ==> text[j] != '=',
        at < text.len() ==> text[at] == '=',
    ensures
        first_equals(text) == at,
    decreases at,
{
    if at > 0 {
        let rest = text.drop_first();
        assert forall|j: int| 0 <= j < at - 1 implies rest[j] != '=' by {
            assert(rest[j] == text[j + 1]);
        }
        lemma_first_equals(rest, at - 1);
    }
}

/// Reads one query of the command line: see [`query_of`].
pub fn parse_key_some_val(s: &str) -> (pair: (String, Option<String>))
    ensures
        filter_of(pair) == query_of(s@),
{
    let len = s.unicode_len();
    let mut at: usize = 0;
    while at < len
        invariant
            len == s@.len(),
            at <= len,
            forall|j: int| 0 <= j < at ==> s@[j] != '=',
        decreases len - at,
    {
        if s.get_char(at) == '=' {
            proof {
                lemma_first_equals(s@, at as int);
            }
            let key = String::from_str(s.substring_char(0, at));
            let value = String::from_str(s.substring_char(at + 1, len));
            assert(key@ =~= s@.take(at as int));
            assert(value@ =~= s@.skip(at + 1));
            return (key, Some(value));
        }
        at += 1;
    }
    proof {
        lemma_first_equals(s@, len as int);
    }
    (String::from_str(s), None)
}

/// The ending by which a file is taken for a recipe.
pub open spec fn markdown_ending() -> Seq<char> {
    seq!['.', 'm', 'd']
}

/// The name of a markdown file without its ending; none where the ending is another.
pub open spec fn stem_of(file_name: Seq<char>) -> Option<Seq<char>> {
    let n = file_name.len();
    if n >= 3 && file_name.skip(n - 3) == markdown_ending() {
        Some(file_name.take(n - 3))
    } else {
        None
    }
}

/// What `convert_case::Casing::to_case` makes of a text for `Case::Title`.
pub uninterp spec fn title_case(text: Seq<char>) -> Seq<char>;

/// Calls `convert_case::Casing::to_case` with `convert_case::Case::Title`.
/// Nothing is proved of the conversion: the contract only gives its result a
/// name, [`title_case`], on the ground that it reads nothing but the text.
#[verifier::external_body]
fn to_title_case(text: &str) -> (title: String)
    ensures
        title@ == title_case(text@),
{
    text.to_case(Case::Title)
}

/// The title of the recipe in a file of the given name: the name without its
/// ending `.md`, in title case. A file with another ending holds no recipe.
pub fn title_of(file_name: &str) -> (title: Option<String>)
    ensures
        match title {
            Some(t) => stem_of(file_name@) is Some && t@ == title_case(stem_of(file_name@)->0),
            None => stem_of(file_name@) is None,
        },
{
    let len = file_name.unicode_len();
    if len < 3 {
        return None;
    }
    let ghost tail = file_name@.skip(len - 3);
    if file_name.get_char(len - 3) == '.' && file_name.get_char(len - 2) == 'm' && file_name.get_char(len - 1)
        == 'd' {
        assert(tail =~= markdown_ending());
        Some(to_title_case(file_name.substring_char(0, len - 3)))
    } else {
        assert(tail[0] == file_name@[len - 3] && tail[1] == file_name@[len - 2] && tail[2] == file_name@[len - 1]);
        None
    }
}

/// When the output is coloured.
#[derive(Clone, Copy, Debug, PartialEq, Eq)]
pub enum Color {
    Always,
    Auto,
    Never,
}

impl Color {
    /// Whether to colour what is written to a stream, given whether the
    /// stream was found to support colours: `Auto` goes by what was found.
    pub fn supports_color_on(self, detected: bool) -> (colored: bool)
        ensures
            colored == match self {
                Color::Always => true,
                Color::Auto => detected,
                Color::Never => false,
            },
    {
        match self {
            Color::Always => true,
            Color::Auto => detected,
            Color::Never => false,
        }
    }
}

/// `chosen` takes its items from `items` at the positions `from`, each position once.
pub open spec fn picks<T>(chosen: Seq<T>, items: Seq<T>, from: Seq<int>) -> bool {
    &&& from.len() == chosen.len()
    &&& from.no_duplicates()
    &&& forall|i: int| 0 <= i < from.len() ==> 0 <= #[trigger] from[i] < items.len() && chosen[i] == items[from[i]]
}

/// `chosen` is a sample of `items`: each of its items is one of `items`, and
/// no item of `items` was taken twice.
pub open spec fn drawn_from<T>(chosen: Seq<T>, items: Seq<T>) -> bool {
    exists|from: Seq<int>| picks(chosen, items, from)
}

/// Draws `amount` items at random with `rand::seq::IteratorRandom::choose_multiple`
/// on the generator of `rand::thread_rng`. Which items come, and in what
/// order, is left to chance: the contract says only what holds of every
/// draw, that as many items come as were asked for and that each is taken
/// from a place of its own. More items than there are cannot be asked for.
/// That the generator can be had from the system is taken for granted.
#[verifier::external_body]
fn choose_multiple<T>(items: Vec<T>, amount: usize) -> (chosen: Vec<T>)
    requires
        amount <= items.len(),
    ensures
        chosen.len() == amount,
        drawn_from(chosen@, items@),
{
    items.into_iter().choose_multiple(&mut rand::thread_rng(), amount)
}

/// Fewer recipes were found than were asked for.
#[derive(Clone, Copy, Debug, PartialEq, Eq, Structural)]
pub struct Shortfall {
    pub found: usize,
    pub wanted: usize,
}

/// The recipes to show, with a note where they are fewer than were asked for.
#[derive(Debug)]
pub struct Selection<T> {
    pub recipes: Vec<T>,
    pub shortfall: Option<Shortfall>,
}

/// Every item is a sample of itself.
pub proof fn lemma_all_drawn<T>(items: Seq<T>)
    ensures
        drawn_from(items, items),
{
    let from = Seq::new(items.len(), |i: int| i);
    assert(picks(items, items, from));
}

/// Limits the recipes to `count`, chosen at random, where a count is given.
/// With no count, or with a count that is not below their number, all
/// recipes are kept in their order; a count above their number is noted as a
/// shortfall, which is no error.
pub fn select<T>(recipes: Vec<T>, count: Option<usize>) -> (picked: Selection<T>)
    ensures
        match count {
            None => picked.recipes@ == recipes@ && picked.shortfall is None,
            Some(n) => if n <= recipes.len() {
                &&& picked.recipes.len() == n
                &&& drawn_from(picked.recipes@, recipes@)
                &&& picked.shortfall is None
            } else {
                &&& picked.recipes@ == recipes@
                &&& picked.shortfall == Some(Shortfall { found: recipes.len(), wanted: n })
            },
        },
{
    match count {
        None => Selection { recipes, shortfall: None },
        Some(how_many) => {
            let found = recipes.len();
            if how_many < found {
                Selection { recipes: choose_multiple(recipes, how_many), shortfall: None }
            } else if how_many == found {
                proof {
                    lemma_all_drawn(recipes@);
                }
                Selection { recipes, shortfall: None }
            } else {
                Selection { recipes, shortfall: Some(Shortfall { found, wanted: how_many }) }
            }
        },
    }
}

/// The character of a digit.
pub open spec fn digit(d: nat) -> char {
    if d == 0 {
        '0'
    } else if d == 1 {
        '1'
    } else if d == 2 {
        '2'
    } else if d == 3 {
        '3'
    } else if d == 4 {
        '4'
    } else if d == 5 {
        '5'
    } else if d == 6 {
        '6'
    } else if d == 7 {
        '7'
    } else if d == 8 {
        '8'
    } else {
        '9'
    }
}

/// A number written in decimal, without leading zeros.
pub open spec fn decimal(n: nat) -> Seq<char>
    decreases n,
{
    if n < 10 {
        seq![digit(n)]
    } else {
        decimal(n / 10).push(digit(n % 10))
    }
}

/// The note on a shortfall.
pub open spec fn shortfall_message(found: nat, wanted: nat) -> Seq<char> {
    "Found only "@ + decimal(found) + " matching recipes, which is less than "@ + decimal(wanted)
}

fn digit_text(d: usize) -> (text: &'static str)
    requires
        d < 10,
    ensures
        text@ == seq![digit(d as nat)],
{
    proof {
        reveal_strlit("0");
        reveal_strlit("1");
        reveal_strlit("2");
        reveal_strlit("3");
        reveal_strlit("4");
        reveal_strlit("5");
        reveal_strlit("6");
        reveal_strlit("7");
        reveal_strlit("8");
        reveal_strlit("9");
    }
    let text = if d == 0 {
        "0"
    } else if d == 1 {
        "1"
    } else if d == 2 {
        "2"
    } else if d == 3 {
        "3"
    } else if d == 4 {
        "4"
    } else if d == 5 {
        "5"
    } else if d == 6 {
        "6"
    } else if d == 7 {
        "7"
    } else if d == 8 {
        "8"
    } else {
        "9"
    };
    assert(text@ =~= seq![digit(d as nat)]);
    text
}

/// Writes a number in decimal.
pub fn decimal_text(n: usize) -> (text: String)
    ensures
        text@ == decimal(n as nat),
    decreases n,
{
    if n < 10 {
        String::from_str(digit_text(n))
    } else {
        let mut text = decimal_text(n / 10);
        text.append(digit_text(n % 10));
        assert(text@ =~= decimal(n as nat));
        text
    }
}

impl Shortfall {
    /// The note to show with the recipes.
    pub fn message(&self) -> (text: String)
        ensures
            text@ == shortfall_message(self.found as nat, self.wanted as nat),
    {
        let mut text = String::from_str("Found only ");
        text.append(decimal_text(self.found).as_str());
        text.append(" matching recipes, which is less than ");
        text.append(decimal_text(self.wanted).as_str());
        text
    }
}

} // verus!

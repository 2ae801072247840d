//! Queries over attributes.

use vstd::prelude::*;

verus! {

/// What one filter asks for: a key, and a value where one was given.
pub ghost struct Filter {
    pub key: Seq<char>,
    pub value: Option<Seq<char>>,
}

/// The filter that a pair of a key and an optional value stands for.
pub open spec fn filter_of(pair: (String, Option<String>)) -> Filter {
    Filter {
        key: pair.0@,
        value: match pair.1 {
            Some(v) => Some(v@),
            None => None,
        },
    }
}

/// The filters that a run of pairs stands for, one by one.
pub open spec fn filters_of(pairs: Seq<(String, Option<String>)>) -> Seq<Filter> {
    Seq::new(pairs.len(), |i: int| filter_of(pairs[i]))
}

/// Filters in the order in which they were given. The same type serves for
/// inclusion and for exclusion. No pair is refused: a key may occur twice, and
/// two filters may contradict each other.
#[derive(Debug)]
pub struct Filters {
    pairs: Vec<(String, Option<String>)>,
}

impl View for Filters {
    type V = Seq<Filter>;

    closed spec fn view(&self) -> Seq<Filter> {
        filters_of(self.pairs@)
    }
}

impl Filters {
    /// Takes the pairs as they are.
    pub fn new(filters: Vec<(String, Option<String>)>) -> (made: Filters)
        ensures
            made@ == filters_of(filters@),
    {
        Filters { pairs: filters }
    }

    /// The number of filters.
    pub fn len(&self) -> (n: usize)
        ensures
            n == self@.len(),
    {
        self.pairs.len()
    }

    /// The filter at a position, counted from 0 in the order given.
    pub fn get(&self, index: usize) -> (pair: &(String, Option<String>))
        requires
            index < self@.len(),
        ensures
            filter_of(*pair) == self@[index as int],
    {
        &self.pairs[index]
    }
}

} // verus!

//! The data handed to the generator: a word corpus, a quote corpus with its
//! length buckets, and the session mode.

use vstd::prelude::*;

verus! {

/// A word corpus: a display label and its words.
pub struct WordData {
    pub name: String,
    pub words: Vec<String>,
}

impl WordData {
    /// Every corpus word is non-empty. The loader guarantees this; the
    /// stream invariants (no empty words) rest on it.
    pub open spec fn wf(&self) -> bool {
        forall|i: int| 0 <= i < self.words@.len() ==> (#[trigger] self.words@[i])@.len() > 0
    }
}

/// One quote: its identifier, text, attribution and character count.
pub struct QuoteEntry {
    pub id: u64,
    pub text: String,
    pub source: String,
    pub length: u64,
}

/// An inclusive range of quote character lengths.
#[derive(Clone, Copy)]
pub struct LengthRange {
    pub min: u64,
    pub max: u64,
}

/// The quote corpus: the quotes and the four length buckets, indexed
/// Short, Medium, Long, VeryLong.
pub struct QuoteData {
    pub quotes: Vec<QuoteEntry>,
    pub groups: Vec<LengthRange>,
}

impl QuoteData {
    /// One bucket per named length category.
    pub open spec fn wf(&self) -> bool {
        self.groups@.len() == 4
    }
}

/// A quote length category; `All` places no bound.
#[derive(Clone, Copy, PartialEq, Eq, Structural)]
pub enum QuoteLength {
    Short,
    Medium,
    Long,
    VeryLong,
    All,
}

/// How a quote is picked: by exact id or by length category.
#[derive(Clone, Copy, PartialEq, Eq, Structural)]
pub enum QuoteSelector {
    Id(u64),
    Category(QuoteLength),
}

/// The session mode: open-ended timed practice, a fixed word count, or a
/// quote.
#[derive(Clone, Copy, PartialEq, Eq, Structural)]
pub enum Mode {
    Time(u64),
    Words(usize),
    Quote(QuoteSelector),
}

} // verus!

//! Read-only access over the word corpus and the quote corpus: uniform word
//! sampling, shuffled unique batches, and quote resolution by id or by
//! length category.

use vstd::prelude::*;
use crate::models::{QuoteData, QuoteEntry, QuoteLength, QuoteSelector, WordData};
use crate::rng::{choose_index, choose_string, shuffle_strings};
use crate::text::{spec_clean_typography, spec_split_whitespace, clean_typography_symbols,
    split_whitespace};

verus! {

/// The words a quote contributes to the stream: its text with typographic
/// symbols normalized, split on whitespace.
pub open spec fn quote_words(text: Seq<char>) -> Seq<Seq<char>> {
    spec_split_whitespace(spec_clean_typography(text))
}

/// The first quote with the given id, if any.
pub open spec fn spec_find_id(qs: Seq<QuoteEntry>, id: u64) -> Option<QuoteEntry>
    decreases qs.len(),
{
    if qs.len() == 0 {
        None
    } else if qs.first().id == id {
        Some(qs.first())
    } else {
        spec_find_id(qs.drop_first(), id)
    }
}

/// The inclusive character-length bounds a category selects; `All` uses the
/// unbounded stand-in range.
pub open spec fn category_bounds(qd: QuoteData, cat: QuoteLength) -> (u64, u64) {
    match cat {
        QuoteLength::Short => (qd.groups@[0].min, qd.groups@[0].max),
        QuoteLength::Medium => (qd.groups@[1].min, qd.groups@[1].max),
        QuoteLength::Long => (qd.groups@[2].min, qd.groups@[2].max),
        QuoteLength::VeryLong => (qd.groups@[3].min, qd.groups@[3].max),
        QuoteLength::All => (0, 9999),
    }
}

/// The quote's recorded length falls in the category's bounds.
pub open spec fn in_category(qd: QuoteData, cat: QuoteLength, q: QuoteEntry) -> bool {
    category_bounds(qd, cat).0 <= q.length && q.length <= category_bounds(qd, cat).1
}

/// Some quote satisfies the selector.
pub open spec fn any_quote_resolves(selector: QuoteSelector, qd: QuoteData) -> bool {
    match selector {
        QuoteSelector::Id(id) => spec_find_id(qd.quotes@, id) is Some,
        QuoteSelector::Category(cat) => exists|i: int|
            0 <= i < qd.quotes@.len() && in_category(qd, cat, #[trigger] qd.quotes@[i]),
    }
}

/// The selector resolves to a quote whose words are `all` and whose
/// attribution is `src`: the first id match for `Id`, any quote in the
/// bounds for `Category`.
pub open spec fn resolves_to(
    selector: QuoteSelector,
    qd: QuoteData,
    all: Seq<Seq<char>>,
    src: Seq<char>,
) -> bool {
    match selector {
        QuoteSelector::Id(id) => {
            &&& spec_find_id(qd.quotes@, id) is Some
            &&& all == quote_words(spec_find_id(qd.quotes@, id)->Some_0.text@)
            &&& src == spec_find_id(qd.quotes@, id)->Some_0.source@
        },
        QuoteSelector::Category(cat) => exists|i: int|
            {
                &&& 0 <= i < qd.quotes@.len()
                &&& in_category(qd, cat, #[trigger] qd.quotes@[i])
                &&& all == quote_words(qd.quotes@[i].text@)
                &&& src == qd.quotes@[i].source@
            },
    }
}

/// Every word of a resolved quote is non-empty: whitespace splitting yields
/// no empty runs.
pub proof fn lemma_resolved_words_nonempty(
    selector: QuoteSelector,
    qd: QuoteData,
    all: Seq<Seq<char>>,
    src: Seq<char>,
)
    requires
        resolves_to(selector, qd, all, src),
    ensures
        forall|i: int| 0 <= i < all.len() ==> (#[trigger] all[i]).len() > 0,
{
    match selector {
        QuoteSelector::Id(id) => {
            let q = spec_find_id(qd.quotes@, id)->Some_0;
            crate::text::lemma_split_whitespace_words_nonempty(spec_clean_typography(q.text@));
        },
        QuoteSelector::Category(cat) => {
            let i = choose|i: int|
                {
                    &&& 0 <= i < qd.quotes@.len()
                    &&& in_category(qd, cat, #[trigger] qd.quotes@[i])
                    &&& all == quote_words(qd.quotes@[i].text@)
                    &&& src == qd.quotes@[i].source@
                };
            crate::text::lemma_split_whitespace_words_nonempty(
                spec_clean_typography(qd.quotes@[i].text@),
            );
        },
    }
}

/// Read-only access over a word corpus.
pub struct TextSource {
    word_data: WordData,
}

impl TextSource {
    /// The corpus words, as character sequences.
    pub closed spec fn corpus(&self) -> Seq<Seq<char>> {
        self.word_data.words.deep_view()
    }

    /// Every corpus word is non-empty.
    pub open spec fn wf(&self) -> bool {
        forall|i: int| 0 <= i < self.corpus().len() ==> (#[trigger] self.corpus()[i]).len() > 0
    }

    pub fn new(word_data: WordData) -> (r: TextSource)
        ensures
            r.corpus() == word_data.words.deep_view(),
    {
        TextSource { word_data }
    }

    /// A uniform sample from the corpus; the fixed fallback on an empty
    /// corpus.
    pub fn get_random_word(&self, rng: &mut rand::rngs::ThreadRng) -> (r: String)
        ensures
            self.corpus().len() > 0 ==> exists|i: int|
                0 <= i < self.corpus().len() && r@ == #[trigger] self.corpus()[i],
            self.corpus().len() == 0 ==> r@ == "word"@,
            self.wf() ==> r@.len() > 0,
    {
        let picked = choose_string(rng, &self.word_data.words);
        match picked {
            Some(w) => {
                proof {
                    let i = choose|i: int|
                        0 <= i < self.word_data.words@.len() && w == self.word_data.words@[i];
                    assert(w@ == self.corpus()[i]);
                }
                w
            },
            None => {
                let w = String::from_str("word");
                proof {
                    reveal_strlit("word");
                    assert(w@.len() == 4);
                }
                w
            },
        }
    }

    /// Up to `count` distinct corpus words: the corpus is shuffled whole and
    /// a prefix taken, so fewer come back when the corpus is smaller than
    /// asked.
    pub fn get_unique_batch(&self, count: usize, rng: &mut rand::rngs::ThreadRng) -> (r: Vec<
        String,
    >)
        ensures
            r@.len() == vstd::math::min(count as int, self.corpus().len() as int),
            forall|i: int| 0 <= i < r@.len() ==> self.corpus().contains((#[trigger] r@[i])@),
            r.deep_view().to_multiset().subset_of(self.corpus().to_multiset()),
    {
        let mut deck = self.word_data.words.clone();
        let ghost pre_deep = deck.deep_view();
        proof {
            assert(pre_deep =~= self.corpus());
        }
        shuffle_strings(rng, &mut deck);
        let ghost shuffled = deck@;
        let ghost shuffled_deep = deck.deep_view();
        deck.truncate(count);
        proof {
            broadcast use vstd::seq_lib::group_to_multiset_ensures;
            broadcast use vstd::multiset::group_multiset_axioms;

            let m = vstd::math::min(count as int, shuffled_deep.len() as int);
            assert(deck.deep_view() =~= shuffled_deep.take(m));
            assert(shuffled_deep.take(m) + shuffled_deep.skip(m) =~= shuffled_deep);
            vstd::seq_lib::lemma_multiset_commutative(
                shuffled_deep.take(m),
                shuffled_deep.skip(m),
            );
            assert(shuffled_deep.to_multiset() == shuffled_deep.take(m).to_multiset().add(
                shuffled_deep.skip(m).to_multiset(),
            ));
            assert(deck.deep_view().to_multiset().subset_of(self.corpus().to_multiset()));

            let orig = self.word_data.words@;
            assert forall|i: int| 0 <= i < deck@.len() implies self.corpus().contains(
                (#[trigger] deck@[i])@,
            ) by {
                let w = deck@[i];
                assert(w == shuffled[i]);
                assert(shuffled.contains(w));
                assert(shuffled.to_multiset().count(w) > 0);
                assert(orig.to_multiset().count(w) > 0);
                assert(orig.contains(w));
                let j = choose|j: int| 0 <= j < orig.len() && orig[j] == w;
                assert(self.corpus()[j] == orig[j]@);
                assert(deck@[i]@ == self.corpus()[j]);
            }
        }
        deck
    }

    /// Resolves a quote: by exact id, or by a uniform pick among the quotes
    /// whose recorded length falls in the category's bounds. The text is
    /// normalized and split into words.
    pub fn get_quote_text(
        &self,
        selector: &QuoteSelector,
        quote_data: &QuoteData,
        rng: &mut rand::rngs::ThreadRng,
    ) -> (r: Option<(Vec<String>, String)>)
        requires
            quote_data.wf(),
        ensures
            (r is Some) <==> any_quote_resolves(*selector, *quote_data),
            r matches Some(p) ==> resolves_to(*selector, *quote_data, p.0.deep_view(), p.1@),
    {
        let picked_index: Option<usize> = match selector {
            QuoteSelector::Id(target_id) => {
                let mut i: usize = 0;
                let n = quote_data.quotes.len();
                let mut found: Option<usize> = None;
                proof {
                    assert(quote_data.quotes@.skip(0) =~= quote_data.quotes@);
                }
                while i < n && found.is_none()
                    invariant
                        n == quote_data.quotes@.len(),
                        i <= n,
                        match found {
                            Some(k) => i > 0 && k == i - 1 && spec_find_id(
                                quote_data.quotes@,
                                *target_id,
                            ) == Some(quote_data.quotes@[k as int]),
                            None => spec_find_id(quote_data.quotes@, *target_id) == spec_find_id(
                                quote_data.quotes@.skip(i as int),
                                *target_id,
                            ),
                        },
                    decreases n - i,
                {
                    proof {
                        assert(quote_data.quotes@.skip(i as int).first() == quote_data.quotes@[i as int]);
                        assert(quote_data.quotes@.skip(i as int).drop_first() =~= quote_data.quotes@.skip(
                            i + 1,
                        ));
                    }
                    if quote_data.quotes[i].id == *target_id {
                        found = Some(i);
                    }
                    i = i + 1;
                }
                proof {
                    if found is None {
                        assert(quote_data.quotes@.skip(n as int) =~= Seq::<QuoteEntry>::empty());
                    }
                }
                found
            },
            QuoteSelector::Category(cat) => {
                let (min_len, max_len): (u64, u64) = match cat {
                    QuoteLength::Short => {
                        let g = quote_data.groups[0];
                        (g.min, g.max)
                    },
                    QuoteLength::Medium => {
                        let g = quote_data.groups[1];
                        (g.min, g.max)
                    },
                    QuoteLength::Long => {
                        let g = quote_data.groups[2];
                        (g.min, g.max)
                    },
                    QuoteLength::VeryLong => {
                        let g = quote_data.groups[3];
                        (g.min, g.max)
                    },
                    QuoteLength::All => (0, 9999),
                };
                let mut valid: Vec<usize> = Vec::new();
                let mut i: usize = 0;
                let n = quote_data.quotes.len();
                while i < n
                    invariant
                        n == quote_data.quotes@.len(),
                        i <= n,
                        (min_len, max_len) == category_bounds(*quote_data, *cat),
                        forall|k: int|
                            0 <= k < valid@.len() ==> (#[trigger] valid@[k]) < n && in_category(
                                *quote_data,
                                *cat,
                                quote_data.quotes@[valid@[k] as int],
                            ),
                        (valid@.len() > 0) <==> exists|j: int|
                            0 <= j < i && in_category(*quote_data, *cat, #[trigger] quote_data.quotes@[j]),
                    decreases n - i,
                {
                    let q_len = quote_data.quotes[i].length;
                    if q_len >= min_len && q_len <= max_len {
                        valid.push(i);
                    }
                    i = i + 1;
                }
                choose_index(rng, &valid)
            },
        };
        match picked_index {
            Some(idx) => {
                let q = &quote_data.quotes[idx];
                let clean_text = clean_typography_symbols(q.text.as_str());
                let all_words = split_whitespace(clean_text.as_str());
                Some((all_words, q.source.clone()))
            },
            None => None,
        }
    }
}

} // verus!

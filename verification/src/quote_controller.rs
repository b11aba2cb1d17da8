//! Quote selection and windowing: a resolved quote's first words are shown
//! at once and the rest wait in a pool, stored reversed so that removing
//! from the pool's end hands words out in their original order.

use vstd::prelude::*;
use crate::models::{QuoteData, QuoteSelector};
use crate::sourcing::{any_quote_resolves, resolves_to, TextSource};

verus! {

/// How many words of a quote are shown immediately; the rest go to the pool.
pub const QUOTE_WINDOW: usize = 100;

/// The window split of a quote's words: the first `QUOTE_WINDOW` words and
/// the reversed remainder, or everything and an empty pool for a short
/// quote.
pub open spec fn spec_window(all: Seq<Seq<char>>) -> (Seq<Seq<char>>, Seq<Seq<char>>) {
    if all.len() > QUOTE_WINDOW {
        (all.take(QUOTE_WINDOW as int), all.skip(QUOTE_WINDOW as int).reverse())
    } else {
        (all, Seq::empty())
    }
}

/// Windowing is lossless: the displayed window followed by the pool read
/// back-to-front is exactly the quote's word sequence, so the window and the
/// pool together hold every quote word, and draining the pool from its end
/// yields the suffix beyond the window in original order.
pub proof fn lemma_window_partition(all: Seq<Seq<char>>)
    ensures
        spec_window(all).0.len() + spec_window(all).1.len() == all.len(),
        all.len() > QUOTE_WINDOW ==> spec_window(all).0.len() == QUOTE_WINDOW,
        spec_window(all).0 + spec_window(all).1.reverse() =~= all,
        forall|k: int|
            0 <= k < spec_window(all).1.len() ==> #[trigger] spec_window(all).1[spec_window(
                all,
            ).1.len() - 1 - k] == all[QUOTE_WINDOW + k],
{
    if all.len() > QUOTE_WINDOW {
        let pool = all.skip(QUOTE_WINDOW as int).reverse();
        assert(pool.reverse() =~= all.skip(QUOTE_WINDOW as int));
        assert(all.take(QUOTE_WINDOW as int) + all.skip(QUOTE_WINDOW as int) =~= all);
        assert forall|k: int| 0 <= k < pool.len() implies #[trigger] pool[pool.len() - 1 - k]
            == all[QUOTE_WINDOW + k] by {
            assert(pool[pool.len() - 1 - k] == all.skip(QUOTE_WINDOW as int)[k]);
        }
    } else {
        assert(spec_window(all).0 + spec_window(all).1.reverse() =~= all);
    }
}

/// What one generation step hands the session for a quote.
pub struct QuoteResult {
    pub word_stream: Vec<String>,
    pub quote_pool: Vec<String>,
    pub total_words: usize,
    pub source_text: String,
}

impl QuoteResult {
    /// The result windows the word sequence `all` with attribution `src`.
    pub open spec fn windows(&self, all: Seq<Seq<char>>, src: Seq<char>) -> bool {
        &&& self.word_stream.deep_view() == spec_window(all).0
        &&& self.quote_pool.deep_view() == spec_window(all).1
        &&& self.total_words == all.len()
        &&& self.source_text@ == src
    }

    /// The fixed fallback when no quote resolves.
    pub open spec fn is_fallback(&self) -> bool {
        &&& self.word_stream.deep_view() =~= seq!["No"@, "Quote"@, "Found"@]
        &&& self.quote_pool.deep_view() == Seq::<Seq<char>>::empty()
        &&& self.total_words == 3
        &&& self.source_text@ == "System"@
    }
}

/// Resolves the selector and windows the quote's words; the fixed fallback
/// stream when nothing resolves.
pub fn generate(
    source: &TextSource,
    selector: &QuoteSelector,
    quote_data: &QuoteData,
    rng: &mut rand::rngs::ThreadRng,
) -> (r: QuoteResult)
    requires
        quote_data.wf(),
    ensures
        any_quote_resolves(*selector, *quote_data) ==> exists|all: Seq<Seq<char>>, src: Seq<char>|
            resolves_to(*selector, *quote_data, all, src) && r.windows(all, src),
        !any_quote_resolves(*selector, *quote_data) ==> r.is_fallback(),
        r.word_stream@.len() + r.quote_pool@.len() == r.total_words,
{
    let resolved = source.get_quote_text(selector, quote_data, rng);
    match resolved {
        Some((all_words, quote_source)) => {
            let total_words = all_words.len();
            let ghost all = all_words.deep_view();
            if all_words.len() > QUOTE_WINDOW {
                let mut stream = all_words;
                let mut pool = stream.split_off(QUOTE_WINDOW);
                let mut rev: Vec<String> = Vec::new();
                let ghost tail = pool.deep_view();
                while pool.len() > 0
                    invariant
                        pool@.len() <= tail.len(),
                        rev.deep_view() =~= tail.skip(pool@.len() as int).reverse(),
                        pool.deep_view() =~= tail.take(pool@.len() as int),
                    decreases pool@.len(),
                {
                    let ghost n = pool@.len() as int;
                    let ghost pool_pre = pool.deep_view();
                    let ghost old_rev = rev.deep_view();
                    let w = pool.pop().unwrap();
                    rev.push(w);
                    proof {
                        let ghost len_t = tail.len() as int;
                        assert(w@ == pool_pre[n - 1]);
                        assert(pool_pre[n - 1] == tail[n - 1]);
                        assert(pool.deep_view() =~= tail.take(n - 1));
                        assert(rev.deep_view() =~= old_rev.push(tail[n - 1]));
                        assert(old_rev.push(tail[n - 1]) =~= tail.skip(n - 1).reverse()) by {
                            let sk = tail.skip(n - 1);
                            assert(sk.len() == len_t - n + 1);
                            assert forall|m: int| 0 <= m < sk.len() implies sk.reverse()[m]
                                == old_rev.push(tail[n - 1])[m] by {
                                assert(sk.reverse()[m] == sk[sk.len() - 1 - m]);
                                assert(sk[sk.len() - 1 - m] == tail[len_t - 1 - m]);
                                if m < sk.len() - 1 {
                                    assert(old_rev.push(tail[n - 1])[m] == old_rev[m]);
                                    assert(old_rev[m] == tail.skip(n).reverse()[m]);
                                    assert(tail.skip(n).reverse()[m] == tail.skip(n)[len_t - n - 1
                                        - m]);
                                    assert(tail.skip(n)[len_t - n - 1 - m] == tail[len_t - 1 - m]);
                                } else {
                                    assert(old_rev.push(tail[n - 1])[m] == tail[n - 1]);
                                }
                            }
                        }
                    }
                }
                proof {
                    assert(stream.deep_view() =~= spec_window(all).0);
                    assert(tail =~= all.skip(QUOTE_WINDOW as int));
                    assert(tail.skip(0) =~= tail);
                    assert(rev.deep_view() =~= spec_window(all).1);
                }
                let r = QuoteResult {
                    word_stream: stream,
                    quote_pool: rev,
                    total_words,
                    source_text: quote_source,
                };
                proof {
                    let src = r.source_text@;
                    assert(resolves_to(*selector, *quote_data, all, src) && r.windows(all, src));
                    lemma_window_partition(all);
                    assert(r.word_stream@.len() == r.word_stream.deep_view().len());
                    assert(r.quote_pool@.len() == r.quote_pool.deep_view().len());
                }
                r
            } else {
                let r = QuoteResult {
                    word_stream: all_words,
                    quote_pool: Vec::new(),
                    total_words,
                    source_text: quote_source,
                };
                proof {
                    let src = r.source_text@;
                    assert(r.quote_pool.deep_view() =~= Seq::<Seq<char>>::empty());
                    assert(resolves_to(*selector, *quote_data, all, src) && r.windows(all, src));
                    lemma_window_partition(all);
                    assert(r.word_stream@.len() == r.word_stream.deep_view().len());
                }
                r
            }
        },
        None => {
            let mut word_stream: Vec<String> = Vec::new();
            word_stream.push(String::from_str("No"));
            word_stream.push(String::from_str("Quote"));
            word_stream.push(String::from_str("Found"));
            let r = QuoteResult {
                word_stream,
                quote_pool: Vec::new(),
                total_words: 3,
                source_text: String::from_str("System"),
            };
            proof {
                assert(r.word_stream.deep_view() =~= seq!["No"@, "Quote"@, "Found"@]);
                assert(r.quote_pool.deep_view() =~= Seq::<Seq<char>>::empty());
            }
            r
        },
    }
}

/// Removes and hands out the last pool element: the sole mechanism for
/// draining quote overflow during a live session. `None` signals exhaustion.
pub fn next_word(quote_pool: &mut Vec<String>) -> (r: Option<Vec<String>>)
    ensures
        (r is Some) <==> old(quote_pool)@.len() > 0,
        r matches Some(v) ==> {
            &&& v.deep_view() =~= seq![old(quote_pool).deep_view().last()]
            &&& final(quote_pool).deep_view() =~= old(quote_pool).deep_view().drop_last()
        },
        r is None ==> final(quote_pool)@ == old(quote_pool)@,
{
    match quote_pool.pop() {
        Some(w) => {
            let mut v: Vec<String> = Vec::new();
            v.push(w);
            proof {
                assert(v.deep_view() =~= seq![old(quote_pool).deep_view().last()]);
                assert(final(quote_pool).deep_view() =~= old(quote_pool).deep_view().drop_last());
            }
            Some(v)
        },
        None => None,
    }
}

} // verus!

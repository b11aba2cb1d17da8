//! The orchestrator: one call produces the initial stream for the active
//! mode, and one call per consumed word appends the next unit until the
//! mode's termination condition is reached. The generator holds no stream
//! state between calls; the session owns it and threads it back in.

use vstd::prelude::*;
use crate::formatting::{
    spec_contextual_cap,
    spec_finalize,
    apply_contextual_capitalization,
    finalize_stream_punctuation,
};
use crate::models::{Mode, QuoteData, WordData};
use crate::punctuation::PunctuationRules;
use crate::quote_controller;
use crate::rng::fresh_rng;
use crate::sourcing::{any_quote_resolves, resolves_to, TextSource};
use crate::word_controller::{
    all_nonempty,
    transformed_word,
    unit_word,
    generate_count_batch,
    generate_next_word,
    generate_smart_word,
    generate_time_batch,
    TIME_BATCH_SIZE,
};

verus! {

/// What one initial generation call hands the session: the stream to show,
/// the windowed quote overflow, and the counters the session threads back in
/// on each incremental call.
pub struct GeneratedWords {
    pub word_stream: Vec<String>,
    pub quote_pool: Vec<String>,
    pub total_quote_words: usize,
    pub current_quote_source: String,
    pub generated_count: usize,
}

/// The generator: a text source over the corpus and the per-word engine.
pub struct WordGenerator {
    source: TextSource,
    rules: PunctuationRules,
}

/// The appended words `v` came from one produced unit: a transformed sampled
/// word, at most one leading dash token, contextually capitalized against
/// the existing stream.
pub open spec fn produced_unit(
    g: WordGenerator,
    existing: Seq<Seq<char>>,
    v: Seq<Seq<char>>,
) -> bool {
    exists|u: Seq<Seq<char>>|
        {
            &&& all_nonempty(u)
            &&& 1 <= u.len() <= 2
            &&& (u.len() == 2 ==> u[0] == "-"@)
            &&& (!g.spec_rules().use_punctuation ==> u.len() == 1)
            &&& (forall|i: int|
                0 <= i < u.len() ==> unit_word(g.corpus(), g.spec_rules(), #[trigger] u[i]))
            &&& (!g.spec_rules().use_punctuation && !g.spec_rules().use_numbers && g.corpus().len()
                > 0 ==> g.corpus().contains(u.last()))
            &&& v == spec_contextual_cap(u, existing, g.spec_rules().use_punctuation)
        }
}

impl WordGenerator {
    /// The corpus the generator samples from.
    pub closed spec fn corpus(&self) -> Seq<Seq<char>> {
        self.source.corpus()
    }

    /// The flags the per-word engine was configured with.
    pub closed spec fn spec_rules(&self) -> PunctuationRules {
        self.rules
    }

    /// Every corpus word is non-empty.
    pub open spec fn wf(&self) -> bool {
        forall|i: int| 0 <= i < self.corpus().len() ==> (#[trigger] self.corpus()[i]).len() > 0
    }

    pub fn new(word_data: WordData, use_numbers: bool, use_punctuation: bool) -> (r: Self)
        ensures
            r.corpus() == word_data.words.deep_view(),
            r.spec_rules() == (PunctuationRules { use_punctuation, use_numbers }),
    {
        WordGenerator {
            source: TextSource::new(word_data),
            rules: PunctuationRules { use_numbers, use_punctuation },
        }
    }

    /// Produces the initial stream for the mode. Quote text is left as
    /// authored; for the other modes, with punctuation enabled, the whole
    /// fresh batch is finalized once.
    pub fn generate_initial_words(&self, mode: &Mode, quote_data: &QuoteData) -> (r:
        GeneratedWords)
        requires
            self.wf(),
            quote_data.wf(),
        ensures
            all_nonempty(r.word_stream.deep_view()),
            match *mode {
                Mode::Time(_) => {
                    &&& r.word_stream@.len() >= TIME_BATCH_SIZE - 1
                    &&& r.quote_pool@.len() == 0
                    &&& r.total_quote_words == 0
                    &&& r.current_quote_source@.len() == 0
                    &&& r.generated_count == 0
                    &&& (!self.spec_rules().use_punctuation && !self.spec_rules().use_numbers
                        && self.corpus().len() > 0 ==> forall|i: int|
                        0 <= i < r.word_stream@.len() ==> self.corpus().contains(
                            #[trigger] r.word_stream.deep_view()[i],
                        ))
                    &&& (!self.spec_rules().use_punctuation && !self.spec_rules().use_numbers
                        && self.corpus().len() == 0 ==> forall|i: int|
                        0 <= i < r.word_stream@.len()
                            ==> #[trigger] r.word_stream.deep_view()[i] == "word"@)
                },
                Mode::Words(target) => {
                    &&& r.generated_count == vstd::math::min(
                        target as int,
                        self.corpus().len() as int,
                    )
                    &&& r.generated_count <= target
                    &&& r.word_stream@.len() + 1 >= r.generated_count
                    &&& r.quote_pool@.len() == 0
                    &&& r.total_quote_words == 0
                    &&& r.current_quote_source@.len() == 0
                    &&& (!self.spec_rules().use_punctuation && !self.spec_rules().use_numbers
                        ==> r.word_stream@.len() == r.generated_count && forall|i: int|
                        0 <= i < r.word_stream@.len() ==> self.corpus().contains(
                            #[trigger] r.word_stream.deep_view()[i],
                        ))
                },
                Mode::Quote(selector) => {
                    &&& r.generated_count == 0
                    &&& r.word_stream@.len() + r.quote_pool@.len() == r.total_quote_words
                    &&& (any_quote_resolves(selector, *quote_data) ==> exists|
                        all: Seq<Seq<char>>,
                        src: Seq<char>,
                    |
                        {
                            &&& resolves_to(selector, *quote_data, all, src)
                            &&& r.word_stream.deep_view()
                                == quote_controller::spec_window(all).0
                            &&& r.quote_pool.deep_view() == quote_controller::spec_window(all).1
                            &&& r.total_quote_words == all.len()
                            &&& r.current_quote_source@ == src
                        })
                    &&& (!any_quote_resolves(selector, *quote_data) ==> {
                        &&& r.word_stream.deep_view() =~= seq!["No"@, "Quote"@, "Found"@]
                        &&& r.quote_pool@.len() == 0
                        &&& r.total_quote_words == 3
                        &&& r.current_quote_source@ == "System"@
                    })
                },
            },
            self.spec_rules().use_punctuation && !(mode is Quote) ==> exists|b: Seq<Seq<char>>|
                {
                    &&& all_nonempty(b)
                    &&& forall|i: int|
                        0 <= i < b.len() ==> unit_word(
                            self.corpus(),
                            self.spec_rules(),
                            #[trigger] b[i],
                        )
                    &&& (mode is Time ==> TIME_BATCH_SIZE <= b.len() <= 2 * TIME_BATCH_SIZE)
                    &&& (!(mode is Time) ==> r.generated_count <= b.len() <= 2
                        * r.generated_count)
                    &&& (b.len() > 0 ==> transformed_word(
                        self.corpus(),
                        self.spec_rules(),
                        b.last(),
                    ))
                    &&& r.word_stream.deep_view() == spec_finalize(b)
                },
    {
        proof {
            assert forall|i: int| 0 <= i < self.source.corpus().len() implies (
            #[trigger] self.source.corpus()[i]).len() > 0 by {
                assert(self.corpus()[i] == self.source.corpus()[i]);
            }
            assert(self.source.wf());
        }
        let mut rng = fresh_rng();
        match mode {
            Mode::Time(_) => {
                let mut word_stream = generate_time_batch(&self.source, &self.rules, &mut rng);
                let ghost batch = word_stream.deep_view();
                proof {
                    assert(self.corpus() == self.source.corpus());
                    assert(self.spec_rules() == self.rules);
                    assert forall|i: int| 0 <= i < batch.len() implies unit_word(
                        self.corpus(),
                        self.spec_rules(),
                        #[trigger] batch[i],
                    ) by {
                        assert(unit_word(self.source.corpus(), self.rules, batch[i]));
                    }
                    if batch.len() > 0 {
                        assert(transformed_word(self.corpus(), self.spec_rules(), batch.last()));
                    }
                }
                if self.rules.use_punctuation {
                    finalize_stream_punctuation(&mut word_stream);
                    proof {
                        crate::formatting::lemma_finalize_len_bound(batch);
                        assert(word_stream@.len() == word_stream.deep_view().len());
                        assert(word_stream.deep_view().len() >= batch.len() - 1);
                    }
                }
                GeneratedWords {
                    word_stream,
                    quote_pool: Vec::new(),
                    total_quote_words: 0,
                    current_quote_source: String::new(),
                    generated_count: 0,
                }
            },
            Mode::Words(target) => {
                let (mut word_stream, generated_count) = generate_count_batch(
                    &self.source,
                    &self.rules,
                    *target,
                    &mut rng,
                );
                let ghost batch = word_stream.deep_view();
                proof {
                    assert(self.corpus() == self.source.corpus());
                    assert(self.spec_rules() == self.rules);
                    assert forall|i: int| 0 <= i < batch.len() implies unit_word(
                        self.corpus(),
                        self.spec_rules(),
                        #[trigger] batch[i],
                    ) by {
                        assert(unit_word(self.source.corpus(), self.rules, batch[i]));
                    }
                    if batch.len() > 0 {
                        assert(transformed_word(self.corpus(), self.spec_rules(), batch.last()));
                    }
                }
                if self.rules.use_punctuation {
                    finalize_stream_punctuation(&mut word_stream);
                    proof {
                        crate::formatting::lemma_finalize_len_bound(batch);
                        assert(word_stream@.len() == word_stream.deep_view().len());
                        assert(word_stream.deep_view().len() >= batch.len() - 1);
                    }
                }
                GeneratedWords {
                    word_stream,
                    quote_pool: Vec::new(),
                    total_quote_words: 0,
                    current_quote_source: String::new(),
                    generated_count,
                }
            },
            Mode::Quote(selector) => {
                let result = quote_controller::generate(
                    &self.source,
                    selector,
                    quote_data,
                    &mut rng,
                );
                proof {
                    if any_quote_resolves(*selector, *quote_data) {
                        let (all, src): (Seq<Seq<char>>, Seq<char>) = choose|
                            all: Seq<Seq<char>>,
                            src: Seq<char>,
                        | resolves_to(*selector, *quote_data, all, src) && result.windows(all, src);
                        crate::sourcing::lemma_resolved_words_nonempty(
                            *selector,
                            *quote_data,
                            all,
                            src,
                        );
                        assert forall|i: int|
                            0 <= i < result.word_stream.deep_view().len() implies (
                        #[trigger] result.word_stream.deep_view()[i]).len() > 0 by {
                            assert(result.word_stream.deep_view()[i] == all[i]);
                        }
                    } else {
                        reveal_strlit("No");
                        reveal_strlit("Quote");
                        reveal_strlit("Found");
                        assert forall|i: int|
                            0 <= i < result.word_stream.deep_view().len() implies (
                        #[trigger] result.word_stream.deep_view()[i]).len() > 0 by {
                            assert(result.word_stream.deep_view() =~= seq![
                                "No"@,
                                "Quote"@,
                                "Found"@,
                            ]);
                        }
                    }
                }
                proof {
                    assert(result.quote_pool@.len() == result.quote_pool.deep_view().len());
                }
                GeneratedWords {
                    word_stream: result.word_stream,
                    quote_pool: result.quote_pool,
                    total_quote_words: result.total_words,
                    current_quote_source: result.source_text,
                    generated_count: 0,
                }
            },
        }
    }

    /// Appends the next unit, or signals termination: always one more unit
    /// in timed mode, the next pooled word in quote mode (`None` once the
    /// pool is drained), and one more word in word-count mode only while the
    /// produced count is below the target (`None` from then on).
    pub fn add_one_word(
        &self,
        mode: &Mode,
        existing_stream: &Vec<String>,
        quote_pool: &mut Vec<String>,
        generated_count: usize,
    ) -> (r: Option<Vec<String>>)
        requires
            self.wf(),
        ensures
            match *mode {
                Mode::Time(_) => {
                    &&& r is Some
                    &&& final(quote_pool)@ == old(quote_pool)@
                    &&& (r matches Some(v) ==> 1 <= v@.len() <= 2 && all_nonempty(v.deep_view()))
                    &&& (r matches Some(v) ==> produced_unit(
                        *self,
                        existing_stream.deep_view(),
                        v.deep_view(),
                    ))
                },
                Mode::Quote(_) => {
                    &&& (r is Some) <==> old(quote_pool)@.len() > 0
                    &&& (r matches Some(v) ==> v.deep_view() =~= seq![
                        old(quote_pool).deep_view().last(),
                    ] && final(quote_pool).deep_view() =~= old(quote_pool).deep_view().drop_last())
                    &&& (r is None ==> final(quote_pool)@ == old(quote_pool)@)
                },
                Mode::Words(target) => {
                    &&& final(quote_pool)@ == old(quote_pool)@
                    &&& ((r is Some) <==> generated_count < target)
                    &&& (r matches Some(v) ==> 1 <= v@.len() <= 2 && all_nonempty(v.deep_view()))
                    &&& (r matches Some(v) ==> produced_unit(
                        *self,
                        existing_stream.deep_view(),
                        v.deep_view(),
                    ))
                },
            },
    {
        proof {
            assert forall|i: int| 0 <= i < self.source.corpus().len() implies (
            #[trigger] self.source.corpus()[i]).len() > 0 by {
                assert(self.corpus()[i] == self.source.corpus()[i]);
            }
            assert(self.source.wf());
        }
        let mut rng = fresh_rng();
        match mode {
            Mode::Time(_) => {
                let mut new_words = generate_smart_word(&self.source, &self.rules, &mut rng);
                let ghost unit = new_words.deep_view();
                apply_contextual_capitalization(
                    &mut new_words,
                    existing_stream,
                    self.rules.use_punctuation,
                );
                proof {
                    crate::formatting::lemma_contextual_cap_preserves(
                        unit,
                        existing_stream.deep_view(),
                        self.rules.use_punctuation,
                    );
                    assert forall|i: int| 0 <= i < new_words.deep_view().len() implies (
                    #[trigger] new_words.deep_view()[i]).len() > 0 by {
                        assert(new_words.deep_view()[i] == spec_contextual_cap(
                            unit,
                            existing_stream.deep_view(),
                            self.rules.use_punctuation,
                        )[i]);
                    }
                    assert(self.corpus() == self.source.corpus());
                    assert(self.spec_rules() == self.rules);
                    assert forall|i: int| 0 <= i < unit.len() implies unit_word(
                        self.corpus(),
                        self.spec_rules(),
                        #[trigger] unit[i],
                    ) by {
                        assert(unit_word(self.source.corpus(), self.rules, unit[i]));
                    }
                    assert(produced_unit(
                        *self,
                        existing_stream.deep_view(),
                        new_words.deep_view(),
                    ));
                }
                Some(new_words)
            },
            Mode::Quote(_) => quote_controller::next_word(quote_pool),
            Mode::Words(target) => {
                if generated_count < *target {
                    let mut new_words = generate_next_word(
                        &self.source,
                        &self.rules,
                        existing_stream,
                        &mut rng,
                    );
                    let ghost unit = new_words.deep_view();
                    apply_contextual_capitalization(
                        &mut new_words,
                        existing_stream,
                        self.rules.use_punctuation,
                    );
                    proof {
                        crate::formatting::lemma_contextual_cap_preserves(
                            unit,
                            existing_stream.deep_view(),
                            self.rules.use_punctuation,
                        );
                        assert forall|i: int| 0 <= i < new_words.deep_view().len() implies (
                        #[trigger] new_words.deep_view()[i]).len() > 0 by {
                            assert(new_words.deep_view()[i] == spec_contextual_cap(
                                unit,
                                existing_stream.deep_view(),
                                self.rules.use_punctuation,
                            )[i]);
                        }
                        assert(self.corpus() == self.source.corpus());
                        assert(self.spec_rules() == self.rules);
                        assert forall|i: int| 0 <= i < unit.len() implies unit_word(
                            self.corpus(),
                            self.spec_rules(),
                            #[trigger] unit[i],
                        ) by {
                            assert(unit_word(self.source.corpus(), self.rules, unit[i]));
                        }
                        assert(produced_unit(
                            *self,
                            existing_stream.deep_view(),
                            new_words.deep_view(),
                        ));
                    }
                    Some(new_words)
                } else {
                    None
                }
            },
        }
    }
}

/// With a corpus that holds neither a lone dash nor a lone comma as a word,
/// a finalized batch of produced units whose last element is a transformed
/// word is non-empty, begins with an uppercase letter wherever it begins
/// with a letter, ends in a terminator, and holds no empty word. Together
/// with the batch `generate_initial_words` exhibits for the non-quote modes
/// under punctuation, this states the stream-level formatting guarantees of
/// a freshly produced stream.
pub proof fn lemma_initial_stream_formatting(g: WordGenerator, b: Seq<Seq<char>>)
    requires
        g.wf(),
        forall|j: int|
            0 <= j < g.corpus().len() ==> #[trigger] g.corpus()[j] != seq!['-'] && g.corpus()[j]
                != seq![','],
        all_nonempty(b),
        b.len() > 0,
        transformed_word(g.corpus(), g.spec_rules(), b.last()),
    ensures
        spec_finalize(b).len() > 0,
        crate::text::is_alpha_char(b[0][0]) ==> crate::text::is_upper_char(
            spec_finalize(b)[0][0],
        ),
        crate::text::spec_ends_with_terminator(spec_finalize(b).last()),
        forall|i: int| 0 <= i < spec_finalize(b).len() ==> (#[trigger] spec_finalize(b)[i]).len()
            > 0,
{
    let (w, d): (Seq<char>, crate::punctuation::ApplyDraws) = choose|
        w: Seq<char>,
        d: crate::punctuation::ApplyDraws,
    |
        {
            &&& d.wf()
            &&& (g.corpus().contains(w) || (g.corpus().len() == 0 && w == "word"@))
            &&& b.last() == crate::punctuation::spec_apply(g.spec_rules(), w, d)
        };
    assert(w.len() > 0 && w != seq!['-'] && w != seq![',']) by {
        if g.corpus().contains(w) {
            let j = choose|j: int| 0 <= j < g.corpus().len() && g.corpus()[j] == w;
            assert(g.corpus()[j].len() > 0);
        } else {
            reveal_strlit("word");
            assert(w.len() == 4);
        }
    }
    crate::punctuation::lemma_apply_not_lone_mark(g.spec_rules(), w, d);
    crate::formatting::lemma_finalize_first_and_last(b);
}

} // verus!

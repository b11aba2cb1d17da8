//! Word production for the two non-quote modes: a batch for the open-ended
//! timed display, a batch toward a fixed word count, and single appended
//! units, each word run through the punctuation engine and occasionally
//! preceded by a literal dash token.

use vstd::prelude::*;
use crate::punctuation::{lemma_apply_nonempty, spec_apply, ApplyDraws, PunctuationRules};
use crate::sourcing::TextSource;
use crate::text::str_eq;

verus! {

/// How many corpus words the initial timed-mode batch draws: enough to fill
/// a typical display window.
pub const TIME_BATCH_SIZE: usize = 50;

/// Every element is a non-empty word.
pub open spec fn all_nonempty(ws: Seq<Seq<char>>) -> bool {
    forall|i: int| 0 <= i < ws.len() ==> (#[trigger] ws[i]).len() > 0
}

/// The element is the transformation of a sampled word — a corpus word, or
/// the fixed fallback word when the corpus is empty.
pub open spec fn transformed_word(
    corpus: Seq<Seq<char>>,
    rules: PunctuationRules,
    w: Seq<char>,
) -> bool {
    exists|b: Seq<char>, d: ApplyDraws|
        {
            &&& d.wf()
            &&& (corpus.contains(b) || (corpus.len() == 0 && b == "word"@))
            &&& w == spec_apply(rules, b, d)
        }
}

/// A produced stream element: the literal dash token, or the transformation
/// of a sampled word.
pub open spec fn unit_word(corpus: Seq<Seq<char>>, rules: PunctuationRules, w: Seq<char>) -> bool {
    w == "-"@ || transformed_word(corpus, rules, w)
}

/// Pushes one produced unit: the transformed word, preceded by a dash token
/// when the engine signals one and the batch has begun.
fn push_unit(
    out: &mut Vec<String>,
    source: &TextSource,
    rules: &PunctuationRules,
    rng: &mut rand::rngs::ThreadRng,
)
    requires
        source.wf(),
    ensures
        all_nonempty(old(out).deep_view()) ==> all_nonempty(final(out).deep_view()),
        old(out)@.len() + 1 <= final(out)@.len() <= old(out)@.len() + 2,
        !rules.use_punctuation ==> final(out)@.len() == old(out)@.len() + 1,
        final(out).deep_view().take(old(out)@.len() as int) == old(out).deep_view(),
        final(out)@.len() == old(out)@.len() + 2 ==> final(out).deep_view()[old(out)@.len() as int]
            == "-"@,
        transformed_word(source.corpus(), *rules, final(out).deep_view().last()),
        !rules.use_punctuation && !rules.use_numbers && source.corpus().len() > 0
            ==> source.corpus().contains(final(out).deep_view().last()),
        !rules.use_punctuation && !rules.use_numbers && source.corpus().len() == 0
            ==> final(out).deep_view().last() == "word"@,
{
    let dash = rules.should_insert_dash(rng);
    if dash && out.len() > 0 {
        let d = String::from_str("-");
        proof {
            reveal_strlit("-");
        }
        out.push(d);
    }
    let ghost mid = out.deep_view();
    let w = source.get_random_word(rng);
    let t = rules.apply(w.as_str(), rng);
    proof {
        let d = choose|d: ApplyDraws| d.wf() && t@ == spec_apply(*rules, w@, d);
        lemma_apply_nonempty(*rules, w@, d);
    }
    out.push(t);
    proof {
        assert(final(out).deep_view().take(old(out)@.len() as int) =~= old(out).deep_view());
        assert(final(out).deep_view().last() == t@);
        if final(out)@.len() == old(out)@.len() + 2 {
            assert(final(out).deep_view()[old(out)@.len() as int] == mid.last());
        }
        assert(transformed_word(source.corpus(), *rules, t@)) by {
            let d = choose|d: ApplyDraws| d.wf() && t@ == spec_apply(*rules, w@, d);
            if source.corpus().len() > 0 {
                let i = choose|i: int| 0 <= i < source.corpus().len() && w@ == source.corpus()[i];
                assert(source.corpus().contains(w@));
            }
        }
        if !rules.use_punctuation && !rules.use_numbers {
            let d = choose|d: ApplyDraws| d.wf() && t@ == spec_apply(*rules, w@, d);
            assert(t@ == w@);
            if source.corpus().len() > 0 {
                let i = choose|i: int| 0 <= i < source.corpus().len() && w@ == source.corpus()[i];
                assert(source.corpus().contains(t@));
            }
        }
        assert forall|i: int| 0 <= i < final(out).deep_view().len() && all_nonempty(
            old(out).deep_view(),
        ) implies (#[trigger] final(out).deep_view()[i]).len() > 0 by {
            if i < old(out)@.len() {
                assert(final(out).deep_view()[i] == old(out).deep_view()[i]);
            } else if i < final(out)@.len() - 1 {
                assert(final(out).deep_view()[i] == "-"@);
                reveal_strlit("-");
            }
        }
    }
}

/// The initial batch for the open-ended timed mode.
pub fn generate_time_batch(
    source: &TextSource,
    rules: &PunctuationRules,
    rng: &mut rand::rngs::ThreadRng,
) -> (r: Vec<String>)
    requires
        source.wf(),
    ensures
        all_nonempty(r.deep_view()),
        TIME_BATCH_SIZE <= r@.len() <= 2 * TIME_BATCH_SIZE,
        forall|i: int|
            0 <= i < r@.len() ==> unit_word(source.corpus(), *rules, #[trigger] r.deep_view()[i]),
        transformed_word(source.corpus(), *rules, r.deep_view().last()),
        !rules.use_punctuation && !rules.use_numbers && source.corpus().len() > 0 ==> forall|i: int|
            0 <= i < r@.len() ==> source.corpus().contains(#[trigger] r.deep_view()[i]),
        !rules.use_punctuation && !rules.use_numbers && source.corpus().len() == 0 ==> forall|
            i: int,
        | 0 <= i < r@.len() ==> #[trigger] r.deep_view()[i] == "word"@,
{
    let mut out: Vec<String> = Vec::new();
    let mut i: usize = 0;
    while i < TIME_BATCH_SIZE
        invariant
            source.wf(),
            i <= TIME_BATCH_SIZE,
            all_nonempty(out.deep_view()),
            i <= out@.len() <= 2 * i,
            forall|k: int|
                0 <= k < out@.len() ==> unit_word(
                    source.corpus(),
                    *rules,
                    #[trigger] out.deep_view()[k],
                ),
            out@.len() > 0 ==> transformed_word(source.corpus(), *rules, out.deep_view().last()),
            !rules.use_punctuation && !rules.use_numbers && source.corpus().len() > 0 ==> forall|
                k: int,
            | 0 <= k < out@.len() ==> source.corpus().contains(#[trigger] out.deep_view()[k]),
            !rules.use_punctuation && !rules.use_numbers && source.corpus().len() == 0 ==> forall|
                k: int,
            | 0 <= k < out@.len() ==> #[trigger] out.deep_view()[k] == "word"@,
        decreases TIME_BATCH_SIZE - i,
    {
        let ghost before = out.deep_view();
        push_unit(&mut out, source, rules, rng);
        proof {
            reveal_strlit("-");
            assert forall|k: int| 0 <= k < out@.len() implies unit_word(
                source.corpus(),
                *rules,
                #[trigger] out.deep_view()[k],
            ) by {
                if k < before.len() {
                    assert(out.deep_view()[k] == out.deep_view().take(before.len() as int)[k]);
                    assert(out.deep_view()[k] == before[k]);
                } else if k == out@.len() - 1 {
                    assert(out.deep_view()[k] == out.deep_view().last());
                } else {
                    assert(out.deep_view()[k] == "-"@);
                }
            }
            if !rules.use_punctuation && !rules.use_numbers {
                assert forall|k: int|
                    0 <= k < out@.len() && source.corpus().len() > 0 implies source.corpus(
                ).contains(#[trigger] out.deep_view()[k]) by {
                    if k < before.len() {
                        assert(out.deep_view()[k] == out.deep_view().take(before.len() as int)[k]);
                        assert(out.deep_view()[k] == before[k]);
                    } else {
                        assert(k == out@.len() - 1);
                        assert(out.deep_view()[k] == out.deep_view().last());
                    }
                }
                assert forall|k: int|
                    0 <= k < out@.len() && source.corpus().len() == 0 implies #[trigger] out.deep_view()[k]
                    == "word"@ by {
                    if k < before.len() {
                        assert(out.deep_view()[k] == out.deep_view().take(before.len() as int)[k]);
                        assert(out.deep_view()[k] == before[k]);
                    } else {
                        assert(k == out@.len() - 1);
                        assert(out.deep_view()[k] == out.deep_view().last());
                    }
                }
            }
        }
        i = i + 1;
    }
    out
}

/// A batch of up to `target` corpus words (dash tokens not counted), with
/// the count actually produced: the full corpus when it is smaller than the
/// target. Words are drawn as one shuffled unique batch.
pub fn generate_count_batch(
    source: &TextSource,
    rules: &PunctuationRules,
    target: usize,
    rng: &mut rand::rngs::ThreadRng,
) -> (r: (Vec<String>, usize))
    requires
        source.wf(),
    ensures
        r.1 == vstd::math::min(target as int, source.corpus().len() as int),
        all_nonempty(r.0.deep_view()),
        r.1 <= r.0@.len() <= 2 * r.1,
        forall|i: int|
            0 <= i < r.0@.len() ==> unit_word(
                source.corpus(),
                *rules,
                #[trigger] r.0.deep_view()[i],
            ),
        r.1 > 0 ==> transformed_word(source.corpus(), *rules, r.0.deep_view().last()),
        !rules.use_punctuation && !rules.use_numbers ==> r.0@.len() == r.1 && forall|i: int|
            0 <= i < r.0@.len() ==> source.corpus().contains(#[trigger] r.0.deep_view()[i]),
{
    let words = source.get_unique_batch(target, rng);
    let count = words.len();
    let mut out: Vec<String> = Vec::new();
    let mut i: usize = 0;
    while i < count
        invariant
            source.wf(),
            count == words@.len(),
            words@.len() == vstd::math::min(target as int, source.corpus().len() as int),
            forall|k: int|
                0 <= k < words@.len() ==> source.corpus().contains((#[trigger] words@[k])@),
            i <= count,
            all_nonempty(out.deep_view()),
            i <= out@.len() <= 2 * i,
            forall|k: int|
                0 <= k < out@.len() ==> unit_word(
                    source.corpus(),
                    *rules,
                    #[trigger] out.deep_view()[k],
                ),
            out@.len() > 0 ==> transformed_word(source.corpus(), *rules, out.deep_view().last()),
            !rules.use_punctuation ==> out@.len() == i,
            !rules.use_punctuation && !rules.use_numbers ==> forall|k: int|
                0 <= k < out@.len() ==> source.corpus().contains(#[trigger] out.deep_view()[k]),
        decreases count - i,
    {
        let ghost before = out.deep_view();
        let dash = rules.should_insert_dash(rng);
        if dash && out.len() > 0 {
            let d = String::from_str("-");
            proof {
                reveal_strlit("-");
            }
            out.push(d);
        }
        let ghost mid = out.deep_view();
        let t = rules.apply(words[i].as_str(), rng);
        proof {
            assert(words@[i as int]@.len() > 0) by {
                assert(source.corpus().contains(words@[i as int]@));
                let j = choose|j: int|
                    0 <= j < source.corpus().len() && source.corpus()[j] == words@[i as int]@;
            }
            let d = choose|d: ApplyDraws| d.wf() && t@ == spec_apply(*rules, words@[i as int]@, d);
            lemma_apply_nonempty(*rules, words@[i as int]@, d);
            if !rules.use_punctuation && !rules.use_numbers {
                assert(t@ == words@[i as int]@);
            }
        }
        out.push(t);
        proof {
            assert forall|k: int| 0 <= k < out.deep_view().len() implies (
            #[trigger] out.deep_view()[k]).len() > 0 by {
                if k < before.len() {
                    assert(out.deep_view()[k] == before[k]);
                } else if k < out.deep_view().len() - 1 {
                    assert(out.deep_view()[k] == "-"@);
                    reveal_strlit("-");
                }
            }
            assert forall|k: int| 0 <= k < out@.len() implies unit_word(
                source.corpus(),
                *rules,
                #[trigger] out.deep_view()[k],
            ) by {
                if k < before.len() {
                    assert(out.deep_view()[k] == before[k]);
                } else if k == out@.len() - 1 {
                    assert(out.deep_view()[k] == t@);
                    let d = choose|d: ApplyDraws|
                        d.wf() && t@ == spec_apply(*rules, words@[i as int]@, d);
                    assert(source.corpus().contains(words@[i as int]@));
                    assert(transformed_word(source.corpus(), *rules, t@));
                } else {
                    assert(out.deep_view()[k] == mid[k]);
                    assert(mid[k] == "-"@);
                    reveal_strlit("-");
                }
            }
            assert(out.deep_view().last() == t@);
            assert(transformed_word(source.corpus(), *rules, t@)) by {
                let d = choose|d: ApplyDraws|
                    d.wf() && t@ == spec_apply(*rules, words@[i as int]@, d);
                assert(source.corpus().contains(words@[i as int]@));
            }
            if !rules.use_punctuation && !rules.use_numbers {
                assert forall|k: int| 0 <= k < out@.len() implies source.corpus().contains(
                    #[trigger] out.deep_view()[k],
                ) by {
                    if k < before.len() {
                        assert(out.deep_view()[k] == before[k]);
                    }
                }
            }
        }
        i = i + 1;
    }
    (out, count)
}

/// One appended unit for the timed mode: a transformed word, possibly led by
/// a dash token.
pub fn generate_smart_word(
    source: &TextSource,
    rules: &PunctuationRules,
    rng: &mut rand::rngs::ThreadRng,
) -> (r: Vec<String>)
    requires
        source.wf(),
    ensures
        all_nonempty(r.deep_view()),
        1 <= r@.len() <= 2,
        !rules.use_punctuation ==> r@.len() == 1,
        r@.len() == 2 ==> r.deep_view()[0] == "-"@,
        forall|i: int|
            0 <= i < r@.len() ==> unit_word(source.corpus(), *rules, #[trigger] r.deep_view()[i]),
        !rules.use_punctuation && !rules.use_numbers && source.corpus().len() > 0
            ==> source.corpus().contains(r.deep_view().last()),
        !rules.use_punctuation && !rules.use_numbers && source.corpus().len() == 0
            ==> r.deep_view().last() == "word"@,
{
    let mut out: Vec<String> = Vec::new();
    push_unit(&mut out, source, rules, rng);
    proof {
        assert forall|i: int| 0 <= i < out@.len() implies unit_word(
            source.corpus(),
            *rules,
            #[trigger] out.deep_view()[i],
        ) by {
            if i == out@.len() - 1 {
                assert(out.deep_view()[i] == out.deep_view().last());
            } else {
                assert(out.deep_view()[i] == "-"@);
                reveal_strlit("-");
            }
        }
    }
    out
}

/// One appended unit for the word-count mode. A draw equal to the stream's
/// last word is redrawn once, to avoid the most immediate repetition.
pub fn generate_next_word(
    source: &TextSource,
    rules: &PunctuationRules,
    existing_stream: &Vec<String>,
    rng: &mut rand::rngs::ThreadRng,
) -> (r: Vec<String>)
    requires
        source.wf(),
    ensures
        all_nonempty(r.deep_view()),
        1 <= r@.len() <= 2,
        !rules.use_punctuation ==> r@.len() == 1,
        r@.len() == 2 ==> r.deep_view()[0] == "-"@,
        forall|i: int|
            0 <= i < r@.len() ==> unit_word(source.corpus(), *rules, #[trigger] r.deep_view()[i]),
        !rules.use_punctuation && !rules.use_numbers && source.corpus().len() > 0
            ==> source.corpus().contains(r.deep_view().last()),
        !rules.use_punctuation && !rules.use_numbers && source.corpus().len() == 0
            ==> r.deep_view().last() == "word"@,
{
    let mut w = source.get_random_word(rng);
    if existing_stream.len() > 0 {
        let last = &existing_stream[existing_stream.len() - 1];
        if str_eq(w.as_str(), last.as_str()) {
            w = source.get_random_word(rng);
        }
    }
    let mut out: Vec<String> = Vec::new();
    let dash = rules.should_insert_dash(rng);
    if dash {
        let d = String::from_str("-");
        proof {
            reveal_strlit("-");
        }
        out.push(d);
    }
    let t = rules.apply(w.as_str(), rng);
    proof {
        let d = choose|d: ApplyDraws| d.wf() && t@ == spec_apply(*rules, w@, d);
        lemma_apply_nonempty(*rules, w@, d);
    }
    out.push(t);
    proof {
        reveal_strlit("-");
        assert forall|k: int| 0 <= k < out.deep_view().len() implies (
        #[trigger] out.deep_view()[k]).len() > 0 by {
            if k < out.deep_view().len() - 1 {
                assert(out.deep_view()[k] == "-"@);
            }
        }
        assert(out.deep_view().last() == t@);
        assert(transformed_word(source.corpus(), *rules, t@)) by {
            let d = choose|d: ApplyDraws| d.wf() && t@ == spec_apply(*rules, w@, d);
            if source.corpus().len() > 0 {
                let i = choose|i: int| 0 <= i < source.corpus().len() && w@ == source.corpus()[i];
                assert(source.corpus().contains(w@));
            }
        }
        assert forall|k: int| 0 <= k < out@.len() implies unit_word(
            source.corpus(),
            *rules,
            #[trigger] out.deep_view()[k],
        ) by {
            if k < out@.len() - 1 {
                assert(out.deep_view()[k] == "-"@);
            } else {
                assert(out.deep_view()[k] == t@);
            }
        }
        if !rules.use_punctuation && !rules.use_numbers {
            let d = choose|d: ApplyDraws| d.wf() && t@ == spec_apply(*rules, w@, d);
            assert(t@ == w@);
            if source.corpus().len() > 0 {
                let i = choose|i: int| 0 <= i < source.corpus().len() && w@ == source.corpus()[i];
                assert(source.corpus().contains(t@));
            }
        }
    }
    out
}

} // verus!

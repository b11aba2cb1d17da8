//! Stream-wide formatting: capitalization at sentence starts, normalization
//! of the stream's last word, and the incremental capitalization applied to
//! words appended during a live session.

use vstd::prelude::*;
use crate::text::{
    is_alpha_char,
    is_lower_char,
    is_terminator_char,
    is_upper_char,
    spec_capitalize,
    spec_ends_with_terminator,
    to_upper_char,
    capitalize_word,
    ends_with_terminator,
    str_eq,
};

verus! {

/// A word that survives the final sweep: one with at least one character.
pub open spec fn is_kept(w: Seq<char>) -> bool {
    w.len() > 0
}

/// The incremental pass on appended words: the first new word is capitalized
/// exactly when punctuation is on and the stream so far ends in a
/// terminator.
pub open spec fn spec_contextual_cap(
    new_words: Seq<Seq<char>>,
    existing: Seq<Seq<char>>,
    use_punctuation: bool,
) -> Seq<Seq<char>> {
    if use_punctuation && new_words.len() > 0 && existing.len() > 0 && spec_ends_with_terminator(
        existing.last(),
    ) {
        new_words.update(0, spec_capitalize(new_words[0]))
    } else {
        new_words
    }
}

/// Capitalizes the first appended word when the last existing word ends a
/// sentence; a no-op with punctuation disabled.
pub fn apply_contextual_capitalization(
    new_words: &mut Vec<String>,
    existing_stream: &Vec<String>,
    use_punctuation: bool,
)
    ensures
        final(new_words).deep_view() == spec_contextual_cap(
            old(new_words).deep_view(),
            existing_stream.deep_view(),
            use_punctuation,
        ),
{
    if !use_punctuation {
        return ;
    }
    if new_words.len() > 0 && existing_stream.len() > 0 {
        let last = &existing_stream[existing_stream.len() - 1];
        proof {
            assert(existing_stream.deep_view().last() == last@);
        }
        if ends_with_terminator(last.as_str()) {
            let mut w0 = new_words[0].clone();
            capitalize_word(&mut w0);
            new_words.set(0, w0);
            proof {
                assert(final(new_words).deep_view() =~= spec_contextual_cap(
                    old(new_words).deep_view(),
                    existing_stream.deep_view(),
                    use_punctuation,
                ));
            }
        }
    }
}

/// The sentence-start pass over a whole stream: the first word, and every
/// word after one ending in a terminator, is capitalized.
pub open spec fn spec_cascade(s: Seq<Seq<char>>) -> Seq<Seq<char>> {
    Seq::new(
        s.len(),
        |i: int|
            if i == 0 || spec_ends_with_terminator(s[i - 1]) {
                spec_capitalize(s[i])
            } else {
                s[i]
            },
    )
}

/// The normalization of a stream's last word: a lone dash is emptied, a
/// trailing comma is dropped, and a terminator is appended where none ends
/// the word.
pub open spec fn spec_fix_last_word(w: Seq<char>) -> Seq<char> {
    let a = if w == seq!['-'] {
        Seq::<char>::empty()
    } else {
        w
    };
    let b = if a.len() > 0 && a.last() == ',' {
        a.drop_last()
    } else {
        a
    };
    if b.len() > 0 && !spec_ends_with_terminator(b) {
        b.push('.')
    } else {
        b
    }
}

/// The full finalization pass: sentence-start capitalization, last-word
/// normalization, then removal of words left empty.
pub open spec fn spec_finalize(s: Seq<Seq<char>>) -> Seq<Seq<char>> {
    if s.len() == 0 {
        s
    } else {
        let c = spec_cascade(s);
        let d = c.update(c.len() - 1, spec_fix_last_word(c.last()));
        d.filter(|w: Seq<char>| is_kept(w))
    }
}

/// Capitalizing a word does not change whether it ends in a terminator.
pub proof fn lemma_cap_preserves_terminator(w: Seq<char>)
    ensures
        spec_ends_with_terminator(spec_capitalize(w)) == spec_ends_with_terminator(w),
{
    if w.len() == 1 {
        assert(spec_capitalize(w).last() == to_upper_char(w[0]));
        lemma_upper_preserves_terminator(w[0]);
    } else if w.len() > 1 {
        assert(spec_capitalize(w).last() == w.last());
    }
}

/// Uppercasing a character does not change whether it is a terminator.
proof fn lemma_upper_preserves_terminator(c: char)
    ensures
        is_terminator_char(to_upper_char(c)) == is_terminator_char(c),
{
    if is_lower_char(c) {
        assert('A' <= to_upper_char(c) && to_upper_char(c) <= 'Z');
        assert(!is_terminator_char(c));
        assert(!is_terminator_char(to_upper_char(c)));
    }
}

/// A filter keeps a sequence whose elements all satisfy it.
proof fn lemma_filter_all<A>(s: Seq<A>, pred: spec_fn(A) -> bool)
    requires
        forall|i: int| 0 <= i < s.len() ==> pred(#[trigger] s[i]),
    ensures
        s.filter(pred) == s,
    decreases s.len(),
{
    reveal(Seq::filter);
    if s.len() == 0 {
        assert(s.filter(pred) =~= s);
    } else {
        lemma_filter_all(s.drop_last(), pred);
        assert(s.filter(pred) =~= s);
    }
}

/// Filtering a sequence whose elements all pass except possibly the last
/// keeps everything, or everything but that last element.
proof fn lemma_filter_prefix_keep<A>(s: Seq<A>, pred: spec_fn(A) -> bool)
    requires
        s.len() > 0,
        forall|i: int| 0 <= i < s.len() - 1 ==> pred(#[trigger] s[i]),
    ensures
        pred(s.last()) ==> s.filter(pred) == s,
        !pred(s.last()) ==> s.filter(pred) == s.drop_last(),
{
    reveal(Seq::filter);
    lemma_filter_all(s.drop_last(), pred);
    if pred(s.last()) {
        assert(s.filter(pred) =~= s);
    }
}

/// Uppercasing keeps a letter a letter, and makes it uppercase.
proof fn lemma_upper_char_cases(c: char)
    ensures
        is_alpha_char(c) ==> is_upper_char(to_upper_char(c)),
        to_upper_char(c) == '-' ==> c == '-',
        to_upper_char(c) == ',' ==> c == ',',
{
}

/// The pieces of a finalized stream, named for the lemmas below: the
/// cascade-capitalized stream and it with its last word normalized.
proof fn lemma_finalize_shape(s: Seq<Seq<char>>)
    requires
        s.len() > 0,
        forall|i: int| 0 <= i < s.len() ==> (#[trigger] s[i]).len() > 0,
    ensures
        ({
            let c = spec_cascade(s);
            let d = c.update(c.len() - 1, spec_fix_last_word(c.last()));
            &&& spec_finalize(s) == if spec_fix_last_word(c.last()).len() > 0 {
                d
            } else {
                d.drop_last()
            }
            &&& (s.last() != seq!['-'] && s.last() != seq![','] ==> spec_fix_last_word(
                c.last(),
            ).len() > 0 && spec_ends_with_terminator(spec_fix_last_word(c.last()))
                && spec_fix_last_word(c.last())[0] == c.last()[0])
            &&& forall|i: int| 0 <= i < c.len() ==> (#[trigger] c[i]).len() > 0
        }),
{
    let c = spec_cascade(s);
    let d = c.update(c.len() - 1, spec_fix_last_word(c.last()));
    let n = s.len() as int;
    assert forall|i: int| 0 <= i < c.len() implies (#[trigger] c[i]).len() > 0 by {
        assert(c[i] == spec_cascade(s)[i]);
    }
    assert(forall|i: int| 0 <= i < d.len() - 1 ==> is_kept(#[trigger] d[i]));
    lemma_filter_prefix_keep(d, |w: Seq<char>| is_kept(w));
    if s.last() != seq!['-'] && s.last() != seq![','] {
        let lw = c.last();
        lemma_upper_char_cases(s.last()[0]);
        assert(lw == s[n - 1] || lw == spec_capitalize(s[n - 1]));
        assert(lw != seq!['-']) by {
            if lw == seq!['-'] {
                assert(lw[0] == '-');
                assert(lw.len() == 1);
                if lw == spec_capitalize(s[n - 1]) {
                    assert(lw[0] == to_upper_char(s[n - 1][0]));
                }
                assert(s[n - 1][0] == '-');
                assert(s[n - 1].len() == 1);
                assert(s.last() =~= seq!['-']);
            }
        }
        assert(lw != seq![',']) by {
            if lw == seq![','] {
                assert(lw[0] == ',');
                assert(lw.len() == 1);
                if lw == spec_capitalize(s[n - 1]) {
                    assert(lw[0] == to_upper_char(s[n - 1][0]));
                }
                assert(s[n - 1][0] == ',');
                assert(s[n - 1].len() == 1);
                assert(s.last() =~= seq![',']);
            }
        }
        let a = lw;
        let b = if a.len() > 0 && a.last() == ',' {
            a.drop_last()
        } else {
            a
        };
        assert(b.len() > 0) by {
            if a.len() > 0 && a.last() == ',' && a.len() == 1 {
                assert(a =~= seq![',']);
            }
        }
        assert(b[0] == a[0]);
        let f = spec_fix_last_word(lw);
        assert(f.len() > 0 && spec_ends_with_terminator(f) && f[0] == lw[0]);
    }
}

/// A finalized non-empty stream whose last word is neither the lone dash nor
/// a lone comma is itself non-empty, begins uppercase when the stream began
/// with a letter, ends in a terminator, and holds no empty word.
pub proof fn lemma_finalize_first_and_last(s: Seq<Seq<char>>)
    requires
        s.len() > 0,
        forall|i: int| 0 <= i < s.len() ==> (#[trigger] s[i]).len() > 0,
        s.last() != seq!['-'],
        s.last() != seq![','],
    ensures
        spec_finalize(s).len() > 0,
        is_alpha_char(s[0][0]) ==> is_upper_char(spec_finalize(s)[0][0]),
        spec_ends_with_terminator(spec_finalize(s).last()),
        forall|i: int| 0 <= i < spec_finalize(s).len() ==> (#[trigger] spec_finalize(s)[i]).len()
            > 0,
{
    let c = spec_cascade(s);
    let d = c.update(c.len() - 1, spec_fix_last_word(c.last()));
    let n = s.len() as int;
    lemma_finalize_shape(s);
    let r = spec_finalize(s);
    assert(r == d);
    assert(r.last() == spec_fix_last_word(c.last()));
    lemma_upper_char_cases(s[0][0]);
    if n == 1 {
        assert(r[0] == spec_fix_last_word(c.last()));
        assert(r[0][0] == c.last()[0]);
        assert(c.last()[0] == to_upper_char(s[0][0]));
    } else {
        assert(r[0] == c[0]);
        assert(c[0][0] == to_upper_char(s[0][0]));
    }
    assert forall|i: int| 0 <= i < r.len() implies (#[trigger] r[i]).len() > 0 by {
        if i < r.len() - 1 {
            assert(r[i] == c[i]);
        }
    }
}

/// In a finalized stream, a word that follows one ending in a terminator and
/// begins with a letter begins with an uppercase letter.
pub proof fn lemma_finalize_adjacent(s: Seq<Seq<char>>)
    requires
        forall|i: int| 0 <= i < s.len() ==> (#[trigger] s[i]).len() > 0,
    ensures
        forall|i: int|
            0 <= i < spec_finalize(s).len() - 1 && spec_ends_with_terminator(
                #[trigger] spec_finalize(s)[i],
            ) && is_alpha_char(spec_finalize(s)[i + 1][0]) ==> is_upper_char(
                spec_finalize(s)[i + 1][0],
            ),
{
    if s.len() == 0 {
        return ;
    }
    let c = spec_cascade(s);
    let d = c.update(c.len() - 1, spec_fix_last_word(c.last()));
    let n = s.len() as int;
    lemma_finalize_shape(s);
    let r = spec_finalize(s);
    assert forall|i: int|
        0 <= i < r.len() - 1 && spec_ends_with_terminator(#[trigger] r[i]) && is_alpha_char(
            r[i + 1][0],
        ) implies is_upper_char(r[i + 1][0]) by {
        assert(r[i] == c[i]);
        lemma_cap_preserves_terminator(s[i]);
        assert(spec_ends_with_terminator(s[i]));
        lemma_upper_char_cases(s[i + 1][0]);
        if i + 1 < n - 1 || (r == d && spec_fix_last_word(c.last()).len() > 0 && i + 1 == n - 1) {
            if i + 1 == n - 1 {
                assert(r[i + 1] == spec_fix_last_word(c.last()));
                assert(c.last() == spec_capitalize(s[i + 1]));
                let lw = c.last();
                let a = if lw == seq!['-'] {
                    Seq::<char>::empty()
                } else {
                    lw
                };
                let b = if a.len() > 0 && a.last() == ',' {
                    a.drop_last()
                } else {
                    a
                };
                assert(spec_fix_last_word(lw).len() > 0);
                assert(a.len() > 0);
                assert(b.len() > 0);
                assert(r[i + 1][0] == lw[0]);
            } else {
                assert(r[i + 1] == c[i + 1]);
                assert(c[i + 1] == spec_capitalize(s[i + 1]));
            }
            assert(r[i + 1][0] == to_upper_char(s[i + 1][0]));
        }
    }
}

/// Finalization drops at most one word: the stream's last, when
/// normalization leaves it empty.
pub proof fn lemma_finalize_len_bound(s: Seq<Seq<char>>)
    requires
        forall|i: int| 0 <= i < s.len() ==> (#[trigger] s[i]).len() > 0,
    ensures
        spec_finalize(s).len() >= s.len() - 1,
{
    if s.len() > 0 {
        lemma_finalize_shape(s);
    }
}

/// The incremental capitalization pass keeps every word non-empty and the
/// unit's length unchanged: it only recases a first character.
pub proof fn lemma_contextual_cap_preserves(
    new_words: Seq<Seq<char>>,
    existing: Seq<Seq<char>>,
    use_punctuation: bool,
)
    requires
        forall|i: int| 0 <= i < new_words.len() ==> (#[trigger] new_words[i]).len() > 0,
    ensures
        spec_contextual_cap(new_words, existing, use_punctuation).len() == new_words.len(),
        forall|i: int|
            0 <= i < new_words.len() ==> (#[trigger] spec_contextual_cap(
                new_words,
                existing,
                use_punctuation,
            )[i]).len() > 0,
{
    let r = spec_contextual_cap(new_words, existing, use_punctuation);
    assert forall|i: int| 0 <= i < new_words.len() implies (#[trigger] r[i]).len() > 0 by {
        if use_punctuation && new_words.len() > 0 && existing.len() > 0
            && spec_ends_with_terminator(existing.last()) && i == 0 {
            assert(r[0] == spec_capitalize(new_words[0]));
        } else {
            assert(r[i] == new_words[i]);
        }
    }
}

/// Finalizes a freshly produced batch, as `spec_finalize` describes; no
/// empty word survives it.
pub fn finalize_stream_punctuation(stream: &mut Vec<String>)
    ensures
        final(stream).deep_view() == spec_finalize(old(stream).deep_view()),
        forall|i: int|
            0 <= i < final(stream)@.len() ==> (#[trigger] final(stream).deep_view()[i]).len() > 0,
{
    let n = stream.len();
    if n == 0 {
        return ;
    }
    let ghost orig = stream.deep_view();
    let mut w0 = stream[0].clone();
    capitalize_word(&mut w0);
    stream.set(0, w0);
    let ghost casc = spec_cascade(orig);
    proof {
        assert(stream.deep_view()[0] == casc[0]);
    }
    let mut i: usize = 0;
    while i < n - 1
        invariant
            n == stream@.len(),
            n == orig.len(),
            n >= 1,
            i <= n - 1,
            casc == spec_cascade(orig),
            forall|j: int| 0 <= j <= i ==> stream.deep_view()[j] == casc[j],
            forall|j: int| i < j < n ==> stream.deep_view()[j] == orig[j],
        decreases n - 1 - i,
    {
        proof {
            lemma_cap_preserves_terminator(orig[i as int]);
            assert(stream@[i as int]@ == stream.deep_view()[i as int]);
            assert(spec_ends_with_terminator(casc[i as int]) == spec_ends_with_terminator(
                orig[i as int],
            ));
            assert(stream@[i + 1]@ == stream.deep_view()[i + 1]);
            assert(stream.deep_view()[i + 1] == orig[i + 1]);
        }
        if ends_with_terminator(stream[i].as_str()) {
            let mut w = stream[i + 1].clone();
            capitalize_word(&mut w);
            stream.set(i + 1, w);
            proof {
                assert(stream.deep_view()[i + 1] == spec_capitalize(orig[i + 1]));
            }
        }
        proof {
            assert(stream.deep_view()[i + 1] == casc[i + 1]);
        }
        i = i + 1;
    }
    proof {
        assert(stream.deep_view() =~= casc);
    }
    // Normalize the last word.
    let mut last = stream[n - 1].clone();
    proof {
        reveal_strlit("-");
        assert("-"@ =~= seq!['-']);
    }
    if str_eq(last.as_str(), "-") {
        last = String::new();
    }
    let len = last.as_str().unicode_len();
    if len > 0 && last.as_str().get_char(len - 1) == ',' {
        let shortened = last.as_str().substring_char(0, len - 1).to_owned();
        proof {
            assert(shortened@ =~= last@.drop_last());
        }
        last = shortened;
    }
    if !last.as_str().is_empty() && !ends_with_terminator(last.as_str()) {
        let dotted = last.concat(".");
        proof {
            reveal_strlit(".");
            assert(dotted@ =~= spec_fix_last_word(casc.last()));
        }
        last = dotted;
    }
    stream.set(n - 1, last);
    let ghost fixed = casc.update(n - 1, spec_fix_last_word(casc.last()));
    proof {
        assert(stream.deep_view() =~= fixed);
    }
    // Remove words left empty.
    let mut out: Vec<String> = Vec::new();
    let mut k: usize = 0;
    while k < n
        invariant
            n == stream@.len(),
            n == fixed.len(),
            k <= n,
            stream.deep_view() == fixed,
            out.deep_view() == fixed.take(k as int).filter(|w: Seq<char>| is_kept(w)),
        decreases n - k,
    {
        proof {
            reveal(Seq::filter);
            assert(fixed.take(k + 1).drop_last() =~= fixed.take(k as int));
            assert(fixed.take(k + 1).last() == fixed[k as int]);
        }
        if !stream[k].as_str().is_empty() {
            let w = stream[k].clone();
            out.push(w);
            proof {
                assert(out.deep_view() =~= fixed.take(k + 1).filter(|w: Seq<char>| is_kept(w)));
            }
        } else {
            proof {
                assert(out.deep_view() =~= fixed.take(k + 1).filter(|w: Seq<char>| is_kept(w)));
            }
        }
        k = k + 1;
    }
    proof {
        assert(fixed.take(n as int) =~= fixed);
        broadcast use vstd::prelude::Seq::lemma_filter_pred;

    }
    *stream = out;
}

} // verus!

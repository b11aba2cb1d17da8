//! The per-word transformation engine: numeral substitution, contraction
//! substitution with casing carried over, and terminal or wrapping
//! punctuation.
//!
//! Every percentage trial is drawn as a uniform integer below 100 and
//! compared against the threshold. All draws an `apply` call may consume are
//! made up front and gathered in [`ApplyDraws`], so the transformation
//! itself, [`PunctuationRules::apply_decided`], is a deterministic function
//! of the word and the draws, verified for every draw.

use vstd::prelude::*;
use crate::rng::rand_below;
use crate::text::{
    is_alpha_char,
    is_digit_char,
    is_upper_char,
    spec_capitalize,
    spec_decimal,
    spec_parse_decimal,
    spec_to_lower,
    spec_to_upper,
    capitalize_word,
    lemma_decimal_digits,
    lemma_decimal_parses,
    str_eq,
    to_lowercase,
    to_uppercase,
    u64_to_decimal,
};

verus! {

/// The two flags that configure the per-word transformation.
#[derive(Clone, Copy, PartialEq, Eq, Structural)]
pub struct PunctuationRules {
    pub use_punctuation: bool,
    pub use_numbers: bool,
}

/// The random draws one `apply` call consumes.
///
/// `contraction_pick` is drawn below 12, a common multiple of every
/// candidate-list length, so that reduction modulo the list length keeps the
/// choice uniform.
#[derive(Clone, Copy, PartialEq, Eq, Structural)]
pub struct ApplyDraws {
    /// Percent trial for the numeral substitution; below 15 substitutes.
    pub number_trial: u64,
    /// The substituted numeral, below 10000.
    pub number_value: u64,
    /// Percent trial for the contraction attempt; below 40 attempts it.
    pub contraction_trial: u64,
    /// Picks among the contraction candidates, reduced modulo their count.
    pub contraction_pick: u64,
    /// Percent trial for the punctuation transform; below 30 applies one.
    pub punct_trial: u64,
    /// Selects the punctuation transform bucket.
    pub punct_kind: u64,
}

impl ApplyDraws {
    pub open spec fn wf(&self) -> bool {
        &&& self.number_trial < 100
        &&& self.number_value < 10000
        &&& self.contraction_trial < 100
        &&& self.contraction_pick < 12
        &&& self.punct_trial < 100
        &&& self.punct_kind < 100
    }
}

/// The contraction table: the candidate replacements for a lowercase base
/// word, empty when the word has no entry.
pub open spec fn contraction_candidates(w: Seq<char>) -> Seq<Seq<char>> {
    if w == "are"@ {
        seq!["aren't"@]
    } else if w == "can"@ {
        seq!["can't"@]
    } else if w == "could"@ {
        seq!["couldn't"@]
    } else if w == "did"@ {
        seq!["didn't"@]
    } else if w == "does"@ {
        seq!["doesn't"@]
    } else if w == "do"@ {
        seq!["don't"@]
    } else if w == "had"@ {
        seq!["hadn't"@]
    } else if w == "has"@ {
        seq!["hasn't"@]
    } else if w == "have"@ {
        seq!["haven't"@]
    } else if w == "is"@ {
        seq!["isn't"@]
    } else if w == "it"@ {
        seq!["it's"@, "it'll"@]
    } else if w == "i"@ {
        seq!["i'm"@, "i'll"@, "i've"@, "i'd"@]
    } else if w == "you"@ {
        seq!["you'll"@, "you're"@, "you've"@, "you'd"@]
    } else if w == "that"@ {
        seq!["that's"@, "that'll"@, "that'd"@]
    } else if w == "must"@ {
        seq!["mustn't"@, "must've"@]
    } else if w == "there"@ {
        seq!["there's"@, "there'll"@, "there'd"@]
    } else if w == "he"@ {
        seq!["he's"@, "he'll"@, "he'd"@]
    } else if w == "she"@ {
        seq!["she's"@, "she'll"@, "she'd"@]
    } else if w == "we"@ {
        seq!["we're"@, "we'll"@, "we'd"@]
    } else if w == "they"@ {
        seq!["they're"@, "they'll"@, "they'd"@]
    } else if w == "should"@ {
        seq!["shouldn't"@, "should've"@]
    } else if w == "was"@ {
        seq!["wasn't"@]
    } else if w == "were"@ {
        seq!["weren't"@]
    } else if w == "will"@ {
        seq!["won't"@]
    } else if w == "would"@ {
        seq!["wouldn't"@, "would've"@]
    } else if w == "going"@ {
        seq!["goin'"@]
    } else {
        seq![]
    }
}

/// The word has no letter that is not uppercase (so also: no letters).
pub open spec fn spec_all_upper(w: Seq<char>) -> bool {
    forall|i: int| 0 <= i < w.len() ==> !is_alpha_char(#[trigger] w[i]) || is_upper_char(w[i])
}

/// The replacement recased as the original: fully uppercased when the
/// original had no lowercase letter, capitalized when the original's first
/// character is uppercase, verbatim otherwise.
pub open spec fn spec_match_casing(original: Seq<char>, replacement: Seq<char>) -> Seq<char> {
    if spec_all_upper(original) {
        spec_to_upper(replacement)
    } else if original.len() > 0 && is_upper_char(original[0]) {
        spec_capitalize(replacement)
    } else {
        replacement
    }
}

/// The contraction substitution: the word lowercased and looked up; on a hit
/// one candidate is picked and recased, otherwise the word stays.
pub open spec fn spec_contract(w: Seq<char>, pick: u64) -> Seq<char> {
    let cands = contraction_candidates(spec_to_lower(w));
    if cands.len() == 0 {
        w
    } else {
        spec_match_casing(w, cands[(pick as int) % (cands.len() as int)])
    }
}

/// The terminal/wrapping transform selected by a bucket below 100: comma,
/// period, exclamation mark, a reserved no-op gap at 75..=79 (it mirrors the
/// dash-insertion range), double quotes, single quotes, parentheses.
pub open spec fn spec_punctuate(w: Seq<char>, kind: int) -> Seq<char> {
    if 0 <= kind <= 39 {
        w.push(',')
    } else if 40 <= kind <= 69 {
        w.push('.')
    } else if 70 <= kind <= 74 {
        w.push('!')
    } else if 75 <= kind <= 79 {
        w
    } else if 80 <= kind <= 89 {
        seq!['"'] + w + seq!['"']
    } else if 90 <= kind <= 94 {
        seq!['\''] + w + seq!['\'']
    } else {
        seq!['('] + w + seq![')']
    }
}

/// What `apply` returns for a word and a set of draws: the numeral
/// short-circuit, then (with punctuation enabled) the contraction trial and
/// the punctuation trial.
pub open spec fn spec_apply(rules: PunctuationRules, w: Seq<char>, d: ApplyDraws) -> Seq<char> {
    if rules.use_numbers && d.number_trial < 15 {
        spec_decimal(d.number_value as nat)
    } else if !rules.use_punctuation {
        w
    } else {
        let w1 = if d.contraction_trial < 40 {
            spec_contract(w, d.contraction_pick)
        } else {
            w
        };
        if d.punct_trial < 30 {
            spec_punctuate(w1, d.punct_kind as int)
        } else {
            w1
        }
    }
}

fn cands1(a: &str) -> (r: Vec<String>)
    ensures
        r.deep_view() == seq![a@],
        r@.len() == 1,
{
    let mut v: Vec<String> = Vec::new();
    v.push(a.to_owned());
    proof {
        assert(v.deep_view() =~= seq![a@]);
    }
    v
}

fn cands2(a: &str, b: &str) -> (r: Vec<String>)
    ensures
        r.deep_view() == seq![a@, b@],
        r@.len() == 2,
{
    let mut v: Vec<String> = Vec::new();
    v.push(a.to_owned());
    v.push(b.to_owned());
    proof {
        assert(v.deep_view() =~= seq![a@, b@]);
    }
    v
}

fn cands3(a: &str, b: &str, c: &str) -> (r: Vec<String>)
    ensures
        r.deep_view() == seq![a@, b@, c@],
        r@.len() == 3,
{
    let mut v: Vec<String> = Vec::new();
    v.push(a.to_owned());
    v.push(b.to_owned());
    v.push(c.to_owned());
    proof {
        assert(v.deep_view() =~= seq![a@, b@, c@]);
    }
    v
}

fn cands4(a: &str, b: &str, c: &str, d: &str) -> (r: Vec<String>)
    ensures
        r.deep_view() == seq![a@, b@, c@, d@],
        r@.len() == 4,
{
    let mut v: Vec<String> = Vec::new();
    v.push(a.to_owned());
    v.push(b.to_owned());
    v.push(c.to_owned());
    v.push(d.to_owned());
    proof {
        assert(v.deep_view() =~= seq![a@, b@, c@, d@]);
    }
    v
}

impl PunctuationRules {
    /// The contraction candidates for a lowercase base word, `None` when the
    /// table has no entry.
    #[verifier::rlimit(50)]
    pub fn get_contraction_replacements(&self, word: &str) -> (r: Option<Vec<String>>)
        ensures
            r matches Some(v) ==> v.deep_view() =~= contraction_candidates(word@),
            r matches Some(v) ==> v@.len() > 0,
            r is None ==> contraction_candidates(word@).len() == 0,
    {
        if str_eq(word, "are") {
            Some(cands1("aren't"))
        } else if str_eq(word, "can") {
            Some(cands1("can't"))
        } else if str_eq(word, "could") {
            Some(cands1("couldn't"))
        } else if str_eq(word, "did") {
            Some(cands1("didn't"))
        } else if str_eq(word, "does") {
            Some(cands1("doesn't"))
        } else if str_eq(word, "do") {
            Some(cands1("don't"))
        } else if str_eq(word, "had") {
            Some(cands1("hadn't"))
        } else if str_eq(word, "has") {
            Some(cands1("hasn't"))
        } else if str_eq(word, "have") {
            Some(cands1("haven't"))
        } else if str_eq(word, "is") {
            Some(cands1("isn't"))
        } else if str_eq(word, "it") {
            Some(cands2("it's", "it'll"))
        } else if str_eq(word, "i") {
            Some(cands4("i'm", "i'll", "i've", "i'd"))
        } else if str_eq(word, "you") {
            Some(cands4("you'll", "you're", "you've", "you'd"))
        } else if str_eq(word, "that") {
            Some(cands3("that's", "that'll", "that'd"))
        } else if str_eq(word, "must") {
            Some(cands2("mustn't", "must've"))
        } else if str_eq(word, "there") {
            Some(cands3("there's", "there'll", "there'd"))
        } else if str_eq(word, "he") {
            Some(cands3("he's", "he'll", "he'd"))
        } else if str_eq(word, "she") {
            Some(cands3("she's", "she'll", "she'd"))
        } else if str_eq(word, "we") {
            Some(cands3("we're", "we'll", "we'd"))
        } else if str_eq(word, "they") {
            Some(cands3("they're", "they'll", "they'd"))
        } else if str_eq(word, "should") {
            Some(cands2("shouldn't", "should've"))
        } else if str_eq(word, "was") {
            Some(cands1("wasn't"))
        } else if str_eq(word, "were") {
            Some(cands1("weren't"))
        } else if str_eq(word, "will") {
            Some(cands1("won't"))
        } else if str_eq(word, "would") {
            Some(cands2("wouldn't", "would've"))
        } else if str_eq(word, "going") {
            Some(cands1("goin'"))
        } else {
            None
        }
    }

    /// Recases the replacement as the original word was cased.
    pub fn match_casing(&self, original: &str, replacement: &str) -> (r: String)
        ensures
            r@ == spec_match_casing(original@, replacement@),
    {
        let chars = crate::text::str_to_chars(original);
        let mut all_upper = true;
        let mut i: usize = 0;
        while i < chars.len()
            invariant
                chars@ == original@,
                i <= original@.len(),
                all_upper == (forall|j: int|
                    0 <= j < i ==> !is_alpha_char(#[trigger] original@[j]) || is_upper_char(
                        original@[j],
                    )),
            decreases original@.len() - i,
        {
            let c = chars[i];
            let alpha = ('a' <= c && c <= 'z') || ('A' <= c && c <= 'Z');
            let upper = 'A' <= c && c <= 'Z';
            if alpha && !upper {
                all_upper = false;
            }
            i = i + 1;
        }
        if all_upper {
            to_uppercase(replacement)
        } else {
            let first_upper = if chars.len() > 0 {
                let c0 = chars[0];
                'A' <= c0 && c0 <= 'Z'
            } else {
                false
            };
            if first_upper {
                let mut rep = replacement.to_owned();
                capitalize_word(&mut rep);
                rep
            } else {
                replacement.to_owned()
            }
        }
    }

    /// The contraction substitution, deciding by the given pick.
    pub fn apply_contraction(&self, original: &str, pick: u64) -> (r: String)
        ensures
            r@ == spec_contract(original@, pick),
    {
        let lower = to_lowercase(original);
        match self.get_contraction_replacements(lower.as_str()) {
            Some(cands) => {
                let idx = (pick % (cands.len() as u64)) as usize;
                proof {
                    assert(contraction_candidates(spec_to_lower(original@)).len() > 0);
                }
                self.match_casing(original, cands[idx].as_str())
            },
            None => original.to_owned(),
        }
    }

    /// The per-word transformation on a word and its draws.
    pub fn apply_decided(&self, word: &str, d: &ApplyDraws) -> (r: String)
        requires
            d.wf(),
        ensures
            r@ == spec_apply(*self, word@, *d),
    {
        if self.use_numbers && d.number_trial < 15 {
            return u64_to_decimal(d.number_value);
        }
        if !self.use_punctuation {
            return word.to_owned();
        }
        let w1 = if d.contraction_trial < 40 {
            self.apply_contraction(word, d.contraction_pick)
        } else {
            word.to_owned()
        };
        if d.punct_trial < 30 {
            let k = d.punct_kind;
            if k <= 39 {
                let r = w1.concat(",");
                proof {
                    reveal_strlit(",");
                    assert(r@ =~= spec_punctuate(w1@, k as int));
                }
                r
            } else if k <= 69 {
                let r = w1.concat(".");
                proof {
                    reveal_strlit(".");
                    assert(r@ =~= spec_punctuate(w1@, k as int));
                }
                r
            } else if k <= 74 {
                let r = w1.concat("!");
                proof {
                    reveal_strlit("!");
                    assert(r@ =~= spec_punctuate(w1@, k as int));
                }
                r
            } else if k <= 79 {
                w1
            } else if k <= 89 {
                let r = String::from_str("\"").concat(w1.as_str()).concat("\"");
                proof {
                    reveal_strlit("\"");
                    assert(r@ =~= spec_punctuate(w1@, k as int));
                }
                r
            } else if k <= 94 {
                let r = String::from_str("'").concat(w1.as_str()).concat("'");
                proof {
                    reveal_strlit("'");
                    assert(r@ =~= spec_punctuate(w1@, k as int));
                }
                r
            } else {
                let r = String::from_str("(").concat(w1.as_str()).concat(")");
                proof {
                    reveal_strlit("(");
                    reveal_strlit(")");
                    assert(r@ =~= spec_punctuate(w1@, k as int));
                }
                r
            }
        } else {
            w1
        }
    }

    /// Applies the per-word transformation, drawing what it needs from the
    /// given generator: the result is `apply_decided` on some well-formed set
    /// of draws.
    pub fn apply(&self, word: &str, rng: &mut rand::rngs::ThreadRng) -> (r: String)
        ensures
            exists|d: ApplyDraws| d.wf() && r@ == spec_apply(*self, word@, d),
    {
        let d = ApplyDraws {
            number_trial: rand_below(rng, 100),
            number_value: rand_below(rng, 10000),
            contraction_trial: rand_below(rng, 100),
            contraction_pick: rand_below(rng, 12),
            punct_trial: rand_below(rng, 100),
            punct_kind: rand_below(rng, 100),
        };
        let r = self.apply_decided(word, &d);
        proof {
            assert(d.wf() && r@ == spec_apply(*self, word@, d));
        }
        r
    }

    /// True only with punctuation enabled, a trial below 30, and a draw from
    /// the five-wide reserved bucket landing on its first value: the
    /// low-probability signal to splice a literal dash between words.
    pub fn should_insert_dash(&self, rng: &mut rand::rngs::ThreadRng) -> (r: bool)
        ensures
            !self.use_punctuation ==> !r,
    {
        self.use_punctuation && rand_below(rng, 100) < 30 && rand_below(rng, 5) == 0
    }
}

/// Every candidate in the contraction table holds at least two characters.
proof fn lemma_candidates_nonempty(w: Seq<char>)
    ensures
        forall|i: int|
            0 <= i < contraction_candidates(w).len() ==> (#[trigger] contraction_candidates(
                w,
            )[i]).len() > 1,
{
    reveal_strlit("aren't");
    reveal_strlit("can't");
    reveal_strlit("couldn't");
    reveal_strlit("didn't");
    reveal_strlit("doesn't");
    reveal_strlit("don't");
    reveal_strlit("hadn't");
    reveal_strlit("hasn't");
    reveal_strlit("haven't");
    reveal_strlit("isn't");
    reveal_strlit("it's");
    reveal_strlit("it'll");
    reveal_strlit("i'm");
    reveal_strlit("i'll");
    reveal_strlit("i've");
    reveal_strlit("i'd");
    reveal_strlit("you'll");
    reveal_strlit("you're");
    reveal_strlit("you've");
    reveal_strlit("you'd");
    reveal_strlit("that's");
    reveal_strlit("that'll");
    reveal_strlit("that'd");
    reveal_strlit("mustn't");
    reveal_strlit("must've");
    reveal_strlit("there's");
    reveal_strlit("there'll");
    reveal_strlit("there'd");
    reveal_strlit("he's");
    reveal_strlit("he'll");
    reveal_strlit("he'd");
    reveal_strlit("she's");
    reveal_strlit("she'll");
    reveal_strlit("she'd");
    reveal_strlit("we're");
    reveal_strlit("we'll");
    reveal_strlit("we'd");
    reveal_strlit("they're");
    reveal_strlit("they'll");
    reveal_strlit("they'd");
    reveal_strlit("shouldn't");
    reveal_strlit("should've");
    reveal_strlit("wasn't");
    reveal_strlit("weren't");
    reveal_strlit("won't");
    reveal_strlit("wouldn't");
    reveal_strlit("would've");
    reveal_strlit("goin'");
}

/// A non-empty word stays non-empty under the transformation, whatever was
/// drawn.
pub proof fn lemma_apply_nonempty(rules: PunctuationRules, w: Seq<char>, d: ApplyDraws)
    requires
        d.wf(),
        w.len() > 0,
    ensures
        spec_apply(rules, w, d).len() > 0,
{
    lemma_decimal_digits(d.number_value as nat);
    lemma_candidates_nonempty(spec_to_lower(w));
    let cands = contraction_candidates(spec_to_lower(w));
    if cands.len() > 0 {
        let pick = (d.contraction_pick as int) % (cands.len() as int);
        assert(0 <= pick < cands.len());
        assert(cands[pick].len() > 0);
        assert(spec_match_casing(w, cands[pick]).len() == cands[pick].len());
    }
    assert(spec_contract(w, d.contraction_pick).len() > 0);
}

/// The transformation never yields the lone dash or the lone comma from a
/// word that was not itself that one character: a numeral is digits only, a
/// contraction holds at least two characters, and the punctuation transforms
/// only keep or lengthen the word.
pub proof fn lemma_apply_not_lone_mark(rules: PunctuationRules, w: Seq<char>, d: ApplyDraws)
    requires
        d.wf(),
        w.len() > 0,
        w != seq!['-'],
        w != seq![','],
    ensures
        spec_apply(rules, w, d) != seq!['-'],
        spec_apply(rules, w, d) != seq![','],
{
    let r = spec_apply(rules, w, d);
    if rules.use_numbers && d.number_trial < 15 {
        lemma_decimal_digits(d.number_value as nat);
        assert(r != seq!['-']) by {
            if r == seq!['-'] {
                assert(is_digit_char(r[0]));
            }
        }
        assert(r != seq![',']) by {
            if r == seq![','] {
                assert(is_digit_char(r[0]));
            }
        }
    } else if rules.use_punctuation {
        lemma_candidates_nonempty(spec_to_lower(w));
        let cands = contraction_candidates(spec_to_lower(w));
        let w1 = if d.contraction_trial < 40 {
            spec_contract(w, d.contraction_pick)
        } else {
            w
        };
        assert(w1.len() > 0 && w1 != seq!['-'] && w1 != seq![',']) by {
            if d.contraction_trial < 40 && cands.len() > 0 {
                let pick = (d.contraction_pick as int) % (cands.len() as int);
                assert(0 <= pick < cands.len());
                assert(cands[pick].len() > 1);
                assert(spec_match_casing(w, cands[pick]).len() == cands[pick].len());
                assert(w1.len() > 1);
            }
        }
        if d.punct_trial < 30 {
            let k = d.punct_kind as int;
            if 75 <= k <= 79 {
                assert(r == w1);
            } else {
                assert(r.len() >= 2);
            }
        }
    }
}

/// With numerals enabled and the numeral trial under its threshold, `apply`
/// yields a string that parses as a decimal integer below 10000.
pub proof fn lemma_apply_numeral(rules: PunctuationRules, w: Seq<char>, d: ApplyDraws)
    requires
        d.wf(),
        rules.use_numbers,
        d.number_trial < 15,
    ensures
        spec_parse_decimal(spec_apply(rules, w, d)) == Some(d.number_value as int),
        0 <= d.number_value < 10000,
{
    lemma_decimal_parses(d.number_value as nat);
}

} // verus!

//! Character-level text utilities: ASCII case mapping, terminal-punctuation
//! tests, typographic normalization, whitespace splitting and decimal
//! rendering of integers.
//!
//! The word corpus and the contraction table are plain ASCII, so case
//! handling here is ASCII case mapping: characters outside `a..z` / `A..Z`
//! are left as they are.

use vstd::prelude::*;

verus! {

/// An ASCII lowercase letter.
pub open spec fn is_lower_char(c: char) -> bool {
    'a' <= c && c <= 'z'
}

/// An ASCII uppercase letter.
pub open spec fn is_upper_char(c: char) -> bool {
    'A' <= c && c <= 'Z'
}

/// An ASCII letter of either case.
pub open spec fn is_alpha_char(c: char) -> bool {
    is_lower_char(c) || is_upper_char(c)
}

/// ASCII uppercase mapping of one character.
pub open spec fn to_upper_char(c: char) -> char {
    if is_lower_char(c) {
        ((c as u32) - 32) as char
    } else {
        c
    }
}

/// ASCII lowercase mapping of one character.
pub open spec fn to_lower_char(c: char) -> char {
    if is_upper_char(c) {
        ((c as u32) + 32) as char
    } else {
        c
    }
}

pub fn upper_char(c: char) -> (r: char)
    ensures
        r == to_upper_char(c),
{
    if 'a' <= c && c <= 'z' {
        (((c as u32) - 32) as u8) as char
    } else {
        c
    }
}

pub fn lower_char(c: char) -> (r: char)
    ensures
        r == to_lower_char(c),
{
    if 'A' <= c && c <= 'Z' {
        (((c as u32) + 32) as u8) as char
    } else {
        c
    }
}

/// Relies on `String::push`: appends the given character to the end of the
/// string.
#[verifier::external_body]
fn push_char(s: &mut String, c: char)
    ensures
        final(s)@ == old(s)@ + seq![c],
{
    s.push(c)
}

/// The characters of `s`, one vector element per character.
pub fn str_to_chars(s: &str) -> (r: Vec<char>)
    ensures
        r@ == s@,
{
    let n = s.unicode_len();
    let mut r: Vec<char> = Vec::new();
    let mut i: usize = 0;
    while i < n
        invariant
            n == s@.len(),
            i <= n,
            r@ == s@.take(i as int),
        decreases n - i,
    {
        r.push(s.get_char(i));
        proof {
            assert(r@ =~= s@.take(i + 1));
        }
        i = i + 1;
    }
    proof {
        assert(r@ =~= s@);
    }
    r
}

/// A string holding exactly the given characters.
pub fn chars_to_string(v: &Vec<char>) -> (r: String)
    ensures
        r@ == v@,
{
    let mut r = String::new();
    let mut i: usize = 0;
    while i < v.len()
        invariant
            i <= v@.len(),
            r@ == v@.take(i as int),
        decreases v@.len() - i,
    {
        push_char(&mut r, v[i]);
        proof {
            assert(r@ =~= v@.take(i + 1));
        }
        i = i + 1;
    }
    proof {
        assert(r@ =~= v@);
    }
    r
}

/// `s` with its first character mapped to ASCII uppercase.
pub open spec fn spec_capitalize(s: Seq<char>) -> Seq<char> {
    if s.len() == 0 {
        s
    } else {
        s.update(0, to_upper_char(s[0]))
    }
}

/// Capitalizes the first character of the word in place.
pub fn capitalize_word(w: &mut String)
    ensures
        final(w)@ == spec_capitalize(old(w)@),
{
    let mut chars = str_to_chars(w.as_str());
    if chars.len() > 0 {
        let up = upper_char(chars[0]);
        chars.set(0, up);
    }
    *w = chars_to_string(&chars);
    proof {
        if old(w)@.len() > 0 {
            assert(final(w)@ =~= spec_capitalize(old(w)@));
        }
    }
}

/// A sentence-ending punctuation character.
pub open spec fn is_terminator_char(c: char) -> bool {
    c == '.' || c == '!' || c == '?'
}

/// The word's final character is a sentence terminator.
pub open spec fn spec_ends_with_terminator(s: Seq<char>) -> bool {
    s.len() > 0 && is_terminator_char(s.last())
}

pub fn ends_with_terminator(w: &str) -> (r: bool)
    ensures
        r == spec_ends_with_terminator(w@),
{
    let n = w.unicode_len();
    if n == 0 {
        false
    } else {
        let c = w.get_char(n - 1);
        c == '.' || c == '!' || c == '?'
    }
}

/// `s` with every character mapped to ASCII lowercase.
pub open spec fn spec_to_lower(s: Seq<char>) -> Seq<char> {
    s.map_values(|c: char| to_lower_char(c))
}

/// `s` with every character mapped to ASCII uppercase.
pub open spec fn spec_to_upper(s: Seq<char>) -> Seq<char> {
    s.map_values(|c: char| to_upper_char(c))
}

pub fn to_lowercase(s: &str) -> (r: String)
    ensures
        r@ == spec_to_lower(s@),
{
    let chars = str_to_chars(s);
    let mut out: Vec<char> = Vec::new();
    let mut i: usize = 0;
    while i < chars.len()
        invariant
            chars@ == s@,
            i <= s@.len(),
            out@ == spec_to_lower(s@).take(i as int),
        decreases s@.len() - i,
    {
        out.push(lower_char(chars[i]));
        proof {
            assert(out@ =~= spec_to_lower(s@).take(i + 1));
        }
        i = i + 1;
    }
    proof {
        assert(out@ =~= spec_to_lower(s@));
    }
    chars_to_string(&out)
}

pub fn to_uppercase(s: &str) -> (r: String)
    ensures
        r@ == spec_to_upper(s@),
{
    let chars = str_to_chars(s);
    let mut out: Vec<char> = Vec::new();
    let mut i: usize = 0;
    while i < chars.len()
        invariant
            chars@ == s@,
            i <= s@.len(),
            out@ == spec_to_upper(s@).take(i as int),
        decreases s@.len() - i,
    {
        out.push(upper_char(chars[i]));
        proof {
            assert(out@ =~= spec_to_upper(s@).take(i + 1));
        }
        i = i + 1;
    }
    proof {
        assert(out@ =~= spec_to_upper(s@));
    }
    chars_to_string(&out)
}

/// Typographic characters are replaced by their plain ASCII equivalents:
/// curly single quotes by an apostrophe, curly double quotes by a straight
/// double quote, and en/em dashes by a hyphen.
pub open spec fn clean_char(c: char) -> char {
    if c == '\u{2018}' || c == '\u{2019}' {
        '\''
    } else if c == '\u{201C}' || c == '\u{201D}' {
        '"'
    } else if c == '\u{2013}' || c == '\u{2014}' {
        '-'
    } else {
        c
    }
}

pub open spec fn spec_clean_typography(s: Seq<char>) -> Seq<char> {
    s.map_values(|c: char| clean_char(c))
}

/// Normalizes typographic symbols in quote text to plain ASCII.
pub fn clean_typography_symbols(s: &str) -> (r: String)
    ensures
        r@ == spec_clean_typography(s@),
{
    let chars = str_to_chars(s);
    let mut out: Vec<char> = Vec::new();
    let mut i: usize = 0;
    while i < chars.len()
        invariant
            chars@ == s@,
            i <= s@.len(),
            out@ == spec_clean_typography(s@).take(i as int),
        decreases s@.len() - i,
    {
        let c = chars[i];
        let cleaned: char = if c == '\u{2018}' || c == '\u{2019}' {
            '\''
        } else if c == '\u{201C}' || c == '\u{201D}' {
            '"'
        } else if c == '\u{2013}' || c == '\u{2014}' {
            '-'
        } else {
            c
        };
        out.push(cleaned);
        proof {
            assert(out@ =~= spec_clean_typography(s@).take(i + 1));
        }
        i = i + 1;
    }
    proof {
        assert(out@ =~= spec_clean_typography(s@));
    }
    chars_to_string(&out)
}

/// A whitespace character for the purpose of splitting quote text.
pub open spec fn is_space_char(c: char) -> bool {
    c == ' ' || c == '\t' || c == '\n' || c == '\r'
}

/// One step of a left-to-right whitespace split: `state` is the pair of the
/// finished words and the word in progress.
pub open spec fn split_step(state: (Seq<Seq<char>>, Seq<char>), c: char) -> (Seq<
    Seq<char>,
>, Seq<char>) {
    if is_space_char(c) {
        if state.1.len() > 0 {
            (state.0.push(state.1), Seq::empty())
        } else {
            state
        }
    } else {
        (state.0, state.1.push(c))
    }
}

/// The split state after consuming all of `s`.
pub open spec fn split_state(s: Seq<char>) -> (Seq<Seq<char>>, Seq<char>)
    decreases s.len(),
{
    if s.len() == 0 {
        (Seq::empty(), Seq::empty())
    } else {
        split_step(split_state(s.drop_last()), s.last())
    }
}

/// The maximal runs of non-whitespace characters of `s`, in order.
pub open spec fn spec_split_whitespace(s: Seq<char>) -> Seq<Seq<char>> {
    let st = split_state(s);
    if st.1.len() > 0 {
        st.0.push(st.1)
    } else {
        st.0
    }
}

/// Every word of a whitespace split is non-empty.
pub proof fn lemma_split_whitespace_words_nonempty(s: Seq<char>)
    ensures
        forall|i: int|
            0 <= i < spec_split_whitespace(s).len() ==> #[trigger] spec_split_whitespace(
                s,
            )[i].len() > 0,
    decreases s.len(),
{
    lemma_split_state_words_nonempty(s);
}

proof fn lemma_split_state_words_nonempty(s: Seq<char>)
    ensures
        forall|i: int|
            0 <= i < split_state(s).0.len() ==> #[trigger] split_state(s).0[i].len() > 0,
    decreases s.len(),
{
    if s.len() > 0 {
        lemma_split_state_words_nonempty(s.drop_last());
        let prev = split_state(s.drop_last());
        let cur = split_state(s);
        assert forall|i: int| 0 <= i < cur.0.len() implies #[trigger] cur.0[i].len() > 0 by {
            if cur.0 != prev.0 {
                assert(cur.0 == prev.0.push(prev.1));
                if i < prev.0.len() {
                    assert(cur.0[i] == prev.0[i]);
                } else {
                    assert(cur.0[i] == prev.1);
                }
            }
        }
    }
}

/// Splits on whitespace, as `spec_split_whitespace` describes.
pub fn split_whitespace(s: &str) -> (r: Vec<String>)
    ensures
        r.deep_view() == spec_split_whitespace(s@),
{
    let chars = str_to_chars(s);
    let mut out: Vec<String> = Vec::new();
    let mut cur: Vec<char> = Vec::new();
    let mut i: usize = 0;
    while i < chars.len()
        invariant
            chars@ == s@,
            i <= s@.len(),
            (out.deep_view(), cur@) == split_state(s@.take(i as int)),
        decreases s@.len() - i,
    {
        let c = chars[i];
        proof {
            assert(s@.take(i + 1).drop_last() =~= s@.take(i as int));
            assert(s@.take(i + 1).last() == s@[i as int]);
        }
        if c == ' ' || c == '\t' || c == '\n' || c == '\r' {
            if cur.len() > 0 {
                let w = chars_to_string(&cur);
                out.push(w);
                cur = Vec::new();
                proof {
                    assert(out.deep_view() =~= split_state(s@.take(i + 1)).0);
                }
            }
        } else {
            cur.push(c);
        }
        i = i + 1;
    }
    proof {
        assert(s@.take(s@.len() as int) =~= s@);
    }
    if cur.len() > 0 {
        let w = chars_to_string(&cur);
        out.push(w);
        proof {
            assert(out.deep_view() =~= spec_split_whitespace(s@));
        }
    }
    out
}

/// The two strings hold the same characters.
pub fn str_eq(a: &str, b: &str) -> (r: bool)
    ensures
        r == (a@ == b@),
{
    let na = a.unicode_len();
    let nb = b.unicode_len();
    if na != nb {
        return false;
    }
    let mut i: usize = 0;
    while i < na
        invariant
            na == a@.len(),
            na == b@.len(),
            i <= na,
            forall|j: int| 0 <= j < i ==> a@[j] == b@[j],
        decreases na - i,
    {
        if a.get_char(i) != b.get_char(i) {
            return false;
        }
        i = i + 1;
    }
    proof {
        assert(a@ =~= b@);
    }
    true
}

/// The ASCII digit character for a value in `0..=9`.
pub open spec fn digit_char(d: int) -> char
    recommends
        0 <= d <= 9,
{
    (48 + d) as char
}

/// An ASCII decimal digit.
pub open spec fn is_digit_char(c: char) -> bool {
    '0' <= c && c <= '9'
}

/// The decimal numeral of `n`, without leading zeros (a single `'0'` for 0).
pub open spec fn spec_decimal(n: nat) -> Seq<char>
    decreases n,
{
    if n < 10 {
        seq![digit_char(n as int)]
    } else {
        spec_decimal(n / 10).push(digit_char((n % 10) as int))
    }
}

/// The value of a digit string read as a decimal numeral.
pub open spec fn decimal_value(s: Seq<char>) -> int
    decreases s.len(),
{
    if s.len() == 0 {
        0
    } else {
        decimal_value(s.drop_last()) * 10 + ((s.last() as int) - 48)
    }
}

/// A non-empty all-digit string parses to its decimal value; anything else
/// does not parse.
pub open spec fn spec_parse_decimal(s: Seq<char>) -> Option<int> {
    if s.len() > 0 && (forall|i: int| 0 <= i < s.len() ==> is_digit_char(#[trigger] s[i])) {
        Some(decimal_value(s))
    } else {
        None
    }
}

/// The decimal numeral of `n` parses back to `n`.
pub proof fn lemma_decimal_parses(n: nat)
    ensures
        spec_parse_decimal(spec_decimal(n)) == Some(n as int),
    decreases n,
{
    lemma_decimal_digits(n);
    if n < 10 {
        let s = spec_decimal(n);
        assert(s.drop_last() =~= Seq::<char>::empty());
        assert(decimal_value(Seq::<char>::empty()) == 0);
        assert(s.last() == digit_char(n as int));
        assert((digit_char(n as int) as int) == 48 + n);
        assert(decimal_value(s) == n as int);
    } else {
        lemma_decimal_parses(n / 10);
        assert(spec_decimal(n).drop_last() =~= spec_decimal(n / 10));
        assert(decimal_value(spec_decimal(n)) == (n / 10) * 10 + n % 10);
        assert((n / 10) * 10 + n % 10 == n as int) by {
            vstd::arithmetic::div_mod::lemma_fundamental_div_mod(n as int, 10);
        }
    }
}

/// Every character of a decimal numeral is a digit.
pub proof fn lemma_decimal_digits(n: nat)
    ensures
        spec_decimal(n).len() > 0,
        forall|i: int|
            0 <= i < spec_decimal(n).len() ==> is_digit_char(#[trigger] spec_decimal(n)[i]),
    decreases n,
{
    if n >= 10 {
        lemma_decimal_digits(n / 10);
        assert forall|i: int| 0 <= i < spec_decimal(n).len() implies is_digit_char(
            #[trigger] spec_decimal(n)[i],
        ) by {
            if i < spec_decimal(n / 10).len() {
                assert(spec_decimal(n)[i] == spec_decimal(n / 10)[i]);
            }
        }
    }
}

/// Appends the decimal numeral of `n`.
fn push_decimal(n: u64, out: &mut Vec<char>)
    ensures
        final(out)@ == old(out)@ + spec_decimal(n as nat),
    decreases n,
{
    if n < 10 {
        let d: u8 = 48 + (n as u8);
        out.push(d as char);
        proof {
            assert(final(out)@ =~= old(out)@ + spec_decimal(n as nat));
        }
    } else {
        push_decimal(n / 10, out);
        let d: u8 = 48 + ((n % 10) as u8);
        out.push(d as char);
        proof {
            assert(final(out)@ =~= old(out)@ + spec_decimal(n as nat));
        }
    }
}

/// The decimal numeral of `n` as a string.
pub fn u64_to_decimal(n: u64) -> (r: String)
    ensures
        r@ == spec_decimal(n as nat),
{
    let mut out: Vec<char> = Vec::new();
    push_decimal(n, &mut out);
    proof {
        assert(out@ =~= spec_decimal(n as nat));
    }
    chars_to_string(&out)
}

} // verus!

//! Display helpers consumed by the results screen: timer formatting, quote
//! length categories, theme color parsing, and the composed test-type label.
//! All of it is pure formatting of already-available data.

use vstd::prelude::*;
use crate::models::{Mode, QuoteLength, QuoteSelector};
use crate::text::{spec_decimal, str_to_chars, u64_to_decimal};

verus! {

/// The seconds rendered for the timer: `M:SS` from one minute up, plain
/// seconds below.
pub open spec fn spec_format_timer(seconds: u64) -> Seq<char> {
    if seconds >= 60 {
        spec_decimal((seconds / 60) as nat) + seq![':'] + spec_pad2((seconds % 60) as nat)
    } else {
        spec_decimal(seconds as nat)
    }
}

/// A value below 60 rendered with two digits.
pub open spec fn spec_pad2(n: nat) -> Seq<char> {
    if n < 10 {
        seq!['0'] + spec_decimal(n)
    } else {
        spec_decimal(n)
    }
}

pub fn format_timer(seconds: u64) -> (r: String)
    ensures
        r@ == spec_format_timer(seconds),
{
    if seconds >= 60 {
        let minutes = u64_to_decimal(seconds / 60);
        let secs = seconds % 60;
        let secs_str = u64_to_decimal(secs);
        let padded = if secs < 10 {
            let p = String::from_str("0").concat(secs_str.as_str());
            proof {
                reveal_strlit("0");
                assert(p@ =~= spec_pad2((seconds % 60) as nat));
            }
            p
        } else {
            secs_str
        };
        let r = minutes.concat(":").concat(padded.as_str());
        proof {
            reveal_strlit(":");
            assert(r@ =~= spec_format_timer(seconds));
        }
        r
    } else {
        u64_to_decimal(seconds)
    }
}

/// The displayed length category of a quote with the given character count.
pub open spec fn spec_length_category(char_count: usize) -> Seq<char> {
    if char_count <= 100 {
        "short"@
    } else if char_count <= 300 {
        "medium"@
    } else if char_count <= 600 {
        "long"@
    } else {
        "very long"@
    }
}

pub fn get_quote_length_category(char_count: usize) -> (r: &'static str)
    ensures
        r@ == spec_length_category(char_count),
{
    if char_count <= 100 {
        "short"
    } else if char_count <= 300 {
        "medium"
    } else if char_count <= 600 {
        "long"
    } else {
        "very long"
    }
}

/// A theme color: an RGB triple, or the fallback when the hex string is not
/// six digits long.
#[derive(Clone, Copy, PartialEq, Eq, Structural, Debug)]
pub enum ThemeColor {
    Rgb(u8, u8, u8),
    White,
}

/// The value of one hex digit; 16 marks a character that is none.
pub open spec fn spec_hex_val(c: char) -> int {
    if '0' <= c && c <= '9' {
        (c as int) - 48
    } else if 'a' <= c && c <= 'f' {
        (c as int) - 87
    } else if 'A' <= c && c <= 'F' {
        (c as int) - 55
    } else {
        16
    }
}

/// One color channel from two hex digits; the brightest value when either
/// digit is invalid.
pub open spec fn spec_channel(h: char, l: char) -> u8 {
    if spec_hex_val(h) < 16 && spec_hex_val(l) < 16 {
        (16 * spec_hex_val(h) + spec_hex_val(l)) as u8
    } else {
        255
    }
}

/// `s` with every leading `'#'` removed.
pub open spec fn spec_trim_hash(s: Seq<char>) -> Seq<char>
    decreases s.len(),
{
    if s.len() > 0 && s.first() == '#' {
        spec_trim_hash(s.drop_first())
    } else {
        s
    }
}

/// The color a theme hex string names: after leading `'#'` marks are
/// trimmed, six characters are read as three channel pairs, or the fallback
/// stands.
pub open spec fn spec_color_of_hex(s: Seq<char>) -> ThemeColor {
    let t = spec_trim_hash(s);
    if t.len() == 6 {
        ThemeColor::Rgb(
            spec_channel(t[0], t[1]),
            spec_channel(t[2], t[3]),
            spec_channel(t[4], t[5]),
        )
    } else {
        ThemeColor::White
    }
}

fn hex_val(c: char) -> (r: u8)
    ensures
        r as int == spec_hex_val(c),
{
    if '0' <= c && c <= '9' {
        (c as u32 - 48) as u8
    } else if 'a' <= c && c <= 'f' {
        (c as u32 - 87) as u8
    } else if 'A' <= c && c <= 'F' {
        (c as u32 - 55) as u8
    } else {
        16
    }
}

fn channel(h: char, l: char) -> (r: u8)
    ensures
        r == spec_channel(h, l),
{
    let hv = hex_val(h);
    let lv = hex_val(l);
    if hv < 16 && lv < 16 {
        16 * hv + lv
    } else {
        255
    }
}

/// Parses a theme hex string such as a six-digit color with a leading hash
/// mark into its RGB channels.
pub fn hex_to_rgb(hex: &str) -> (r: ThemeColor)
    ensures
        r == spec_color_of_hex(hex@),
{
    let chars = str_to_chars(hex);
    let mut start: usize = 0;
    proof {
        assert(hex@.skip(0) =~= hex@);
    }
    while start < chars.len() && chars[start] == '#'
        invariant
            chars@ == hex@,
            start <= hex@.len(),
            spec_trim_hash(hex@) == spec_trim_hash(hex@.skip(start as int)),
        decreases hex@.len() - start,
    {
        proof {
            assert(hex@.skip(start as int).drop_first() =~= hex@.skip(start + 1));
        }
        start = start + 1;
    }
    proof {
        assert(spec_trim_hash(hex@.skip(start as int)) == hex@.skip(start as int));
        if start < hex@.len() {
            assert(hex@.skip(start as int)[0] == hex@[start as int]);
        }
    }
    let remaining = chars.len() - start;
    if remaining == 6 {
        let ghost t = spec_trim_hash(hex@);
        proof {
            assert forall|k: int| 0 <= k < 6 implies t[k] == chars@[start + k] by {
                assert(t[k] == hex@.skip(start as int)[k]);
            }
        }
        ThemeColor::Rgb(
            channel(chars[start], chars[start + 1]),
            channel(chars[start + 2], chars[start + 3]),
            channel(chars[start + 4], chars[start + 5]),
        )
    } else {
        ThemeColor::White
    }
}

/// The lowercase name a selector's category carries in the mode label.
pub open spec fn spec_category_name(len: QuoteLength) -> Seq<char> {
    match len {
        QuoteLength::Short => "short"@,
        QuoteLength::Medium => "medium"@,
        QuoteLength::Long => "long"@,
        QuoteLength::VeryLong => "verylong"@,
        QuoteLength::All => "all"@,
    }
}

pub fn category_name(len: &QuoteLength) -> (r: &'static str)
    ensures
        r@ == spec_category_name(*len),
{
    match len {
        QuoteLength::Short => "short",
        QuoteLength::Medium => "medium",
        QuoteLength::Long => "long",
        QuoteLength::VeryLong => "verylong",
        QuoteLength::All => "all",
    }
}

/// The mode's display label. For a quote picked by id, or by the unbounded
/// category, the label carries the category of the quote actually shown,
/// which the caller derives from its character count.
pub open spec fn spec_mode_label(mode: Mode, actual_category: Seq<char>) -> Seq<char> {
    match mode {
        Mode::Time(t) => "time "@ + spec_decimal(t as nat),
        Mode::Words(w) => "word "@ + spec_decimal(w as nat),
        Mode::Quote(selector) => "quote "@ + match selector {
            QuoteSelector::Id(_) => actual_category,
            QuoteSelector::Category(len) => if len is All {
                actual_category
            } else {
                spec_category_name(len)
            },
        },
    }
}

pub fn mode_label(mode: &Mode, actual_category: &str) -> (r: String)
    requires
        mode matches Mode::Words(w) ==> w <= u64::MAX,
    ensures
        r@ == spec_mode_label(*mode, actual_category@),
{
    match mode {
        Mode::Time(t) => {
            let r = String::from_str("time ").concat(u64_to_decimal(*t).as_str());
            proof {
                reveal_strlit("time ");
            }
            r
        },
        Mode::Words(w) => {
            let r = String::from_str("word ").concat(u64_to_decimal(*w as u64).as_str());
            proof {
                reveal_strlit("word ");
            }
            r
        },
        Mode::Quote(selector) => {
            let cat: &str = match selector {
                QuoteSelector::Id(_) => actual_category,
                QuoteSelector::Category(len) => match len {
                    QuoteLength::All => actual_category,
                    _ => category_name(len),
                },
            };
            let r = String::from_str("quote ").concat(cat);
            proof {
                reveal_strlit("quote ");
            }
            r
        },
    }
}

/// The composed test-type line: the mode label, the corpus name, and the
/// enabled flags, space-separated.
pub open spec fn spec_test_type(
    label: Seq<char>,
    corpus_name: Seq<char>,
    use_punctuation: bool,
    use_numbers: bool,
) -> Seq<char> {
    label + " "@ + corpus_name + (if use_punctuation {
        " punctuation"@
    } else {
        Seq::<char>::empty()
    }) + (if use_numbers {
        " number"@
    } else {
        Seq::<char>::empty()
    })
}

pub fn test_type_label(
    label: &str,
    corpus_name: &str,
    use_punctuation: bool,
    use_numbers: bool,
) -> (r: String)
    ensures
        r@ == spec_test_type(label@, corpus_name@, use_punctuation, use_numbers),
{
    let mut r = label.to_owned().concat(" ").concat(corpus_name);
    proof {
        reveal_strlit(" ");
    }
    if use_punctuation {
        r = r.concat(" punctuation");
        proof {
            reveal_strlit(" punctuation");
        }
    }
    if use_numbers {
        r = r.concat(" number");
        proof {
            reveal_strlit(" number");
        }
    }
    proof {
        assert(r@ =~= spec_test_type(label@, corpus_name@, use_punctuation, use_numbers));
    }
    r
}

} // verus!

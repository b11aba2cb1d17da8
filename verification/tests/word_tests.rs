//! Tests of the per-word engine and the text/display helpers.

use typestream::display::{
    format_timer, get_quote_length_category, hex_to_rgb, mode_label, test_type_label, ThemeColor,
};
use typestream::models::{Mode, QuoteLength, QuoteSelector};
use typestream::punctuation::{ApplyDraws, PunctuationRules};
use typestream::text::{
    capitalize_word, chars_to_string, clean_typography_symbols, ends_with_terminator, lower_char,
    split_whitespace, str_eq, str_to_chars, to_lowercase, to_uppercase, u64_to_decimal, upper_char,
};

fn rules(use_punctuation: bool, use_numbers: bool) -> PunctuationRules {
    PunctuationRules { use_punctuation, use_numbers }
}

fn draws() -> ApplyDraws {
    ApplyDraws {
        number_trial: 99,
        number_value: 0,
        contraction_trial: 99,
        contraction_pick: 0,
        punct_trial: 99,
        punct_kind: 0,
    }
}

#[test]
fn numeral_substitution_parses_in_range() {
    let r = rules(true, true);
    let mut d = draws();
    d.number_trial = 14;
    d.number_value = 4242;
    let out = r.apply_decided("hello", &d);
    assert_eq!(out, "4242");
    let n: u32 = out.parse().unwrap();
    assert!(n <= 9999);
    d.number_value = 0;
    let out = r.apply_decided("hello", &d);
    assert_eq!(out, "0");
    let n: u32 = out.parse().unwrap();
    assert!(n <= 9999);
    d.number_value = 9999;
    let out = r.apply_decided("hello", &d);
    assert_eq!(out, "9999");
}

#[test]
fn numeral_substitution_ignores_punctuation_flag() {
    let r = rules(false, true);
    let mut d = draws();
    d.number_trial = 0;
    d.number_value = 17;
    assert_eq!(r.apply_decided("word", &d), "17");
}

#[test]
fn apply_without_flags_returns_word_unchanged() {
    let r = rules(false, false);
    let mut d = draws();
    d.number_trial = 0;
    d.contraction_trial = 0;
    d.punct_trial = 0;
    assert_eq!(r.apply_decided("Quick", &d), "Quick");
}

#[test]
fn contraction_casing_all_upper() {
    let r = rules(true, false);
    assert_eq!(r.apply_contraction("ARE", 0), "AREN'T");
}

#[test]
fn contraction_casing_capitalized() {
    let r = rules(true, false);
    let one = r.apply_contraction("It", 0);
    let two = r.apply_contraction("It", 1);
    assert_eq!(one, "It's");
    assert_eq!(two, "It'll");
}

#[test]
fn contraction_casing_lowercase() {
    let r = rules(true, false);
    assert_eq!(r.apply_contraction("are", 0), "aren't");
}

#[test]
fn contraction_unknown_word_unchanged() {
    let r = rules(true, false);
    assert_eq!(r.apply_contraction("zebra", 3), "zebra");
}

#[test]
fn contraction_pick_wraps_around() {
    let r = rules(true, false);
    // "i" has four candidates; pick 5 selects the second.
    assert_eq!(r.apply_contraction("i", 4), "i'm");
    assert_eq!(r.apply_contraction("i", 5), "i'll");
}

#[test]
fn punctuation_buckets() {
    let r = rules(true, false);
    let mut d = draws();
    d.punct_trial = 29;
    d.punct_kind = 0;
    assert_eq!(r.apply_decided("word", &d), "word,");
    d.punct_kind = 40;
    assert_eq!(r.apply_decided("word", &d), "word.");
    d.punct_kind = 74;
    assert_eq!(r.apply_decided("word", &d), "word!");
    d.punct_kind = 75;
    assert_eq!(r.apply_decided("word", &d), "word");
    d.punct_kind = 89;
    assert_eq!(r.apply_decided("word", &d), "\"word\"");
    d.punct_kind = 90;
    assert_eq!(r.apply_decided("word", &d), "'word'");
    d.punct_kind = 99;
    assert_eq!(r.apply_decided("word", &d), "(word)");
}

#[test]
fn punctuation_trial_at_threshold_leaves_word() {
    let r = rules(true, false);
    let mut d = draws();
    d.punct_trial = 30;
    d.punct_kind = 0;
    assert_eq!(r.apply_decided("word", &d), "word");
}

#[test]
fn contraction_then_punctuation_compose() {
    let r = rules(true, false);
    let mut d = draws();
    d.contraction_trial = 39;
    d.punct_trial = 0;
    d.punct_kind = 45;
    assert_eq!(r.apply_decided("is", &d), "isn't.");
}

#[test]
fn replacements_table_lookup() {
    let r = rules(true, false);
    assert_eq!(r.get_contraction_replacements("won"), None);
    let will = r.get_contraction_replacements("will").unwrap();
    assert_eq!(will, vec!["won't".to_string()]);
    let you = r.get_contraction_replacements("you").unwrap();
    assert_eq!(you.len(), 4);
    assert_eq!(you[1], "you're");
}

#[test]
fn match_casing_no_letters_counts_as_upper() {
    let r = rules(true, false);
    assert_eq!(r.match_casing("123", "it's"), "IT'S");
}

#[test]
fn char_case_helpers() {
    assert_eq!(upper_char('a'), 'A');
    assert_eq!(upper_char('Z'), 'Z');
    assert_eq!(upper_char('!'), '!');
    assert_eq!(lower_char('Q'), 'q');
    assert_eq!(lower_char('-'), '-');
    assert_eq!(to_lowercase("MiXeD!"), "mixed!");
    assert_eq!(to_uppercase("aren't"), "AREN'T");
}

#[test]
fn string_round_trip_and_eq() {
    let v = str_to_chars("hold");
    assert_eq!(v, vec!['h', 'o', 'l', 'd']);
    assert_eq!(chars_to_string(&v), "hold");
    assert!(str_eq("same", "same"));
    assert!(!str_eq("same", "sames"));
    assert!(!str_eq("same", "sane"));
}

#[test]
fn capitalize_and_terminator_helpers() {
    let mut w = "hello".to_string();
    capitalize_word(&mut w);
    assert_eq!(w, "Hello");
    let mut d = "-".to_string();
    capitalize_word(&mut d);
    assert_eq!(d, "-");
    assert!(ends_with_terminator("done."));
    assert!(ends_with_terminator("what?"));
    assert!(ends_with_terminator("go!"));
    assert!(!ends_with_terminator("pause,"));
    assert!(!ends_with_terminator(""));
}

#[test]
fn typography_cleanup_and_split() {
    let cleaned = clean_typography_symbols("\u{201C}a\u{2019}b\u{201D} \u{2014} c");
    assert_eq!(cleaned, "\"a'b\" - c");
    let words = split_whitespace("  one\ttwo\n three  ");
    assert_eq!(words, vec!["one".to_string(), "two".to_string(), "three".to_string()]);
    let none: Vec<String> = split_whitespace("   ");
    assert!(none.is_empty());
}

#[test]
fn decimal_rendering() {
    assert_eq!(u64_to_decimal(0), "0");
    assert_eq!(u64_to_decimal(405), "405");
    assert_eq!(u64_to_decimal(10000), "10000");
}

#[test]
fn timer_formatting() {
    assert_eq!(format_timer(59), "59");
    assert_eq!(format_timer(60), "1:00");
    assert_eq!(format_timer(90), "1:30");
    assert_eq!(format_timer(61), "1:01");
    assert_eq!(format_timer(0), "0");
    assert_eq!(format_timer(600), "10:00");
}

#[test]
fn length_categories() {
    assert_eq!(get_quote_length_category(100), "short");
    assert_eq!(get_quote_length_category(101), "medium");
    assert_eq!(get_quote_length_category(300), "medium");
    assert_eq!(get_quote_length_category(301), "long");
    assert_eq!(get_quote_length_category(600), "long");
    assert_eq!(get_quote_length_category(601), "very long");
}

#[test]
fn hex_color_parsing() {
    assert_eq!(hex_to_rgb("#ff0000"), ThemeColor::Rgb(255, 0, 0));
    assert_eq!(hex_to_rgb("00Ff10"), ThemeColor::Rgb(0, 255, 16));
    assert_eq!(hex_to_rgb("#fff"), ThemeColor::White);
    assert_eq!(hex_to_rgb(""), ThemeColor::White);
    assert_eq!(hex_to_rgb("##123456"), ThemeColor::Rgb(0x12, 0x34, 0x56));
    // An unparsable channel falls back to full brightness.
    assert_eq!(hex_to_rgb("#gg0011"), ThemeColor::Rgb(255, 0, 17));
}

#[test]
fn mode_and_test_type_labels() {
    assert_eq!(mode_label(&Mode::Time(30), "short"), "time 30");
    assert_eq!(mode_label(&Mode::Words(50), "short"), "word 50");
    assert_eq!(mode_label(&Mode::Quote(QuoteSelector::Id(3)), "medium"), "quote medium");
    assert_eq!(
        mode_label(&Mode::Quote(QuoteSelector::Category(QuoteLength::VeryLong)), "short"),
        "quote verylong"
    );
    assert_eq!(
        mode_label(&Mode::Quote(QuoteSelector::Category(QuoteLength::All)), "long"),
        "quote long"
    );
    assert_eq!(test_type_label("time 30", "english", false, false), "time 30 english");
    assert_eq!(
        test_type_label("word 50", "english", true, true),
        "word 50 english punctuation number"
    );
}

#[test]
fn apply_with_flags_off_is_identity_for_any_draw() {
    let r = rules(false, false);
    let mut rng = rand::rng();
    for _ in 0..50 {
        assert_eq!(r.apply("steady", &mut rng), "steady");
    }
}

#[test]
fn dash_signal_needs_punctuation() {
    let r = rules(false, true);
    let mut rng = rand::rng();
    for _ in 0..50 {
        assert!(!r.should_insert_dash(&mut rng));
    }
}

#[test]
fn apply_with_numbers_only_yields_word_or_numeral() {
    let r = rules(false, true);
    let mut rng = rand::rng();
    for _ in 0..100 {
        let out = r.apply("base", &mut rng);
        if out != "base" {
            let n: u32 = out.parse().unwrap();
            assert!(n <= 9999);
        }
    }
}

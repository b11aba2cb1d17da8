//! Tests of stream formatting, quote windowing and the generator's two
//! entry points.

use typestream::formatting::{apply_contextual_capitalization, finalize_stream_punctuation};
use typestream::generator::WordGenerator;
use typestream::models::{
    LengthRange, Mode, QuoteData, QuoteEntry, QuoteLength, QuoteSelector, WordData,
};
use typestream::quote_controller::next_word;

fn strings(words: &[&str]) -> Vec<String> {
    words.iter().map(|w| w.to_string()).collect()
}

fn word_data(words: &[&str]) -> WordData {
    WordData { name: "english".to_string(), words: strings(words) }
}

fn default_groups() -> Vec<LengthRange> {
    vec![
        LengthRange { min: 0, max: 100 },
        LengthRange { min: 101, max: 300 },
        LengthRange { min: 301, max: 600 },
        LengthRange { min: 601, max: 9999 },
    ]
}

fn quote(id: u64, text: &str, source: &str) -> QuoteEntry {
    QuoteEntry {
        id,
        text: text.to_string(),
        source: source.to_string(),
        length: text.chars().count() as u64,
    }
}

fn empty_quote_data() -> QuoteData {
    QuoteData { quotes: Vec::new(), groups: default_groups() }
}

#[test]
fn finalize_capitalizes_and_terminates() {
    let mut stream = strings(&["hello", "world"]);
    finalize_stream_punctuation(&mut stream);
    assert_eq!(stream, strings(&["Hello", "world."]));
}

#[test]
fn finalize_cascades_after_terminators() {
    let mut stream = strings(&["hi.", "there,", "you!", "again"]);
    finalize_stream_punctuation(&mut stream);
    assert_eq!(stream, strings(&["Hi.", "There,", "you!", "Again."]));
}

#[test]
fn finalize_strips_trailing_comma() {
    let mut stream = strings(&["one", "two,"]);
    finalize_stream_punctuation(&mut stream);
    assert_eq!(stream, strings(&["One", "two."]));
}

#[test]
fn finalize_drops_trailing_dash() {
    let mut stream = strings(&["ok", "-"]);
    finalize_stream_punctuation(&mut stream);
    assert_eq!(stream, strings(&["Ok"]));
}

#[test]
fn finalize_keeps_interior_dash() {
    let mut stream = strings(&["a.", "-", "b"]);
    finalize_stream_punctuation(&mut stream);
    assert_eq!(stream, strings(&["A.", "-", "b."]));
}

#[test]
fn finalize_empty_stream_is_untouched() {
    let mut stream: Vec<String> = Vec::new();
    finalize_stream_punctuation(&mut stream);
    assert!(stream.is_empty());
}

#[test]
fn finalize_respects_existing_terminator() {
    let mut stream = strings(&["done!"]);
    finalize_stream_punctuation(&mut stream);
    assert_eq!(stream, strings(&["Done!"]));
}

#[test]
fn contextual_capitalization_after_terminator() {
    let mut new_words = strings(&["next"]);
    let existing = strings(&["End."]);
    apply_contextual_capitalization(&mut new_words, &existing, true);
    assert_eq!(new_words, strings(&["Next"]));
}

#[test]
fn contextual_capitalization_skipped_without_punctuation() {
    let mut new_words = strings(&["next"]);
    let existing = strings(&["End."]);
    apply_contextual_capitalization(&mut new_words, &existing, false);
    assert_eq!(new_words, strings(&["next"]));
}

#[test]
fn contextual_capitalization_needs_terminator() {
    let mut new_words = strings(&["next"]);
    let existing = strings(&["middle"]);
    apply_contextual_capitalization(&mut new_words, &existing, true);
    assert_eq!(new_words, strings(&["next"]));
}

#[test]
fn words_mode_without_punctuation_uses_corpus_verbatim() {
    let generator = WordGenerator::new(word_data(&["the", "quick", "fox"]), false, false);
    let produced = generator.generate_initial_words(&Mode::Words(3), &empty_quote_data());
    assert_eq!(produced.word_stream.len(), 3);
    assert_eq!(produced.generated_count, 3);
    assert_eq!(produced.total_quote_words, 0);
    assert!(produced.quote_pool.is_empty());
    let mut sorted = produced.word_stream.clone();
    sorted.sort();
    assert_eq!(sorted, strings(&["fox", "quick", "the"]));
    let mut pool: Vec<String> = Vec::new();
    let next = generator.add_one_word(&Mode::Words(3), &produced.word_stream, &mut pool, 3);
    assert!(next.is_none());
}

#[test]
fn words_mode_target_beyond_corpus_produces_fewer() {
    let generator = WordGenerator::new(word_data(&["alpha", "beta"]), false, false);
    let produced = generator.generate_initial_words(&Mode::Words(10), &empty_quote_data());
    assert_eq!(produced.generated_count, 2);
    assert_eq!(produced.word_stream.len(), 2);
}

#[test]
fn words_mode_add_one_word_until_target() {
    let generator = WordGenerator::new(word_data(&["one", "two", "three"]), false, false);
    let stream = strings(&["one"]);
    let mut pool: Vec<String> = Vec::new();
    for count in 0..3usize {
        let unit = generator.add_one_word(&Mode::Words(3), &stream, &mut pool, count);
        let unit = unit.unwrap();
        assert!(!unit.is_empty() && unit.len() <= 2);
        for w in &unit {
            assert!(!w.is_empty());
        }
    }
    assert!(generator.add_one_word(&Mode::Words(3), &stream, &mut pool, 3).is_none());
    assert!(generator.add_one_word(&Mode::Words(3), &stream, &mut pool, 4).is_none());
}

#[test]
fn time_mode_produces_a_window_and_keeps_appending() {
    let generator = WordGenerator::new(word_data(&["tick", "tock"]), false, false);
    let produced = generator.generate_initial_words(&Mode::Time(30), &empty_quote_data());
    assert!(produced.word_stream.len() >= 50);
    assert_eq!(produced.generated_count, 0);
    for w in &produced.word_stream {
        assert!(w == "tick" || w == "tock");
    }
    let mut pool: Vec<String> = Vec::new();
    for _ in 0..5 {
        let unit = generator.add_one_word(&Mode::Time(30), &produced.word_stream, &mut pool, 0);
        let unit = unit.unwrap();
        assert!(!unit.is_empty() && unit.len() <= 2);
        for w in &unit {
            assert!(!w.is_empty());
        }
    }
}

#[test]
fn time_mode_with_punctuation_formats_stream() {
    let generator = WordGenerator::new(word_data(&["alpha", "beta", "gamma"]), false, true);
    let produced = generator.generate_initial_words(&Mode::Time(15), &empty_quote_data());
    let stream = &produced.word_stream;
    assert!(!stream.is_empty());
    for w in stream {
        assert!(!w.is_empty());
    }
    let first_char = stream[0].chars().next().unwrap();
    if first_char.is_ascii_alphabetic() {
        assert!(first_char.is_ascii_uppercase());
    }
    let last_char = stream[stream.len() - 1].chars().last().unwrap();
    assert!(last_char == '.' || last_char == '!' || last_char == '?');
    for i in 0..stream.len() - 1 {
        let end = stream[i].chars().last().unwrap();
        if end == '.' || end == '!' || end == '?' {
            let begin = stream[i + 1].chars().next().unwrap();
            if begin.is_ascii_alphabetic() {
                assert!(begin.is_ascii_uppercase());
            }
        }
    }
}

#[test]
fn empty_corpus_falls_back_to_fixed_word() {
    let generator = WordGenerator::new(word_data(&[]), false, false);
    let produced = generator.generate_initial_words(&Mode::Time(30), &empty_quote_data());
    assert!(produced.word_stream.len() >= 50);
    for w in &produced.word_stream {
        assert_eq!(w, "word");
    }
}

#[test]
fn quote_window_of_150_words_drains_in_order() {
    let words: Vec<String> = (0..150).map(|i| format!("w{}", i)).collect();
    let text = words.join(" ");
    let qd = QuoteData { quotes: vec![quote(7, &text, "Someone")], groups: default_groups() };
    let generator = WordGenerator::new(word_data(&["x"]), false, false);
    let mode = Mode::Quote(QuoteSelector::Id(7));
    let mut produced = generator.generate_initial_words(&mode, &qd);
    assert_eq!(produced.word_stream.len(), 100);
    assert_eq!(produced.quote_pool.len(), 50);
    assert_eq!(produced.total_quote_words, 150);
    assert_eq!(produced.current_quote_source, "Someone");
    assert_eq!(produced.word_stream, words[..100].to_vec());
    for i in 0..50usize {
        let unit = generator
            .add_one_word(&mode, &produced.word_stream, &mut produced.quote_pool, 0)
            .unwrap();
        assert_eq!(unit, vec![words[100 + i].clone()]);
    }
    assert!(produced.quote_pool.is_empty());
    let done = generator.add_one_word(&mode, &produced.word_stream, &mut produced.quote_pool, 0);
    assert!(done.is_none());
}

#[test]
fn short_quote_has_empty_pool() {
    let qd = QuoteData {
        quotes: vec![quote(1, "just a few words here", "Author")],
        groups: default_groups(),
    };
    let generator = WordGenerator::new(word_data(&["x"]), false, false);
    let produced =
        generator.generate_initial_words(&Mode::Quote(QuoteSelector::Id(1)), &qd);
    assert_eq!(produced.word_stream, strings(&["just", "a", "few", "words", "here"]));
    assert!(produced.quote_pool.is_empty());
    assert_eq!(produced.total_quote_words, 5);
    assert_eq!(produced.current_quote_source, "Author");
}

#[test]
fn unknown_quote_id_falls_back() {
    let qd = QuoteData { quotes: vec![quote(1, "text", "A")], groups: default_groups() };
    let generator = WordGenerator::new(word_data(&["x"]), false, false);
    let produced =
        generator.generate_initial_words(&Mode::Quote(QuoteSelector::Id(999)), &qd);
    assert_eq!(produced.word_stream, strings(&["No", "Quote", "Found"]));
    assert!(produced.quote_pool.is_empty());
    assert_eq!(produced.total_quote_words, 3);
    assert_eq!(produced.current_quote_source, "System");
}

#[test]
fn category_selection_respects_bounds() {
    let short_text = "tiny";
    let medium_text = "m".repeat(150);
    let qd = QuoteData {
        quotes: vec![quote(1, short_text, "S"), quote(2, &medium_text, "M")],
        groups: default_groups(),
    };
    let generator = WordGenerator::new(word_data(&["x"]), false, false);
    let produced = generator
        .generate_initial_words(&Mode::Quote(QuoteSelector::Category(QuoteLength::Short)), &qd);
    assert_eq!(produced.current_quote_source, "S");
    let produced = generator
        .generate_initial_words(&Mode::Quote(QuoteSelector::Category(QuoteLength::Medium)), &qd);
    assert_eq!(produced.current_quote_source, "M");
    let produced = generator
        .generate_initial_words(&Mode::Quote(QuoteSelector::Category(QuoteLength::Long)), &qd);
    assert_eq!(produced.current_quote_source, "System");
}

#[test]
fn quote_text_typography_is_normalized() {
    let qd = QuoteData {
        quotes: vec![quote(4, "he said \u{201C}go\u{201D} \u{2014} now", "N")],
        groups: default_groups(),
    };
    let generator = WordGenerator::new(word_data(&["x"]), false, false);
    let produced =
        generator.generate_initial_words(&Mode::Quote(QuoteSelector::Id(4)), &qd);
    assert_eq!(produced.word_stream, strings(&["he", "said", "\"go\"", "-", "now"]));
}

#[test]
fn next_word_pops_from_the_tail() {
    let mut pool = strings(&["c", "b", "a"]);
    assert_eq!(next_word(&mut pool), Some(vec!["a".to_string()]));
    assert_eq!(next_word(&mut pool), Some(vec!["b".to_string()]));
    assert_eq!(next_word(&mut pool), Some(vec!["c".to_string()]));
    assert_eq!(next_word(&mut pool), None);
    assert!(pool.is_empty());
}

#[test]
fn random_word_comes_from_corpus() {
    // Exercises the sampling path: a single-word corpus pins the outcome.
    let generator = WordGenerator::new(word_data(&["only"]), false, false);
    let mut pool: Vec<String> = Vec::new();
    let unit = generator.add_one_word(&Mode::Time(30), &Vec::new(), &mut pool, 0).unwrap();
    assert_eq!(unit, vec!["only".to_string()]);
}

#[test]
fn unique_batch_is_a_permutation_of_the_corpus() {
    // If shuffling or batching dropped or duplicated words, the sorted
    // stream would differ from the sorted corpus.
    let corpus = ["a", "b", "c", "d", "e", "f", "g", "h"];
    let generator = WordGenerator::new(word_data(&corpus), false, false);
    let produced = generator.generate_initial_words(&Mode::Words(8), &empty_quote_data());
    let mut sorted = produced.word_stream.clone();
    sorted.sort();
    assert_eq!(sorted, strings(&corpus));
}

#[test]
fn all_category_uses_the_unbounded_stand_in_range() {
    let huge_text = "x ".repeat(5001);
    let qd = QuoteData {
        quotes: vec![quote(9, huge_text.trim_end(), "Huge")],
        groups: default_groups(),
    };
    let generator = WordGenerator::new(word_data(&["x"]), false, false);
    // The quote's character count exceeds the stand-in bound, so the
    // unbounded category finds nothing and falls back.
    let produced = generator.generate_initial_words(
        &Mode::Quote(QuoteSelector::Category(QuoteLength::All)),
        &qd,
    );
    assert_eq!(produced.current_quote_source, "System");
    // By id the same quote resolves and is windowed.
    let produced = generator.generate_initial_words(&Mode::Quote(QuoteSelector::Id(9)), &qd);
    assert_eq!(produced.current_quote_source, "Huge");
    assert_eq!(produced.word_stream.len(), 100);
    assert_eq!(produced.quote_pool.len(), 5001 - 100);
}

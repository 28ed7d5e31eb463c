use tuimail::spellcheck::{SpellCheckConfig, SpellChecker};

fn checker() -> SpellChecker {
    let config = SpellCheckConfig::default();
    SpellChecker::new(&config, None)
}

#[test]
fn test_word_extraction() {
    let text = "Hello world! This is a test.";
    let words = SpellChecker::extract_words_static(text);

    assert_eq!(words.len(), 6);
    assert_eq!(words[0].word, "Hello");
    assert_eq!(words[1].word, "world");
    assert_eq!(words[2].word, "This");
}

#[test]
fn test_should_skip_word() {
    let config = SpellCheckConfig::default();
    let checker = SpellChecker::new(&config, None);

    assert!(checker.should_skip_word("HTTP", &config));
    assert!(checker.should_skip_word("test123", &config));
    assert!(checker.should_skip_word("user@example.com", &config));
    assert!(!checker.should_skip_word("hello", &config));
}

#[test]
fn test_comprehensive_dictionary() {
    let config = SpellCheckConfig::default();
    let checker = SpellChecker::new(&config, None);

    assert!(checker.is_correct("the"));
    assert!(checker.is_correct("hello"));
    assert!(checker.is_correct("world"));
    assert!(checker.is_correct("computer"));
    assert!(checker.is_correct("programming"));
    assert!(checker.is_correct("email"));
    assert!(checker.is_correct("message"));

    assert!(checker.is_correct("don't"));
    assert!(checker.is_correct("won't"));
    assert!(checker.is_correct("can't"));

    assert!(checker.is_correct("algorithm"));
    assert!(checker.is_correct("database"));

    assert!(!checker.is_correct("asdfghjkl"));
    assert!(!checker.is_correct("qwertyuiop"));
    assert!(!checker.is_correct("zxcvbnm"));
}

#[test]
fn test_stats_consistency() {
    let config = SpellCheckConfig::default();
    let checker = SpellChecker::new(&config, None);

    let test_text = "There is a brown crow; have you ever seen a brown crow?";
    let errors = checker.check_text(test_text, &config);
    let stats = checker.get_stats(test_text, &config);
    let accuracy = if stats.total_words > 0 {
        ((stats.total_words - stats.misspelled_words) as f64 / stats.total_words as f64) * 100.0
    } else {
        100.0
    };

    assert_eq!(errors.len(), stats.misspelled_words, "Error count should match stats misspelled_words");
    assert_eq!(errors.len(), 0, "Should have 0 errors for correct text");
    assert_eq!(stats.misspelled_words, 0, "Stats should show 0 misspelled words");
    assert_eq!(accuracy, 100.0, "Accuracy should be 100% for correct text");
}

#[test]
fn word_positions_are_byte_offsets() {
    let words = SpellChecker::extract_words_static("héllo, it's a well-known fact");
    let found: Vec<(&str, usize)> = words.iter().map(|w| (w.word.as_str(), w.position)).collect();
    assert_eq!(
        found,
        vec![("héllo", 0), ("it's", 8), ("a", 13), ("well-known", 15), ("fact", 26)]
    );
}

#[test]
fn words_end_at_digits_and_punctuation() {
    let words = SpellChecker::extract_words_static("abc1def  x.y");
    let found: Vec<&str> = words.iter().map(|w| w.word.as_str()).collect();
    assert_eq!(found, vec!["abc", "def", "x", "y"]);
    assert!(SpellChecker::extract_words_static("").is_empty());
    assert!(SpellChecker::extract_words_static("123 !?").is_empty());
}

#[test]
fn words_shorter_than_two_characters_are_skipped() {
    let config = SpellCheckConfig::default();
    let c = checker();
    assert!(c.should_skip_word("x", &config));
    assert!(c.should_skip_word("", &config));
    assert!(c.should_skip_word("a", &config));
    assert!(c.should_skip_word("I", &config));
    assert!(!c.should_skip_word("é", &config));
    assert!(!c.should_skip_word("an", &config));
    assert!(c.should_skip_word("www.example", &config));
    assert!(c.should_skip_word("https", &config));
    let relaxed = SpellCheckConfig { ignore_uppercase: false, ignore_numbers: false, ..SpellCheckConfig::default() };
    assert!(!c.should_skip_word("HTTP", &relaxed));
    assert!(!c.should_skip_word("abc123", &relaxed));
}

#[test]
fn capitalised_and_uppercase_words_are_correct() {
    let c = checker();
    assert!(c.is_correct("Hello"));
    assert!(c.is_correct("HELLO"));
    assert!(c.is_correct(""));
    assert!(c.is_correct("don't"));
}

#[test]
fn contractions_are_recognised() {
    let c = checker();
    for w in ["I'm", "you're", "can't", "don't", "won't", "I've", "I'll", "I'd"] {
        assert!(c.is_correct(w), "{}", w);
    }
}

#[test]
fn check_text_reports_misspellings_with_positions() {
    let config = SpellCheckConfig::default();
    let c = checker();
    let errors = c.check_text("Teh meeting is tommorow at home", &config);
    let found: Vec<(&str, usize)> = errors.iter().map(|e| (e.word.as_str(), e.position)).collect();
    assert_eq!(found, vec![("Teh", 0), ("tommorow", 15)]);
    assert!(errors.iter().all(|e| e.suggestions.is_empty()));
    let stats = c.get_stats("Teh meeting is tommorow at home", &config);
    assert_eq!(stats.total_words, 6);
    assert_eq!(stats.misspelled_words, 2);
}

#[test]
fn added_word_becomes_correct() {
    let config = SpellCheckConfig::default();
    let mut c = checker();
    assert!(!c.is_correct("Verus"));
    c.add_to_personal_dictionary("Verus");
    assert!(c.is_correct("verus"));
    assert!(c.is_correct("VERUS"));
    assert!(c.check_text("Verus is here", &config).is_empty());
    assert_eq!(c.personal_words(), vec!["verus".to_string()]);
}

#[test]
fn personal_dictionary_text_is_loaded() {
    let config = SpellCheckConfig::default();
    let c = SpellChecker::new(&config, Some("  Zorblax \n\nquux\r\n"));
    assert!(c.is_correct("zorblax"));
    assert!(c.is_correct("Quux"));
    let mut words = c.personal_words();
    words.sort();
    assert_eq!(words, vec!["quux".to_string(), "zorblax".to_string()]);
}

#[test]
fn suggestions_use_known_corrections() {
    let config = SpellCheckConfig::default();
    let c = checker();
    let s = c.suggest("recieve");
    assert_eq!(s[0], "receive");
    assert!(s.len() <= 3);
    assert!(!s.contains(&"recieve".to_string()));
    let s = c.suggest("Teh");
    assert_eq!(s[0], "the");
    assert!(c.suggest("").is_empty());
    let limited = c.get_suggestions_for_word("recieve", &SpellCheckConfig { max_suggestions: 1, ..config.clone() });
    assert_eq!(limited, vec!["receive".to_string()]);
    let none = c.get_suggestions_for_word("recieve", &SpellCheckConfig { max_suggestions: 0, ..config });
    assert!(none.is_empty());
}

#[test]
fn suggestions_are_close_words() {
    let c = checker();
    for s in c.suggest("helo") {
        assert_ne!(s, "helo");
        let diff = (s.len() as i64 - 4).abs();
        assert!(diff <= 1);
    }
}

#[test]
fn suggestions_are_distinct_dictionary_words() {
    let c = checker();
    for word in ["recieve", "helo", "teh", "wrold", "thier"] {
        let s = c.suggest(word);
        assert!(s.len() <= 3);
        for (i, x) in s.iter().enumerate() {
            assert!(c.is_correct(x));
            assert_ne!(x, word);
            assert!(!s[i + 1..].contains(x));
        }
    }
}

#[test]
fn typo_ther_suggests_there() {
    let c = checker();
    assert!(!c.is_correct("Ther"));
    let s = c.suggest("Ther");
    assert_eq!(s[0], "there");
}

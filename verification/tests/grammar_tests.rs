use tuimail::grammarcheck::{GrammarCheckConfig, GrammarChecker};

#[test]
fn test_grammar_checker_placeholder() {
    let checker = GrammarChecker::new().unwrap();
    let config = GrammarCheckConfig::default();

    let test_text = "This is a test sentence.";
    let errors = checker.check_text(test_text, &config);

    assert!(errors.is_empty());
}

#[test]
fn test_grammar_config_default_disabled() {
    let config = GrammarCheckConfig::default();
    assert!(!config.enabled);
}

#[test]
fn test_grammar_check_enabled_still_empty() {
    let checker = GrammarChecker::new().unwrap();
    let config = GrammarCheckConfig { enabled: true };
    let errors = checker.check_text("Some text here.", &config);
    assert!(errors.is_empty());
}

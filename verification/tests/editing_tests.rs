use tuimail::editing::{apply_replacement, browser_entries, content_type_for, grammar_error_at, spell_error_at, to_field_addresses, FileEntry};
use tuimail::grammarcheck::GrammarError;
use tuimail::spellcheck::SpellError;

fn spell(word: &str, position: usize) -> SpellError {
    SpellError { word: word.to_string(), position, suggestions: vec![] }
}

fn grammar(start: usize, end: usize) -> GrammarError {
    GrammarError { message: "m".to_string(), start, end, replacements: vec![] }
}

#[test]
fn to_field_entries_are_trimmed_and_non_empty() {
    let v = to_field_addresses(" a@x.org, ,b@y.org ,");
    let got: Vec<(Option<String>, String)> = v.into_iter().map(|a| (a.name, a.address)).collect();
    assert_eq!(got, vec![(None, "a@x.org".to_string()), (None, "b@y.org".to_string())]);
    assert!(to_field_addresses("").is_empty());
}

#[test]
fn error_under_cursor() {
    let errors = vec![spell("teh", 0), spell("wrld", 4), spell("héllo", 9)];
    assert_eq!(spell_error_at(&errors, 0), Some(0));
    assert_eq!(spell_error_at(&errors, 3), Some(0));
    assert_eq!(spell_error_at(&errors, 4), Some(1));
    assert_eq!(spell_error_at(&errors, 8), Some(1));
    assert_eq!(spell_error_at(&errors, 15), Some(2));
    assert_eq!(spell_error_at(&errors, 16), None);
    let g = vec![grammar(5, 9), grammar(2, 6)];
    assert_eq!(grammar_error_at(&g, 3), Some(1));
    assert_eq!(grammar_error_at(&g, 6), Some(0));
    assert_eq!(grammar_error_at(&g, 10), None);
}

#[test]
fn replacement_keeps_the_rest_and_moves_the_cursor() {
    let (t, c) = apply_replacement("héllo wrld!", 7, 11, "world");
    assert_eq!(t, "héllo world!");
    assert_eq!(c, 12);
    let (t, c) = apply_replacement("abc", 0, 0, "x");
    assert_eq!(t, "xabc");
    assert_eq!(c, 1);
    let (t, c) = apply_replacement("abc", 1, 3, "");
    assert_eq!(t, "a");
    assert_eq!(c, 1);
}

#[test]
fn content_types_follow_extensions() {
    assert_eq!(content_type_for(Some("txt")), "text/plain");
    assert_eq!(content_type_for(Some("jpeg")), "image/jpeg");
    assert_eq!(content_type_for(Some("jpg")), "image/jpeg");
    assert_eq!(content_type_for(Some("xlsx")), "application/vnd.openxmlformats-officedocument.spreadsheetml.sheet");
    assert_eq!(content_type_for(Some("TXT")), "application/octet-stream");
    assert_eq!(content_type_for(None), "application/octet-stream");
}

fn entry(name: &str, dir: bool) -> FileEntry {
    FileEntry { name: name.to_string(), is_directory: dir, size: if dir { None } else { Some(1) } }
}

#[test]
fn browser_lists_directories_first_in_name_order() {
    let v = browser_entries(vec![
        entry("zeta.txt", false),
        entry(".hidden", false),
        entry("docs", true),
        entry("..", true),
        entry("Alpha.txt", false),
        entry("alpha.txt", false),
        entry(".git", true),
        entry("Music", true),
    ]);
    let names: Vec<(String, bool)> = v.into_iter().map(|e| (e.name, e.is_directory)).collect();
    assert_eq!(
        names,
        vec![
            ("..".to_string(), true),
            ("Music".to_string(), true),
            ("docs".to_string(), true),
            ("Alpha.txt".to_string(), false),
            ("alpha.txt".to_string(), false),
            ("zeta.txt".to_string(), false),
        ]
    );
}

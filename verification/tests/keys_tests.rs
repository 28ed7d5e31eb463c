use tuimail::editing::FileEntry;
use tuimail::grammarcheck::GrammarError;
use tuimail::keys::{
    browser_step, compose_step, list_step, BrowserAction, BrowserState, ComposeAction, ComposeState, FormField, Key,
    ListAction, ListState, Screen, SuggestionList,
};
use tuimail::spellcheck::SpellError;

fn form(to: &str, subject: &str, body: &str, field: FormField, cursor: usize) -> ComposeState {
    ComposeState {
        to: to.to_string(),
        subject: subject.to_string(),
        body: body.to_string(),
        field,
        cursor,
        spell_check: true,
        grammar_check: true,
        attachment_count: 0,
        selected_attachment: None,
        suggestions: None,
    }
}

fn press(s: &ComposeState, key: Key) -> (ComposeState, ComposeAction) {
    compose_step(s, key, &[], &[])
}

#[test]
fn typing_inserts_at_the_cursor() {
    let s = form("", "", "helo", FormField::Body, 3);
    let (s, a) = press(&s, Key::Char('l'));
    assert_eq!(s.body, "hello");
    assert_eq!(s.cursor, 4);
    assert_eq!(a, ComposeAction::Recheck);
}

#[test]
fn typing_a_wide_character_moves_the_byte_cursor_by_its_width() {
    let s = form("", "", "ab", FormField::Body, 1);
    assert_eq!(s.cursor_byte(), 1);
    let (s, _) = press(&s, Key::Char('é'));
    assert_eq!(s.body, "aéb");
    assert_eq!(s.cursor, 2);
    assert_eq!(s.cursor_byte(), 3);
}

#[test]
fn backspace_deletes_before_the_cursor_and_undoes_typing() {
    let s = form("a@b.c", "", "", FormField::To, 5);
    let (t, a) = press(&s, Key::Char('x'));
    assert_eq!(t.to, "a@b.cx");
    assert_eq!(a, ComposeAction::RecipientsChanged);
    let (u, _) = press(&t, Key::Backspace);
    assert_eq!(u.to, s.to);
    assert_eq!(u.cursor, s.cursor);
    let s = form("", "", "xyz", FormField::Body, 0);
    let (t, a) = press(&s, Key::Backspace);
    assert_eq!(t.body, "xyz");
    assert_eq!(a, ComposeAction::Nothing);
}

#[test]
fn subject_typing_appends_and_backspace_pops() {
    let s = form("", "Hi", "", FormField::Subject, 0);
    let (s, a) = press(&s, Key::Char('!'));
    assert_eq!(s.subject, "Hi!");
    assert_eq!(s.cursor, 0);
    assert_eq!(a, ComposeAction::Recheck);
    let (s, _) = press(&s, Key::Backspace);
    assert_eq!(s.subject, "Hi");
}

#[test]
fn tab_and_arrows_cycle_the_fields_and_place_the_cursor() {
    let s = form("ann@x.org", "Hello", "Body", FormField::To, 0);
    let (s, a) = press(&s, Key::Tab);
    assert_eq!(s.field, FormField::Subject);
    assert_eq!(s.cursor, 5);
    assert_eq!(a, ComposeAction::Recheck);
    let (s, _) = press(&s, Key::Down);
    assert_eq!(s.field, FormField::Body);
    assert_eq!(s.cursor, 0);
    let (s, _) = press(&s, Key::Down);
    assert_eq!(s.field, FormField::To);
    assert_eq!(s.cursor, 9);
    let (s, _) = press(&s, Key::BackTab);
    assert_eq!(s.field, FormField::Body);
    let (s, a) = press(&s, Key::Up);
    assert_eq!(s.field, FormField::Subject);
    assert_eq!(a, ComposeAction::Nothing);
}

#[test]
fn esc_cancels_and_ctrl_keys_send_and_attach() {
    let s = form("a", "b", "c", FormField::Body, 1);
    let (t, a) = press(&s, Key::Esc);
    assert_eq!(a, ComposeAction::Cancel);
    assert_eq!(t.field, FormField::To);
    assert_eq!(t.cursor, 0);
    assert_eq!(press(&s, Key::Ctrl('s')).1, ComposeAction::Send);
    assert_eq!(press(&s, Key::Ctrl('a')).1, ComposeAction::AttachFile);
}

#[test]
fn alt_s_and_alt_r_toggle_the_checkers() {
    let s = form("", "", "", FormField::Body, 0);
    let (t, a) = press(&s, Key::Alt('s'));
    assert!(!t.spell_check);
    assert_eq!(a, ComposeAction::SpellToggled(false));
    let (t, a) = press(&t, Key::Alt('s'));
    assert!(t.spell_check);
    assert_eq!(a, ComposeAction::SpellToggled(true));
    let (t, a) = press(&s, Key::Alt('r'));
    assert!(!t.grammar_check);
    assert_eq!(a, ComposeAction::GrammarToggled(false));
}

#[test]
fn home_and_end_go_to_the_ends_of_the_line() {
    let s = form("", "", "one\ntwo three\nfour", FormField::Body, 6);
    let (t, _) = press(&s, Key::Home);
    assert_eq!(t.cursor, 4);
    let (t, _) = press(&s, Key::End);
    assert_eq!(t.cursor, 13);
    let (t, _) = press(&s, Key::Left);
    assert_eq!(t.cursor, 5);
    let (t, _) = press(&s, Key::Right);
    assert_eq!(t.cursor, 7);
    let s = form("", "", "ab", FormField::Body, 2);
    assert_eq!(press(&s, Key::Right).0.cursor, 2);
}

#[test]
fn enter_adds_a_newline_in_the_body_only() {
    let s = form("", "", "ab", FormField::Body, 1);
    let (t, _) = press(&s, Key::Enter);
    assert_eq!(t.body, "a\nb");
    assert_eq!(t.cursor, 2);
    let s = form("x", "", "", FormField::To, 1);
    assert_eq!(press(&s, Key::Enter).0.to, "x");
}

#[test]
fn alt_g_opens_the_suggestions_under_the_cursor() {
    let errors = vec![SpellError { word: "teh".to_string(), position: 4, suggestions: vec!["the".to_string(), "ten".to_string()] }];
    let s = form("", "", "see teh cat", FormField::Body, 5);
    let (t, a) = compose_step(&s, Key::Alt('g'), &errors, &[]);
    assert_eq!(a, ComposeAction::ShowSpellSuggestions(0));
    assert_eq!(t.suggestions, Some(SuggestionList { grammar: false, error: 0, count: 2, selected: 0 }));
    let (t, _) = compose_step(&t, Key::Down, &errors, &[]);
    assert_eq!(t.suggestions.unwrap().selected, 1);
    let (t2, _) = compose_step(&t, Key::Down, &errors, &[]);
    assert_eq!(t2.suggestions.unwrap().selected, 1);
    let (t, a) = compose_step(&t, Key::Enter, &errors, &[]);
    assert_eq!(a, ComposeAction::ApplySpell(0, 1));
    assert_eq!(t.suggestions, None);
    let far = form("", "", "see teh cat", FormField::Body, 10);
    assert_eq!(compose_step(&far, Key::Alt('g'), &errors, &[]).1, ComposeAction::NoSpellSuggestions);
    let mut off = s.clone();
    off.spell_check = false;
    assert_eq!(compose_step(&off, Key::Alt('g'), &errors, &[]).1, ComposeAction::Nothing);
    assert_eq!(compose_step(&s, Key::Alt('d'), &errors, &[]).1, ComposeAction::AddWord(0));
    assert_eq!(compose_step(&far, Key::Alt('d'), &errors, &[]).1, ComposeAction::NoWordAtCursor);
}

#[test]
fn alt_t_opens_the_grammar_replacements() {
    let errors = vec![GrammarError { message: "m".to_string(), start: 0, end: 4, replacements: vec!["x".to_string()] }];
    let s = form("", "", "a a b", FormField::Body, 2);
    let (t, a) = compose_step(&s, Key::Alt('t'), &[], &errors);
    assert_eq!(a, ComposeAction::ShowGrammarSuggestions(0));
    let (_, a) = compose_step(&t, Key::Enter, &[], &errors);
    assert_eq!(a, ComposeAction::ApplyGrammar(0, 0));
    let (t, a) = compose_step(&t, Key::Esc, &[], &errors);
    assert_eq!(a, ComposeAction::Nothing);
    assert_eq!(t.suggestions, None);
}

#[test]
fn ctrl_x_removes_the_selected_attachment() {
    let mut s = form("", "", "", FormField::Body, 0);
    assert_eq!(press(&s, Key::Ctrl('x')).1, ComposeAction::NoAttachmentSelected);
    s.attachment_count = 2;
    s.selected_attachment = Some(1);
    let (t, a) = press(&s, Key::Ctrl('x'));
    assert_eq!(a, ComposeAction::RemoveAttachment(1));
    assert_eq!(t.attachment_count, 1);
    assert_eq!(t.selected_attachment, Some(0));
    let (t, _) = press(&t, Key::Ctrl('x'));
    assert_eq!(t.attachment_count, 0);
    assert_eq!(t.selected_attachment, None);
}

fn entries() -> Vec<FileEntry> {
    vec![
        FileEntry { name: "..".to_string(), is_directory: true, size: None },
        FileEntry { name: "docs".to_string(), is_directory: true, size: None },
        FileEntry { name: "a.txt".to_string(), is_directory: false, size: Some(3) },
    ]
}

fn browser(save_mode: bool) -> BrowserState {
    BrowserState { selected: 0, save_mode, editing_name: false, filename: "report.pdf".to_string(), has_parent: true }
}

#[test]
fn browser_moves_and_enters_directories() {
    let es = entries();
    let b = browser(false);
    let (b, _) = browser_step(&b, Key::Up, &es);
    assert_eq!(b.selected, 0);
    let (b, _) = browser_step(&b, Key::Down, &es);
    let (b, a) = browser_step(&b, Key::Enter, &es);
    assert_eq!(a, BrowserAction::EnterDirectory(1));
    assert_eq!(b.selected, 0);
    let mut b = b;
    b.selected = 2;
    assert_eq!(browser_step(&b, Key::Down, &es).0.selected, 2);
    assert_eq!(browser_step(&b, Key::Enter, &es).1, BrowserAction::Attach(2));
    assert_eq!(browser_step(&b, Key::Backspace, &es).1, BrowserAction::Parent);
    assert_eq!(browser_step(&b, Key::Esc, &es).1, BrowserAction::Cancelled);
    assert_eq!(browser_step(&b, Key::Char('q'), &es).1, BrowserAction::Nothing);
}

#[test]
fn browser_save_mode_keys() {
    let es = entries();
    let b = browser(true);
    assert_eq!(browser_step(&b, Key::Char('q'), &es).1, BrowserAction::QuickSave);
    assert_eq!(browser_step(&b, Key::Char('s'), &es).1, BrowserAction::SaveHere);
    let (e, a) = browser_step(&b, Key::Char('f'), &es);
    assert_eq!(a, BrowserAction::EditingName);
    assert!(e.editing_name);
    let (e, _) = browser_step(&e, Key::Backspace, &es);
    assert_eq!(e.filename, "report.pd");
    let (e, _) = browser_step(&e, Key::Char('x'), &es);
    assert_eq!(e.filename, "report.pdx");
    let (done, a) = browser_step(&e, Key::Enter, &es);
    assert_eq!(a, BrowserAction::SaveHere);
    assert!(!done.editing_name && !done.save_mode);
    let mut on_file = b.clone();
    on_file.selected = 2;
    let (named, a) = browser_step(&on_file, Key::Enter, &es);
    assert_eq!(a, BrowserAction::EditingName);
    assert_eq!(named.filename, "a.txt");
    let (stop, _) = browser_step(&named, Key::Esc, &es);
    assert!(!stop.editing_name);
}

#[test]
fn list_keys() {
    let s = ListState { count: 3, selected: None, screen: Screen::List };
    let (s, _) = list_step(&s, Key::Down);
    assert_eq!(s.selected, Some(0));
    let (s, _) = list_step(&s, Key::Down);
    let (s, _) = list_step(&s, Key::Down);
    let (s, _) = list_step(&s, Key::Down);
    assert_eq!(s.selected, Some(2));
    let (s, _) = list_step(&s, Key::Up);
    assert_eq!(s.selected, Some(1));
    assert_eq!(list_step(&s, Key::Enter).1, ListAction::Open(1));
    assert_eq!(list_step(&s, Key::Delete).1, ListAction::Delete(1));
    assert_eq!(list_step(&s, Key::Char('q')).1, ListAction::Quit);
    assert_eq!(list_step(&s, Key::Char('c')).1, ListAction::Compose);
    assert_eq!(list_step(&s, Key::Char('r')).1, ListAction::Refresh);
    assert_eq!(list_step(&s, Key::Char('f')).1, ListAction::FolderList);
    assert_eq!(list_step(&s, Key::Char('n')).1, ListAction::NextAccount);
    assert_eq!(list_step(&s, Key::Ctrl('t')).1, ListAction::TestBrowser);
    let empty = ListState { count: 0, selected: None, screen: Screen::List };
    assert_eq!(list_step(&empty, Key::Down).0.selected, None);
    assert_eq!(list_step(&empty, Key::Enter).1, ListAction::NoSelection);
    let stale = ListState { count: 1, selected: Some(4), screen: Screen::List };
    assert_eq!(list_step(&stale, Key::Enter).1, ListAction::InvalidSelection);
}

#[test]
fn settings_and_help_screens() {
    let s = ListState { count: 0, selected: None, screen: Screen::List };
    let (set, _) = list_step(&s, Key::Char('s'));
    assert_eq!(set.screen, Screen::Settings);
    assert_eq!(list_step(&set, Key::Char('q')).0.screen, Screen::Settings);
    assert_eq!(list_step(&set, Key::Esc).0.screen, Screen::List);
    let (help, _) = list_step(&s, Key::Char('?'));
    assert_eq!(help.screen, Screen::Help);
    assert_eq!(list_step(&help, Key::Char('q')).0.screen, Screen::List);
    assert_eq!(list_step(&help, Key::Char('?')).0.screen, Screen::List);
    assert_eq!(list_step(&help, Key::Char('x')).0.screen, Screen::Help);
}

#[test]
fn deleting_keeps_the_selection_in_the_list() {
    let s = ListState { count: 3, selected: Some(2), screen: Screen::List };
    let t = s.after_delete(2);
    assert_eq!(t.count, 2);
    assert_eq!(t.selected, Some(1));
    let u = ListState { count: 3, selected: Some(0), screen: Screen::List }.after_delete(0);
    assert_eq!(u.selected, Some(0));
    let v = ListState { count: 1, selected: Some(0), screen: Screen::List }.after_delete(0);
    assert_eq!(v.selected, None);
}

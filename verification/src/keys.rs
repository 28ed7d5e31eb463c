//! The key bindings of the interface as step functions. The compose form,
//! the file browser and the message list each take their state and one key
//! and give the next state together with what the interface has to do
//! (send, open a message, save a file, ...), which the interface performs.
use vstd::prelude::*;
use vstd::string::{StrSliceExecFns, StringExecFns};
use crate::text::{text_width, char_width, owned, push_char, str_width, lemma_text_width_append};
use crate::editing::{on_spell_error, on_grammar_error, spell_error_at, grammar_error_at, FileEntry};
use crate::spellcheck::SpellError;
use crate::grammarcheck::GrammarError;

verus! {

/// A key press, with the modifier where it matters.
#[derive(Debug, Clone, Copy, PartialEq, Eq, Structural)]
pub enum Key {
    Char(char),
    Alt(char),
    Ctrl(char),
    Tab,
    BackTab,
    Up,
    Down,
    Left,
    Right,
    Home,
    End,
    Enter,
    Backspace,
    Delete,
    Esc,
}

/// The field of the compose form that has the focus.
#[derive(Debug, Clone, Copy, PartialEq, Eq, Structural)]
pub enum FormField {
    To,
    Subject,
    Body,
}

/// The open list of suggestions for the error under the cursor: which
/// error (by its index), how many suggestions it has, and the chosen one.
#[derive(Debug, Clone, Copy, PartialEq, Eq, Structural)]
pub struct SuggestionList {
    pub grammar: bool,
    pub error: usize,
    pub count: usize,
    pub selected: usize,
}

/// What the interface does after a key in the compose form.
#[derive(Debug, Clone, Copy, PartialEq, Eq, Structural)]
pub enum ComposeAction {
    Nothing,
    /// Leave the form without sending.
    Cancel,
    Send,
    /// Open the file browser to pick an attachment.
    AttachFile,
    /// Drop the attachment at this index.
    RemoveAttachment(usize),
    NoAttachmentSelected,
    /// Spell checking was switched on (`true`) or off.
    SpellToggled(bool),
    /// Grammar checking was switched on (`true`) or off.
    GrammarToggled(bool),
    /// The suggestions of the spelling error at this index are shown.
    ShowSpellSuggestions(usize),
    NoSpellSuggestions,
    /// The replacements of the grammar error at this index are shown.
    ShowGrammarSuggestions(usize),
    NoGrammarSuggestions,
    /// Add the word of the spelling error at this index to the personal
    /// dictionary.
    AddWord(usize),
    NoWordAtCursor,
    /// Replace the spelling error at the first index by its suggestion at
    /// the second.
    ApplySpell(usize, usize),
    /// Replace the grammar error at the first index by its replacement at
    /// the second.
    ApplyGrammar(usize, usize),
    /// The `To` field changed.
    RecipientsChanged,
    /// The subject or the body changed, or the focus moved: check again.
    Recheck,
}

/// The compose form: the three fields, the focus, the cursor (a position
/// in characters within the focused field), the checker switches, the
/// attachments by number and selection, and the open suggestion list.
#[derive(Debug, Clone)]
pub struct ComposeState {
    pub to: String,
    pub subject: String,
    pub body: String,
    pub field: FormField,
    pub cursor: usize,
    pub spell_check: bool,
    pub grammar_check: bool,
    pub attachment_count: usize,
    pub selected_attachment: Option<usize>,
    pub suggestions: Option<SuggestionList>,
}

/// The compose form as values.
#[verifier::ext_equal]
pub struct ComposeView {
    pub to: Seq<char>,
    pub subject: Seq<char>,
    pub body: Seq<char>,
    pub field: FormField,
    pub cursor: nat,
    pub spell_check: bool,
    pub grammar_check: bool,
    pub attachment_count: nat,
    pub selected_attachment: Option<nat>,
    pub suggestions: Option<SuggestionList>,
}

impl View for ComposeState {
    type V = ComposeView;

    open spec fn view(&self) -> ComposeView {
        ComposeView {
            to: self.to@,
            subject: self.subject@,
            body: self.body@,
            field: self.field,
            cursor: self.cursor as nat,
            spell_check: self.spell_check,
            grammar_check: self.grammar_check,
            attachment_count: self.attachment_count as nat,
            selected_attachment: match self.selected_attachment {
                Some(i) => Some(i as nat),
                None => None,
            },
            suggestions: self.suggestions,
        }
    }
}

/// `s` with `c` put before position `k`.
pub open spec fn inserted(s: Seq<char>, k: int, c: char) -> Seq<char> {
    s.take(k) + seq![c] + s.skip(k)
}

/// `s` without the character at position `k`.
pub open spec fn removed(s: Seq<char>, k: int) -> Seq<char> {
    s.take(k) + s.skip(k + 1)
}

/// The start of the line that holds position `k`: just after the last
/// newline before it, or the start of the text.
pub open spec fn line_start(s: Seq<char>, k: int) -> int
    decreases k,
{
    if k <= 0 {
        0
    } else if s[k - 1] == '\n' {
        k
    } else {
        line_start(s, k - 1)
    }
}

/// The end of the line that holds position `k`: the next newline at or
/// after it, or the end of the text.
pub open spec fn line_end(s: Seq<char>, k: int) -> int
    decreases s.len() - k,
{
    if k >= s.len() {
        s.len() as int
    } else if s[k] == '\n' {
        k
    } else {
        line_end(s, k + 1)
    }
}

/// The first spelling error from index `i` on that the cursor at byte
/// `cursor` is on.
pub open spec fn first_spell_on(errors: Seq<SpellError>, cursor: int, i: int) -> Option<int>
    decreases errors.len() - i,
{
    if i < 0 || i >= errors.len() {
        None
    } else if on_spell_error(errors[i], cursor) {
        Some(i)
    } else {
        first_spell_on(errors, cursor, i + 1)
    }
}

/// The first grammar error from index `i` on whose range holds byte `cursor`.
pub open spec fn first_grammar_on(errors: Seq<GrammarError>, cursor: int, i: int) -> Option<int>
    decreases errors.len() - i,
{
    if i < 0 || i >= errors.len() {
        None
    } else if on_grammar_error(errors[i], cursor) {
        Some(i)
    } else {
        first_grammar_on(errors, cursor, i + 1)
    }
}

/// The field after `f` in the cycle To, Subject, Body.
pub open spec fn next_field(f: FormField) -> FormField {
    match f {
        FormField::To => FormField::Subject,
        FormField::Subject => FormField::Body,
        FormField::Body => FormField::To,
    }
}

/// The field before `f` in the cycle To, Subject, Body.
pub open spec fn prev_field(f: FormField) -> FormField {
    match f {
        FormField::To => FormField::Body,
        FormField::Subject => FormField::To,
        FormField::Body => FormField::Subject,
    }
}

impl ComposeView {
    /// The text of the focused field.
    pub open spec fn text(self) -> Seq<char> {
        match self.field {
            FormField::To => self.to,
            FormField::Subject => self.subject,
            FormField::Body => self.body,
        }
    }

    /// The cursor lies within the focused field, and no field is so long
    /// that one more character would not fit in a `usize` count.
    pub open spec fn cursor_ok(self) -> bool {
        &&& self.cursor <= self.text().len()
        &&& self.to.len() < usize::MAX
        &&& self.subject.len() < usize::MAX
        &&& self.body.len() < usize::MAX
    }

    /// The byte offset of the cursor in the UTF-8 text of the focused field.
    pub open spec fn cursor_byte(self) -> nat {
        text_width(self.text().take(self.cursor as int))
    }

    /// The focused field set to `t`, the cursor to `cursor`.
    pub open spec fn edited(self, t: Seq<char>, cursor: nat) -> ComposeView {
        ComposeView {
            to: if self.field == FormField::To { t } else { self.to },
            subject: if self.field == FormField::Subject { t } else { self.subject },
            body: if self.field == FormField::Body { t } else { self.body },
            cursor: cursor,
            ..self
        }
    }

    /// The cursor moved to `cursor`.
    pub open spec fn moved(self, cursor: nat) -> ComposeView {
        ComposeView { cursor: cursor, ..self }
    }

    /// The focus moved to `f`, with the cursor at the end of the `To` and
    /// `Subject` fields and at the start of the body.
    pub open spec fn placed(self, f: FormField) -> ComposeView {
        ComposeView {
            field: f,
            cursor: match f {
                FormField::To => self.to.len(),
                FormField::Subject => self.subject.len(),
                FormField::Body => 0,
            },
            ..self
        }
    }

    /// The suggestion list set to `p`.
    pub open spec fn with_suggestions(self, p: Option<SuggestionList>) -> ComposeView {
        ComposeView { suggestions: p, ..self }
    }
}

/// A character typed into the focused field: inserted at the cursor in
/// `To` and the body, the cursor moving past it; appended to the subject.
pub open spec fn typed(v: ComposeView, c: char) -> (ComposeView, ComposeAction) {
    match v.field {
        FormField::To => (v.edited(inserted(v.to, v.cursor as int, c), v.cursor + 1), ComposeAction::RecipientsChanged),
        FormField::Subject => (v.edited(v.subject.push(c), v.cursor), ComposeAction::Recheck),
        FormField::Body => (v.edited(inserted(v.body, v.cursor as int, c), v.cursor + 1), ComposeAction::Recheck),
    }
}

/// Backspace: deletes the character before the cursor in `To` and the
/// body; drops the last character of the subject, keeping the cursor
/// within it.
pub open spec fn backspaced(v: ComposeView) -> (ComposeView, ComposeAction) {
    match v.field {
        FormField::To => if v.cursor > 0 {
            (v.edited(removed(v.to, v.cursor - 1), (v.cursor - 1) as nat), ComposeAction::RecipientsChanged)
        } else {
            (v, ComposeAction::Nothing)
        },
        FormField::Subject => {
            let t = if v.subject.len() > 0 { v.subject.drop_last() } else { v.subject };
            (v.edited(t, if v.cursor <= t.len() { v.cursor } else { t.len() }), ComposeAction::Recheck)
        },
        FormField::Body => if v.cursor > 0 {
            (v.edited(removed(v.body, v.cursor - 1), (v.cursor - 1) as nat), ComposeAction::Recheck)
        } else {
            (v, ComposeAction::Nothing)
        },
    }
}

/// The arrow, Home and End keys: left and right within `To` and the body,
/// Home and End to the ends of the current line of the body.
pub open spec fn cursor_moved(v: ComposeView, key: Key) -> ComposeView {
    let t = v.text();
    let in_line = v.field == FormField::To || v.field == FormField::Body;
    match key {
        Key::Left => if in_line && v.cursor > 0 { v.moved((v.cursor - 1) as nat) } else { v },
        Key::Right => if in_line && v.cursor < t.len() { v.moved(v.cursor + 1) } else { v },
        Key::Home => if v.field == FormField::Body { v.moved(line_start(t, v.cursor as int) as nat) } else { v },
        Key::End => if v.field == FormField::Body { v.moved(line_end(t, v.cursor as int) as nat) } else { v },
        _ => v,
    }
}

/// Alt+G: opens the suggestions of the spelling error under the cursor,
/// when spell checking is on.
pub open spec fn spell_suggestions(v: ComposeView, spell: Seq<SpellError>) -> (ComposeView, ComposeAction) {
    if !v.spell_check {
        (v, ComposeAction::Nothing)
    } else {
        match first_spell_on(spell, v.cursor_byte() as int, 0) {
            Some(i) => if spell[i].suggestions@.len() > 0 {
                (
                    v.with_suggestions(
                        Some(
                            SuggestionList {
                                grammar: false,
                                error: i as usize,
                                count: spell[i].suggestions@.len() as usize,
                                selected: 0,
                            },
                        ),
                    ),
                    ComposeAction::ShowSpellSuggestions(i as usize),
                )
            } else {
                (v, ComposeAction::NoSpellSuggestions)
            },
            None => (v, ComposeAction::NoSpellSuggestions),
        }
    }
}

/// Alt+T: opens the replacements of the grammar error under the cursor,
/// when grammar checking is on.
pub open spec fn grammar_suggestions(v: ComposeView, grammar: Seq<GrammarError>) -> (ComposeView, ComposeAction) {
    if !v.grammar_check {
        (v, ComposeAction::Nothing)
    } else {
        match first_grammar_on(grammar, v.cursor_byte() as int, 0) {
            Some(i) => if grammar[i].replacements@.len() > 0 {
                (
                    v.with_suggestions(
                        Some(
                            SuggestionList {
                                grammar: true,
                                error: i as usize,
                                count: grammar[i].replacements@.len() as usize,
                                selected: 0,
                            },
                        ),
                    ),
                    ComposeAction::ShowGrammarSuggestions(i as usize),
                )
            } else {
                (v, ComposeAction::NoGrammarSuggestions)
            },
            None => (v, ComposeAction::NoGrammarSuggestions),
        }
    }
}

/// Ctrl+X: removes the selected attachment; the selection stays on the
/// same place, or on the new last one, or none when none is left.
pub open spec fn attachment_removed(v: ComposeView) -> (ComposeView, ComposeAction) {
    match v.selected_attachment {
        Some(i) => if i < v.attachment_count {
            let n = (v.attachment_count - 1) as nat;
            (
                ComposeView {
                    attachment_count: n,
                    selected_attachment: if n == 0 {
                        None
                    } else if i >= n {
                        Some((n - 1) as nat)
                    } else {
                        Some(i)
                    },
                    ..v
                },
                ComposeAction::RemoveAttachment(i as usize),
            )
        } else {
            (v, ComposeAction::Nothing)
        },
        None => (v, ComposeAction::NoAttachmentSelected),
    }
}

/// A key while a suggestion list is open: Up and Down choose, Enter
/// applies the choice and Esc closes the list.
pub open spec fn suggestion_transition(v: ComposeView, p: SuggestionList, key: Key) -> (ComposeView, ComposeAction) {
    match key {
        Key::Esc => (v.with_suggestions(None), ComposeAction::Nothing),
        Key::Up => if p.selected > 0 {
            (v.with_suggestions(Some(SuggestionList { selected: (p.selected - 1) as usize, ..p })), ComposeAction::Nothing)
        } else {
            (v, ComposeAction::Nothing)
        },
        Key::Down => if p.selected + 1 < p.count {
            (v.with_suggestions(Some(SuggestionList { selected: (p.selected + 1) as usize, ..p })), ComposeAction::Nothing)
        } else {
            (v, ComposeAction::Nothing)
        },
        Key::Enter => (
            v.with_suggestions(None),
            if p.grammar {
                ComposeAction::ApplyGrammar(p.error, p.selected)
            } else {
                ComposeAction::ApplySpell(p.error, p.selected)
            },
        ),
        _ => (v, ComposeAction::Nothing),
    }
}

/// A key in the compose form with no suggestion list open.
pub open spec fn form_transition(
    v: ComposeView,
    key: Key,
    spell: Seq<SpellError>,
    grammar: Seq<GrammarError>,
) -> (ComposeView, ComposeAction) {
    match key {
        Key::Alt(c) => if c == 's' {
            (ComposeView { spell_check: !v.spell_check, ..v }, ComposeAction::SpellToggled(!v.spell_check))
        } else if c == 'g' {
            spell_suggestions(v, spell)
        } else if c == 'd' {
            match first_spell_on(spell, v.cursor_byte() as int, 0) {
                Some(i) => (v, ComposeAction::AddWord(i as usize)),
                None => (v, ComposeAction::NoWordAtCursor),
            }
        } else if c == 'r' {
            (ComposeView { grammar_check: !v.grammar_check, ..v }, ComposeAction::GrammarToggled(!v.grammar_check))
        } else if c == 't' {
            grammar_suggestions(v, grammar)
        } else {
            typed(v, c)
        },
        Key::Ctrl(c) => if c == 's' {
            (v, ComposeAction::Send)
        } else if c == 'a' {
            (v, ComposeAction::AttachFile)
        } else if c == 'x' {
            attachment_removed(v)
        } else {
            typed(v, c)
        },
        Key::Char(c) => typed(v, c),
        Key::Esc => (v.placed(FormField::To).moved(0), ComposeAction::Cancel),
        Key::Tab => (v.placed(next_field(v.field)), ComposeAction::Recheck),
        Key::BackTab => (v.placed(prev_field(v.field)), ComposeAction::Recheck),
        Key::Down => (v.placed(next_field(v.field)), ComposeAction::Nothing),
        Key::Up => (v.placed(prev_field(v.field)), ComposeAction::Nothing),
        Key::Backspace => backspaced(v),
        Key::Enter => if v.field == FormField::Body {
            (v.edited(inserted(v.body, v.cursor as int, '\n'), v.cursor + 1), ComposeAction::Nothing)
        } else {
            (v, ComposeAction::Nothing)
        },
        Key::Left | Key::Right | Key::Home | Key::End => (cursor_moved(v, key), ComposeAction::Nothing),
        Key::Delete => (v, ComposeAction::Nothing),
    }
}

/// What one key does to the compose form, given the spelling and grammar
/// errors found in the focused field.
pub open spec fn compose_transition(
    v: ComposeView,
    key: Key,
    spell: Seq<SpellError>,
    grammar: Seq<GrammarError>,
) -> (ComposeView, ComposeAction) {
    match v.suggestions {
        Some(p) => suggestion_transition(v, p, key),
        None => form_transition(v, key, spell, grammar),
    }
}

impl ComposeState {
    /// The cursor lies within the focused field (see `ComposeView::cursor_ok`).
    pub open spec fn cursor_ok(&self) -> bool {
        self@.cursor_ok()
    }
}


/// `s` with `c` put before character position `k`.
fn insert_char_at(s: &str, k: usize, c: char) -> (r: String)
    requires
        k <= s@.len(),
    ensures
        r@ == inserted(s@, k as int, c),
{
    let n = s.unicode_len();
    let mut r = owned(s.substring_char(0, k));
    push_char(&mut r, c);
    r.append(s.substring_char(k, n));
    proof {
        assert(r@ =~= inserted(s@, k as int, c));
    }
    r
}

/// `s` without the character at position `k`.
fn remove_char_at(s: &str, k: usize) -> (r: String)
    requires
        k < s@.len(),
    ensures
        r@ == removed(s@, k as int),
{
    let n = s.unicode_len();
    let mut r = owned(s.substring_char(0, k));
    r.append(s.substring_char(k + 1, n));
    proof {
        assert(r@ =~= removed(s@, k as int));
    }
    r
}

/// The start of the line holding position `k`, computed.
fn line_start_of(s: &str, k: usize) -> (r: usize)
    requires
        k <= s@.len(),
    ensures
        r as int == line_start(s@, k as int),
{
    let mut i = k;
    while i > 0 && s.get_char(i - 1) != '\n'
        invariant
            0 <= i <= k <= s@.len(),
            line_start(s@, i as int) == line_start(s@, k as int),
        decreases i,
    {
        i = i - 1;
    }
    i
}

/// The end of the line holding position `k`, computed.
fn line_end_of(s: &str, k: usize) -> (r: usize)
    requires
        k <= s@.len(),
    ensures
        r as int == line_end(s@, k as int),
{
    let n = s.unicode_len();
    let mut i = k;
    while i < n && s.get_char(i) != '\n'
        invariant
            0 <= k <= i <= n,
            n == s@.len(),
            line_end(s@, i as int) == line_end(s@, k as int),
        decreases n - i,
    {
        i = i + 1;
    }
    i
}

proof fn lemma_first_spell(errors: Seq<SpellError>, cursor: int, i: int, j: int)
    requires
        0 <= i <= j <= errors.len(),
        forall|k: int| i <= k < j ==> !on_spell_error(#[trigger] errors[k], cursor),
        j == errors.len() || on_spell_error(errors[j], cursor),
    ensures
        first_spell_on(errors, cursor, i) == (if j < errors.len() { Some(j) } else { None::<int> }),
    decreases j - i,
{
    if i < j {
        lemma_first_spell(errors, cursor, i + 1, j);
    }
}

proof fn lemma_first_grammar(errors: Seq<GrammarError>, cursor: int, i: int, j: int)
    requires
        0 <= i <= j <= errors.len(),
        forall|k: int| i <= k < j ==> !on_grammar_error(#[trigger] errors[k], cursor),
        j == errors.len() || on_grammar_error(errors[j], cursor),
    ensures
        first_grammar_on(errors, cursor, i) == (if j < errors.len() { Some(j) } else { None::<int> }),
    decreases j - i,
{
    if i < j {
        lemma_first_grammar(errors, cursor, i + 1, j);
    }
}

/// The first spelling error under the cursor byte, as `first_spell_on` says.
fn spell_under(errors: &[SpellError], cursor: usize) -> (r: Option<usize>)
    ensures
        first_spell_on(errors@, cursor as int, 0) == match r {
            Some(i) => Some(i as int),
            None => None::<int>,
        },
        match r {
            Some(i) => i < errors@.len(),
            None => true,
        },
{
    let r = spell_error_at(errors, cursor);
    proof {
        match r {
            Some(i) => lemma_first_spell(errors@, cursor as int, 0, i as int),
            None => lemma_first_spell(errors@, cursor as int, 0, errors@.len() as int),
        }
    }
    r
}

/// The first grammar error under the cursor byte, as `first_grammar_on` says.
fn grammar_under(errors: &[GrammarError], cursor: usize) -> (r: Option<usize>)
    ensures
        first_grammar_on(errors@, cursor as int, 0) == match r {
            Some(i) => Some(i as int),
            None => None::<int>,
        },
        match r {
            Some(i) => i < errors@.len(),
            None => true,
        },
{
    let r = grammar_error_at(errors, cursor);
    proof {
        match r {
            Some(i) => lemma_first_grammar(errors@, cursor as int, 0, i as int),
            None => lemma_first_grammar(errors@, cursor as int, 0, errors@.len() as int),
        }
    }
    r
}

impl ComposeState {
    /// The text of the focused field.
    pub fn text(&self) -> (r: &str)
        ensures
            r@ == self@.text(),
    {
        match self.field {
            FormField::To => self.to.as_str(),
            FormField::Subject => self.subject.as_str(),
            FormField::Body => self.body.as_str(),
        }
    }

    /// The byte offset of the cursor in the focused field, where the
    /// spelling and grammar errors are found.
    pub fn cursor_byte(&self) -> (r: usize)
        requires
            self.cursor_ok(),
        ensures
            r == self@.cursor_byte(),
    {
        let t = self.text();
        let head = t.substring_char(0, self.cursor);
        proof {
            assert(head@ =~= self@.text().take(self.cursor as int));
        }
        str_width(head)
    }

    /// A copy of the form.
    fn copied(&self) -> (r: ComposeState)
        ensures
            r@ == self@,
    {
        let r = ComposeState {
            to: owned(self.to.as_str()),
            subject: owned(self.subject.as_str()),
            body: owned(self.body.as_str()),
            field: self.field,
            cursor: self.cursor,
            spell_check: self.spell_check,
            grammar_check: self.grammar_check,
            attachment_count: self.attachment_count,
            selected_attachment: self.selected_attachment,
            suggestions: self.suggestions,
        };
        proof {
            assert(r@ =~= self@);
        }
        r
    }

    /// The focused field set to `t` and the cursor to `cursor`.
    fn with_edit(&self, t: String, cursor: usize) -> (r: ComposeState)
        ensures
            r@ == self@.edited(t@, cursor as nat),
    {
        let mut r = self.copied();
        match self.field {
            FormField::To => r.to = t,
            FormField::Subject => r.subject = t,
            FormField::Body => r.body = t,
        }
        r.cursor = cursor;
        proof {
            assert(r@ =~= self@.edited(t@, cursor as nat));
        }
        r
    }

    /// The cursor set to `cursor`.
    fn with_cursor(&self, cursor: usize) -> (r: ComposeState)
        ensures
            r@ == self@.moved(cursor as nat),
    {
        let mut r = self.copied();
        r.cursor = cursor;
        proof {
            assert(r@ =~= self@.moved(cursor as nat));
        }
        r
    }

    /// The focus moved to `f`, the cursor placed as `ComposeView::placed` says.
    fn with_focus(&self, f: FormField) -> (r: ComposeState)
        requires
            self.cursor_ok(),
        ensures
            r@ == self@.placed(f),
    {
        let mut r = self.copied();
        r.field = f;
        r.cursor = match f {
            FormField::To => self.to.unicode_len(),
            FormField::Subject => self.subject.unicode_len(),
            FormField::Body => 0,
        };
        proof {
            assert(r@ =~= self@.placed(f));
        }
        r
    }

    /// The suggestion list set to `p`.
    fn with_list(&self, p: Option<SuggestionList>) -> (r: ComposeState)
        ensures
            r@ == self@.with_suggestions(p),
    {
        let mut r = self.copied();
        r.suggestions = p;
        proof {
            assert(r@ =~= self@.with_suggestions(p));
        }
        r
    }
}

fn typed_step(s: &ComposeState, c: char) -> (r: (ComposeState, ComposeAction))
    requires
        s.cursor_ok(),
    ensures
        r.0@ == typed(s@, c).0,
        r.1 == typed(s@, c).1,
{
    match s.field {
        FormField::To => {
            let t = insert_char_at(s.to.as_str(), s.cursor, c);
            (s.with_edit(t, s.cursor + 1), ComposeAction::RecipientsChanged)
        },
        FormField::Subject => {
            let mut t = owned(s.subject.as_str());
            push_char(&mut t, c);
            (s.with_edit(t, s.cursor), ComposeAction::Recheck)
        },
        FormField::Body => {
            let t = insert_char_at(s.body.as_str(), s.cursor, c);
            (s.with_edit(t, s.cursor + 1), ComposeAction::Recheck)
        },
    }
}

fn backspace_step(s: &ComposeState) -> (r: (ComposeState, ComposeAction))
    requires
        s.cursor_ok(),
    ensures
        r.0@ == backspaced(s@).0,
        r.1 == backspaced(s@).1,
{
    match s.field {
        FormField::To => if s.cursor > 0 {
            let t = remove_char_at(s.to.as_str(), s.cursor - 1);
            (s.with_edit(t, s.cursor - 1), ComposeAction::RecipientsChanged)
        } else {
            (s.copied(), ComposeAction::Nothing)
        },
        FormField::Subject => {
            let n = s.subject.unicode_len();
            let t = if n > 0 {
                owned(s.subject.as_str().substring_char(0, n - 1))
            } else {
                owned(s.subject.as_str())
            };
            proof {
                if n > 0 {
                    assert(t@ =~= s@.subject.drop_last());
                }
            }
            let m = t.unicode_len();
            let cursor = if s.cursor <= m { s.cursor } else { m };
            (s.with_edit(t, cursor), ComposeAction::Recheck)
        },
        FormField::Body => if s.cursor > 0 {
            let t = remove_char_at(s.body.as_str(), s.cursor - 1);
            (s.with_edit(t, s.cursor - 1), ComposeAction::Recheck)
        } else {
            (s.copied(), ComposeAction::Nothing)
        },
    }
}

fn move_step(s: &ComposeState, key: Key) -> (r: ComposeState)
    requires
        s.cursor_ok(),
    ensures
        r@ == cursor_moved(s@, key),
{
    let t = s.text();
    let in_line = match s.field {
        FormField::Subject => false,
        _ => true,
    };
    let is_body = match s.field {
        FormField::Body => true,
        _ => false,
    };
    match key {
        Key::Left => if in_line && s.cursor > 0 {
            s.with_cursor(s.cursor - 1)
        } else {
            s.copied()
        },
        Key::Right => if in_line && s.cursor < t.unicode_len() {
            s.with_cursor(s.cursor + 1)
        } else {
            s.copied()
        },
        Key::Home => if is_body {
            s.with_cursor(line_start_of(t, s.cursor))
        } else {
            s.copied()
        },
        Key::End => if is_body {
            s.with_cursor(line_end_of(t, s.cursor))
        } else {
            s.copied()
        },
        _ => s.copied(),
    }
}

fn spell_list_step(s: &ComposeState, spell: &[SpellError]) -> (r: (ComposeState, ComposeAction))
    requires
        s.cursor_ok(),
    ensures
        r.0@ == spell_suggestions(s@, spell@).0,
        r.1 == spell_suggestions(s@, spell@).1,
{
    if !s.spell_check {
        return (s.copied(), ComposeAction::Nothing);
    }
    match spell_under(spell, s.cursor_byte()) {
        Some(i) => {
            let n = spell[i].suggestions.len();
            if n > 0 {
                let p = SuggestionList { grammar: false, error: i, count: n, selected: 0 };
                (s.with_list(Some(p)), ComposeAction::ShowSpellSuggestions(i))
            } else {
                (s.copied(), ComposeAction::NoSpellSuggestions)
            }
        },
        None => (s.copied(), ComposeAction::NoSpellSuggestions),
    }
}

fn grammar_list_step(s: &ComposeState, grammar: &[GrammarError]) -> (r: (ComposeState, ComposeAction))
    requires
        s.cursor_ok(),
    ensures
        r.0@ == grammar_suggestions(s@, grammar@).0,
        r.1 == grammar_suggestions(s@, grammar@).1,
{
    if !s.grammar_check {
        return (s.copied(), ComposeAction::Nothing);
    }
    match grammar_under(grammar, s.cursor_byte()) {
        Some(i) => {
            let n = grammar[i].replacements.len();
            if n > 0 {
                let p = SuggestionList { grammar: true, error: i, count: n, selected: 0 };
                (s.with_list(Some(p)), ComposeAction::ShowGrammarSuggestions(i))
            } else {
                (s.copied(), ComposeAction::NoGrammarSuggestions)
            }
        },
        None => (s.copied(), ComposeAction::NoGrammarSuggestions),
    }
}

fn remove_attachment_step(s: &ComposeState) -> (r: (ComposeState, ComposeAction))
    ensures
        r.0@ == attachment_removed(s@).0,
        r.1 == attachment_removed(s@).1,
{
    match s.selected_attachment {
        Some(i) => if i < s.attachment_count {
            let n = s.attachment_count - 1;
            let mut r = s.copied();
            r.attachment_count = n;
            r.selected_attachment = if n == 0 {
                None
            } else if i >= n {
                Some(n - 1)
            } else {
                Some(i)
            };
            proof {
                assert(r@ =~= attachment_removed(s@).0);
            }
            (r, ComposeAction::RemoveAttachment(i))
        } else {
            (s.copied(), ComposeAction::Nothing)
        },
        None => (s.copied(), ComposeAction::NoAttachmentSelected),
    }
}

fn suggestion_step(s: &ComposeState, p: SuggestionList, key: Key) -> (r: (ComposeState, ComposeAction))
    ensures
        r.0@ == suggestion_transition(s@, p, key).0,
        r.1 == suggestion_transition(s@, p, key).1,
{
    match key {
        Key::Esc => (s.with_list(None), ComposeAction::Nothing),
        Key::Up => if p.selected > 0 {
            (s.with_list(Some(SuggestionList { selected: p.selected - 1, ..p })), ComposeAction::Nothing)
        } else {
            (s.copied(), ComposeAction::Nothing)
        },
        Key::Down => if p.count > 0 && p.selected < p.count - 1 {
            (s.with_list(Some(SuggestionList { selected: p.selected + 1, ..p })), ComposeAction::Nothing)
        } else {
            (s.copied(), ComposeAction::Nothing)
        },
        Key::Enter => {
            let a = if p.grammar {
                ComposeAction::ApplyGrammar(p.error, p.selected)
            } else {
                ComposeAction::ApplySpell(p.error, p.selected)
            };
            (s.with_list(None), a)
        },
        _ => (s.copied(), ComposeAction::Nothing),
    }
}

fn form_step(s: &ComposeState, key: Key, spell: &[SpellError], grammar: &[GrammarError]) -> (r: (ComposeState, ComposeAction))
    requires
        s.cursor_ok(),
    ensures
        r.0@ == form_transition(s@, key, spell@, grammar@).0,
        r.1 == form_transition(s@, key, spell@, grammar@).1,
{
    match key {
        Key::Alt(c) => if c == 's' {
            let mut r = s.copied();
            r.spell_check = !s.spell_check;
            proof {
                assert(r@ =~= form_transition(s@, key, spell@, grammar@).0);
            }
            (r, ComposeAction::SpellToggled(!s.spell_check))
        } else if c == 'g' {
            spell_list_step(s, spell)
        } else if c == 'd' {
            match spell_under(spell, s.cursor_byte()) {
                Some(i) => (s.copied(), ComposeAction::AddWord(i)),
                None => (s.copied(), ComposeAction::NoWordAtCursor),
            }
        } else if c == 'r' {
            let mut r = s.copied();
            r.grammar_check = !s.grammar_check;
            proof {
                assert(r@ =~= form_transition(s@, key, spell@, grammar@).0);
            }
            (r, ComposeAction::GrammarToggled(!s.grammar_check))
        } else if c == 't' {
            grammar_list_step(s, grammar)
        } else {
            typed_step(s, c)
        },
        Key::Ctrl(c) => if c == 's' {
            (s.copied(), ComposeAction::Send)
        } else if c == 'a' {
            (s.copied(), ComposeAction::AttachFile)
        } else if c == 'x' {
            remove_attachment_step(s)
        } else {
            typed_step(s, c)
        },
        Key::Char(c) => typed_step(s, c),
        Key::Esc => {
            let r = s.with_focus(FormField::To).with_cursor(0);
            (r, ComposeAction::Cancel)
        },
        Key::Tab => (s.with_focus(next_field_of(s.field)), ComposeAction::Recheck),
        Key::BackTab => (s.with_focus(prev_field_of(s.field)), ComposeAction::Recheck),
        Key::Down => (s.with_focus(next_field_of(s.field)), ComposeAction::Nothing),
        Key::Up => (s.with_focus(prev_field_of(s.field)), ComposeAction::Nothing),
        Key::Backspace => backspace_step(s),
        Key::Enter => match s.field {
            FormField::Body => {
                let t = insert_char_at(s.body.as_str(), s.cursor, '\n');
                (s.with_edit(t, s.cursor + 1), ComposeAction::Nothing)
            },
            _ => (s.copied(), ComposeAction::Nothing),
        },
        Key::Left | Key::Right | Key::Home | Key::End => (move_step(s, key), ComposeAction::Nothing),
        Key::Delete => (s.copied(), ComposeAction::Nothing),
    }
}

/// The field after `f`, computed.
pub fn next_field_of(f: FormField) -> (r: FormField)
    ensures
        r == next_field(f),
{
    match f {
        FormField::To => FormField::Subject,
        FormField::Subject => FormField::Body,
        FormField::Body => FormField::To,
    }
}

/// The field before `f`, computed.
pub fn prev_field_of(f: FormField) -> (r: FormField)
    ensures
        r == prev_field(f),
{
    match f {
        FormField::To => FormField::Body,
        FormField::Subject => FormField::To,
        FormField::Body => FormField::Subject,
    }
}

/// One key in the compose form: the next form and what the interface
/// does, as `compose_transition` says, given the spelling and grammar
/// errors found in the focused field.
pub fn compose_step(
    s: &ComposeState,
    key: Key,
    spell_errors: &[SpellError],
    grammar_errors: &[GrammarError],
) -> (r: (ComposeState, ComposeAction))
    requires
        s.cursor_ok(),
    ensures
        r.0@ == compose_transition(s@, key, spell_errors@, grammar_errors@).0,
        r.1 == compose_transition(s@, key, spell_errors@, grammar_errors@).1,
{
    match s.suggestions {
        Some(p) => suggestion_step(s, p, key),
        None => form_step(s, key, spell_errors, grammar_errors),
    }
}


proof fn lemma_line_start_bounds(s: Seq<char>, k: int)
    requires
        0 <= k,
    ensures
        0 <= line_start(s, k) <= k,
    decreases k,
{
    if k > 0 {
        lemma_line_start_bounds(s, k - 1);
    }
}

proof fn lemma_line_end_bounds(s: Seq<char>, k: int)
    requires
        0 <= k <= s.len(),
    ensures
        k <= line_end(s, k) <= s.len(),
    decreases s.len() - k,
{
    if k < s.len() {
        lemma_line_end_bounds(s, k + 1);
    }
}

/// Every key keeps the cursor within the focused field, as long as the
/// fields have room for one more character.
pub proof fn law_compose_keeps_cursor_ok(
    v: ComposeView,
    key: Key,
    spell: Seq<SpellError>,
    grammar: Seq<GrammarError>,
)
    requires
        v.cursor_ok(),
        v.to.len() + 1 < usize::MAX,
        v.subject.len() + 1 < usize::MAX,
        v.body.len() + 1 < usize::MAX,
    ensures
        compose_transition(v, key, spell, grammar).0.cursor_ok(),
{
    let r = compose_transition(v, key, spell, grammar);
    match v.suggestions {
        Some(p) => {},
        None => {
            match key {
                Key::Alt(c) => {
                    lemma_typed_keeps_cursor_ok(v, c);
                    if c == 'g' {
                        assert(r.0.cursor_ok());
                    }
                    if c == 't' {
                        assert(r.0.cursor_ok());
                    }
                },
                Key::Ctrl(c) => lemma_typed_keeps_cursor_ok(v, c),
                Key::Char(c) => lemma_typed_keeps_cursor_ok(v, c),
                Key::Backspace => lemma_backspaced_keeps_cursor_ok(v),
                Key::Left | Key::Right | Key::Home | Key::End => {
                    lemma_line_start_bounds(v.text(), v.cursor as int);
                    lemma_line_end_bounds(v.text(), v.cursor as int);
                },
                _ => {},
            }
        },
    }
}

proof fn lemma_typed_keeps_cursor_ok(v: ComposeView, c: char)
    requires
        v.cursor_ok(),
        v.to.len() + 1 < usize::MAX,
        v.subject.len() + 1 < usize::MAX,
        v.body.len() + 1 < usize::MAX,
    ensures
        typed(v, c).0.cursor_ok(),
{
}

proof fn lemma_backspaced_keeps_cursor_ok(v: ComposeView)
    requires
        v.cursor_ok(),
    ensures
        backspaced(v).0.cursor_ok(),
{
}

/// Typing a character into `To` or the body puts it at the cursor, and
/// moves the cursor's byte offset on by the character's UTF-8 width.
pub proof fn law_typing_inserts_at_cursor(v: ComposeView, c: char, spell: Seq<SpellError>, grammar: Seq<GrammarError>)
    requires
        v.cursor_ok(),
        v.suggestions is None,
        v.field == FormField::To || v.field == FormField::Body,
    ensures
        ({
            let w = compose_transition(v, Key::Char(c), spell, grammar).0;
            &&& w.text() == inserted(v.text(), v.cursor as int, c)
            &&& w.cursor == v.cursor + 1
            &&& w.cursor_byte() == v.cursor_byte() + char_width(c)
        }),
{
    let w = compose_transition(v, Key::Char(c), spell, grammar).0;
    let t = v.text();
    assert(w.text() == inserted(t, v.cursor as int, c));
    assert(w.text().take(w.cursor as int) =~= t.take(v.cursor as int) + seq![c]);
    lemma_text_width_append(t.take(v.cursor as int), seq![c]);
    assert(seq![c].drop_last() =~= Seq::<char>::empty());
    assert(seq![c].last() == c);
    assert(text_width(seq![c]) == char_width(c)) by {
        reveal_with_fuel(text_width, 2);
    }
}

/// Backspace right after typing a character into `To` or the body gives
/// the form back as it was.
pub proof fn law_backspace_undoes_typing(v: ComposeView, c: char, spell: Seq<SpellError>, grammar: Seq<GrammarError>)
    requires
        v.cursor_ok(),
        v.suggestions is None,
        v.field == FormField::To || v.field == FormField::Body,
    ensures
        compose_transition(
            compose_transition(v, Key::Char(c), spell, grammar).0,
            Key::Backspace,
            spell,
            grammar,
        ).0 == v,
{
    let w = compose_transition(v, Key::Char(c), spell, grammar).0;
    let u = compose_transition(w, Key::Backspace, spell, grammar).0;
    assert(removed(inserted(v.text(), v.cursor as int, c), v.cursor as int) =~= v.text());
    assert(u =~= v);
}


/// The character a key types, with or without a modifier.
pub open spec fn typed_char(key: Key) -> Option<char> {
    match key {
        Key::Char(c) => Some(c),
        Key::Alt(c) => Some(c),
        Key::Ctrl(c) => Some(c),
        _ => None,
    }
}

/// The character a key types, computed.
pub fn key_char(key: Key) -> (r: Option<char>)
    ensures
        r == typed_char(key),
{
    match key {
        Key::Char(c) => Some(c),
        Key::Alt(c) => Some(c),
        Key::Ctrl(c) => Some(c),
        _ => None,
    }
}

/// The file browser: the selected entry, whether it saves an attachment
/// (or picks one to attach), whether the file name is being edited, the
/// file name to save under, and whether the directory has a parent.
#[derive(Debug, Clone)]
pub struct BrowserState {
    pub selected: usize,
    pub save_mode: bool,
    pub editing_name: bool,
    pub filename: String,
    pub has_parent: bool,
}

/// The file browser as values.
#[verifier::ext_equal]
pub struct BrowserView {
    pub selected: nat,
    pub save_mode: bool,
    pub editing_name: bool,
    pub filename: Seq<char>,
    pub has_parent: bool,
}

impl View for BrowserState {
    type V = BrowserView;

    open spec fn view(&self) -> BrowserView {
        BrowserView {
            selected: self.selected as nat,
            save_mode: self.save_mode,
            editing_name: self.editing_name,
            filename: self.filename@,
            has_parent: self.has_parent,
        }
    }
}

/// What the interface does after a key in the file browser. `Cancelled`,
/// `Attach`, `SaveHere` and `QuickSave` close it.
#[derive(Debug, Clone, Copy, PartialEq, Eq, Structural)]
pub enum BrowserAction {
    Nothing,
    Cancelled,
    EnterDirectory(usize),
    Parent,
    Attach(usize),
    EditingName,
    SaveHere,
    QuickSave,
}

/// A key while the file name is edited: Enter saves under it in the
/// current directory, Esc stops editing, Backspace and characters edit it.
pub open spec fn name_transition(b: BrowserView, key: Key) -> (BrowserView, BrowserAction) {
    match key {
        Key::Enter => (BrowserView { editing_name: false, save_mode: false, ..b }, BrowserAction::SaveHere),
        Key::Esc => (BrowserView { editing_name: false, ..b }, BrowserAction::Nothing),
        Key::Backspace => (
            BrowserView {
                filename: if b.filename.len() > 0 { b.filename.drop_last() } else { b.filename },
                ..b
            },
            BrowserAction::Nothing,
        ),
        _ => match typed_char(key) {
            Some(c) => (BrowserView { filename: b.filename.push(c), ..b }, BrowserAction::Nothing),
            None => (b, BrowserAction::Nothing),
        },
    }
}

/// Enter on the listing: into the selected directory; on a file, its name
/// to edit when saving, or the file attached; with nothing selected, the
/// file name to edit when saving.
pub open spec fn browser_enter(b: BrowserView, entries: Seq<FileEntry>) -> (BrowserView, BrowserAction) {
    if b.selected < entries.len() {
        let e = entries[b.selected as int];
        if e.is_directory {
            (BrowserView { selected: 0, ..b }, BrowserAction::EnterDirectory(b.selected as usize))
        } else if b.save_mode {
            (BrowserView { filename: e.name@, editing_name: true, ..b }, BrowserAction::EditingName)
        } else {
            (b, BrowserAction::Attach(b.selected as usize))
        }
    } else if b.save_mode {
        (BrowserView { editing_name: true, ..b }, BrowserAction::EditingName)
    } else {
        (b, BrowserAction::Nothing)
    }
}

/// A key on the listing of `entries`.
pub open spec fn listing_transition(b: BrowserView, key: Key, entries: Seq<FileEntry>) -> (BrowserView, BrowserAction) {
    match key {
        Key::Esc => (BrowserView { editing_name: false, ..b }, BrowserAction::Cancelled),
        Key::Up => (BrowserView { selected: if b.selected > 0 { (b.selected - 1) as nat } else { b.selected }, ..b }, BrowserAction::Nothing),
        Key::Down => (
            BrowserView { selected: if b.selected + 1 < entries.len() { b.selected + 1 } else { b.selected }, ..b },
            BrowserAction::Nothing,
        ),
        Key::Enter => browser_enter(b, entries),
        Key::Backspace => if b.has_parent {
            (BrowserView { selected: 0, ..b }, BrowserAction::Parent)
        } else {
            (b, BrowserAction::Nothing)
        },
        _ => match typed_char(key) {
            Some(c) => if b.save_mode && c == 'q' {
                (BrowserView { editing_name: false, save_mode: false, ..b }, BrowserAction::QuickSave)
            } else if b.save_mode && c == 'f' {
                (BrowserView { editing_name: true, ..b }, BrowserAction::EditingName)
            } else if b.save_mode && c == 's' {
                (BrowserView { editing_name: false, save_mode: false, ..b }, BrowserAction::SaveHere)
            } else {
                (b, BrowserAction::Nothing)
            },
            None => (b, BrowserAction::Nothing),
        },
    }
}

/// What one key does to the file browser showing `entries`.
pub open spec fn browser_transition(b: BrowserView, key: Key, entries: Seq<FileEntry>) -> (BrowserView, BrowserAction) {
    if b.editing_name {
        name_transition(b, key)
    } else {
        listing_transition(b, key, entries)
    }
}

impl BrowserState {
    fn copied(&self) -> (r: BrowserState)
        ensures
            r@ == self@,
    {
        let r = BrowserState {
            selected: self.selected,
            save_mode: self.save_mode,
            editing_name: self.editing_name,
            filename: owned(self.filename.as_str()),
            has_parent: self.has_parent,
        };
        proof {
            assert(r@ =~= self@);
        }
        r
    }
}

fn name_step(b: &BrowserState, key: Key) -> (r: (BrowserState, BrowserAction))
    ensures
        r.0@ == name_transition(b@, key).0,
        r.1 == name_transition(b@, key).1,
{
    let mut r = b.copied();
    let a = match key {
        Key::Enter => {
            r.editing_name = false;
            r.save_mode = false;
            BrowserAction::SaveHere
        },
        Key::Esc => {
            r.editing_name = false;
            BrowserAction::Nothing
        },
        Key::Backspace => {
            let n = b.filename.unicode_len();
            if n > 0 {
                r.filename = owned(b.filename.as_str().substring_char(0, n - 1));
                proof {
                    assert(r.filename@ =~= b.filename@.drop_last());
                }
            }
            BrowserAction::Nothing
        },
        _ => {
            match key_char(key) {
                Some(c) => push_char(&mut r.filename, c),
                None => {},
            }
            BrowserAction::Nothing
        },
    };
    proof {
        assert(r@ =~= name_transition(b@, key).0);
    }
    (r, a)
}

fn listing_step(b: &BrowserState, key: Key, entries: &[FileEntry]) -> (r: (BrowserState, BrowserAction))
    ensures
        r.0@ == listing_transition(b@, key, entries@).0,
        r.1 == listing_transition(b@, key, entries@).1,
{
    let mut r = b.copied();
    let a = match key {
        Key::Esc => {
            r.editing_name = false;
            BrowserAction::Cancelled
        },
        Key::Up => {
            if b.selected > 0 {
                r.selected = b.selected - 1;
            }
            BrowserAction::Nothing
        },
        Key::Down => {
            if entries.len() > 0 && b.selected < entries.len() - 1 {
                r.selected = b.selected + 1;
            }
            BrowserAction::Nothing
        },
        Key::Enter => {
            if b.selected < entries.len() {
                if entries[b.selected].is_directory {
                    r.selected = 0;
                    BrowserAction::EnterDirectory(b.selected)
                } else if b.save_mode {
                    r.filename = owned(entries[b.selected].name.as_str());
                    r.editing_name = true;
                    BrowserAction::EditingName
                } else {
                    BrowserAction::Attach(b.selected)
                }
            } else if b.save_mode {
                r.editing_name = true;
                BrowserAction::EditingName
            } else {
                BrowserAction::Nothing
            }
        },
        Key::Backspace => {
            if b.has_parent {
                r.selected = 0;
                BrowserAction::Parent
            } else {
                BrowserAction::Nothing
            }
        },
        _ => match key_char(key) {
            Some(c) => if b.save_mode && c == 'q' {
                r.editing_name = false;
                r.save_mode = false;
                BrowserAction::QuickSave
            } else if b.save_mode && c == 'f' {
                r.editing_name = true;
                BrowserAction::EditingName
            } else if b.save_mode && c == 's' {
                r.editing_name = false;
                r.save_mode = false;
                BrowserAction::SaveHere
            } else {
                BrowserAction::Nothing
            },
            None => BrowserAction::Nothing,
        },
    };
    proof {
        assert(r@ =~= listing_transition(b@, key, entries@).0);
    }
    (r, a)
}

/// One key in the file browser showing `entries`: the next browser state
/// and what the interface does, as `browser_transition` says.
pub fn browser_step(b: &BrowserState, key: Key, entries: &[FileEntry]) -> (r: (BrowserState, BrowserAction))
    ensures
        r.0@ == browser_transition(b@, key, entries@).0,
        r.1 == browser_transition(b@, key, entries@).1,
{
    if b.editing_name {
        name_step(b, key)
    } else {
        listing_step(b, key, entries)
    }
}

/// A selection that was on an entry stays on one, whatever the key.
pub proof fn law_browser_selection_in_range(b: BrowserView, key: Key, entries: Seq<FileEntry>)
    requires
        b.selected < entries.len(),
    ensures
        browser_transition(b, key, entries).0.selected < entries.len(),
{
}

/// The screen under the message list: the list itself, the account
/// settings or the help.
#[derive(Debug, Clone, Copy, PartialEq, Eq, Structural)]
pub enum Screen {
    List,
    Settings,
    Help,
}

/// The message list: how many messages it shows, the selected one, and
/// the screen shown.
#[derive(Debug, Clone, Copy, PartialEq, Eq, Structural)]
pub struct ListState {
    pub count: usize,
    pub selected: Option<usize>,
    pub screen: Screen,
}

/// What the interface does after a key on the message list.
#[derive(Debug, Clone, Copy, PartialEq, Eq, Structural)]
pub enum ListAction {
    Nothing,
    Quit,
    TestBrowser,
    Compose,
    Refresh,
    FolderList,
    NextAccount,
    Open(usize),
    Delete(usize),
    InvalidSelection,
    NoSelection,
}

/// The selection after Down: the next message, the first when none is
/// selected, none when the list is empty.
pub open spec fn selected_next(s: ListState) -> Option<usize> {
    if s.count == 0 {
        None
    } else {
        match s.selected {
            Some(i) => if i + 1 < s.count { Some((i + 1) as usize) } else { Some(i) },
            None => Some(0),
        }
    }
}

/// The selection after Up: the previous message, the first when none is
/// selected, none when the list is empty.
pub open spec fn selected_prev(s: ListState) -> Option<usize> {
    if s.count == 0 {
        None
    } else {
        match s.selected {
            Some(i) => if i > 0 { Some((i - 1) as usize) } else { Some(i) },
            None => Some(0),
        }
    }
}

/// The action on the selected message (open it, or delete it) when it is
/// in the list, else which selection is wrong.
pub open spec fn on_selected(s: ListState, open: bool) -> ListAction {
    match s.selected {
        Some(i) => if i < s.count {
            if open {
                ListAction::Open(i)
            } else {
                ListAction::Delete(i)
            }
        } else {
            ListAction::InvalidSelection
        },
        None => ListAction::NoSelection,
    }
}

/// What one key does on the message list and the screens under it.
pub open spec fn list_transition(s: ListState, key: Key) -> (ListState, ListAction) {
    match s.screen {
        Screen::Settings => if key == Key::Esc {
            (ListState { screen: Screen::List, ..s }, ListAction::Nothing)
        } else {
            (s, ListAction::Nothing)
        },
        Screen::Help => if key == Key::Esc || typed_char(key) == Some('q') || typed_char(key) == Some('?') {
            (ListState { screen: Screen::List, ..s }, ListAction::Nothing)
        } else {
            (s, ListAction::Nothing)
        },
        Screen::List => match key {
            Key::Up => (ListState { selected: selected_prev(s), ..s }, ListAction::Nothing),
            Key::Down => (ListState { selected: selected_next(s), ..s }, ListAction::Nothing),
            Key::Enter => (s, on_selected(s, true)),
            Key::Delete => (s, on_selected(s, false)),
            Key::Ctrl(c) => if c == 't' {
                (s, ListAction::TestBrowser)
            } else {
                list_char(s, c)
            },
            Key::Char(c) => list_char(s, c),
            Key::Alt(c) => list_char(s, c),
            _ => (s, ListAction::Nothing),
        },
    }
}

/// A character key on the message list.
pub open spec fn list_char(s: ListState, c: char) -> (ListState, ListAction) {
    if c == 'q' {
        (s, ListAction::Quit)
    } else if c == 'c' {
        (s, ListAction::Compose)
    } else if c == 'r' {
        (s, ListAction::Refresh)
    } else if c == 'f' {
        (s, ListAction::FolderList)
    } else if c == 's' {
        (ListState { screen: Screen::Settings, ..s }, ListAction::Nothing)
    } else if c == '?' {
        (ListState { screen: Screen::Help, ..s }, ListAction::Nothing)
    } else if c == 'n' {
        (s, ListAction::NextAccount)
    } else {
        (s, ListAction::Nothing)
    }
}

fn list_char_step(s: &ListState, c: char) -> (r: (ListState, ListAction))
    ensures
        r == list_char(*s, c),
{
    if c == 'q' {
        (*s, ListAction::Quit)
    } else if c == 'c' {
        (*s, ListAction::Compose)
    } else if c == 'r' {
        (*s, ListAction::Refresh)
    } else if c == 'f' {
        (*s, ListAction::FolderList)
    } else if c == 's' {
        (ListState { screen: Screen::Settings, ..*s }, ListAction::Nothing)
    } else if c == '?' {
        (ListState { screen: Screen::Help, ..*s }, ListAction::Nothing)
    } else if c == 'n' {
        (*s, ListAction::NextAccount)
    } else {
        (*s, ListAction::Nothing)
    }
}

fn on_selected_of(s: &ListState, open: bool) -> (r: ListAction)
    ensures
        r == on_selected(*s, open),
{
    match s.selected {
        Some(i) => if i < s.count {
            if open {
                ListAction::Open(i)
            } else {
                ListAction::Delete(i)
            }
        } else {
            ListAction::InvalidSelection
        },
        None => ListAction::NoSelection,
    }
}

/// One key on the message list: the next state and what the interface
/// does, as `list_transition` says.
pub fn list_step(s: &ListState, key: Key) -> (r: (ListState, ListAction))
    ensures
        r == list_transition(*s, key),
{
    match s.screen {
        Screen::Settings => match key {
            Key::Esc => (ListState { screen: Screen::List, ..*s }, ListAction::Nothing),
            _ => (*s, ListAction::Nothing),
        },
        Screen::Help => {
            let back = match key {
                Key::Esc => true,
                _ => match key_char(key) {
                    Some(c) => c == 'q' || c == '?',
                    None => false,
                },
            };
            if back {
                (ListState { screen: Screen::List, ..*s }, ListAction::Nothing)
            } else {
                (*s, ListAction::Nothing)
            }
        },
        Screen::List => match key {
            Key::Up => {
                let sel = if s.count == 0 {
                    None
                } else {
                    match s.selected {
                        Some(i) => if i > 0 { Some(i - 1) } else { Some(i) },
                        None => Some(0),
                    }
                };
                (ListState { selected: sel, ..*s }, ListAction::Nothing)
            },
            Key::Down => {
                let sel = if s.count == 0 {
                    None
                } else {
                    match s.selected {
                        Some(i) => if i < s.count - 1 { Some(i + 1) } else { Some(i) },
                        None => Some(0),
                    }
                };
                (ListState { selected: sel, ..*s }, ListAction::Nothing)
            },
            Key::Enter => (*s, on_selected_of(s, true)),
            Key::Delete => (*s, on_selected_of(s, false)),
            Key::Ctrl(c) => if c == 't' {
                (*s, ListAction::TestBrowser)
            } else {
                list_char_step(s, c)
            },
            Key::Char(c) => list_char_step(s, c),
            Key::Alt(c) => list_char_step(s, c),
            _ => (*s, ListAction::Nothing),
        },
    }
}

/// The list after the message at `idx` was deleted: one message less, the
/// selection on the same place, or on the new last message, or none when
/// the list is empty.
pub open spec fn deleted_from(s: ListState, idx: usize) -> ListState {
    let n = (s.count - 1) as usize;
    ListState {
        count: n,
        selected: if n == 0 {
            None
        } else if idx >= n {
            Some((n - 1) as usize)
        } else {
            s.selected
        },
        ..s
    }
}

impl ListState {
    /// The selection lies in the list, or there is none.
    pub open spec fn selection_ok(&self) -> bool {
        match self.selected {
            Some(i) => i < self.count,
            None => true,
        }
    }

    /// The list after the message at `idx` was deleted.
    pub fn after_delete(&self, idx: usize) -> (r: ListState)
        requires
            idx < self.count,
        ensures
            r == deleted_from(*self, idx),
    {
        let n = self.count - 1;
        let selected = if n == 0 {
            None
        } else if idx >= n {
            Some(n - 1)
        } else {
            self.selected
        };
        ListState { count: n, selected, screen: self.screen }
    }
}

/// A selection within the list stays within it, whatever the key, and
/// after a deletion of the selected message.
pub proof fn law_list_selection_in_range(s: ListState, key: Key, idx: usize)
    requires
        s.selection_ok(),
    ensures
        list_transition(s, key).0.selection_ok(),
        s.selected == Some(idx) && idx < s.count ==> deleted_from(s, idx).selection_ok(),
{
}

} // verus!

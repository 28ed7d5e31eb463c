//! Spell checking for e-mail composition: word extraction with byte
//! positions, dictionary lookup, and spelling suggestions.
use vstd::prelude::*;
use vstd::hash_set::StringHashSet;
use crate::text::{lemma_differ_at, lemma_differ_len, push_char, std_lines, trimmed_nonempty, lemma_text_width_bounds, char_is_uppercase, char_is_numeric, to_lowercase, contains_char, starts_with_exec, ends_with_exec, str_eq, char_to_uppercase, list_entries_of, text_width, lemma_text_width_append, str_width, chars_of, string_of, char_byte_width, char_is_alphabetic, is_alphabetic, is_uppercase, is_numeric, lowercase, uppercase_char, is_prefix, is_suffix, list_entries, owned};
use crate::dictionary;

verus! {

broadcast use vstd::hash_set::group_hash_set_axioms;

/// The views of a list of strings.
pub open spec fn views(l: Seq<String>) -> Seq<Seq<char>> {
    l.map_values(|w: String| w@)
}

/// A set of words kept with the order in which they were first added.
pub struct WordSet {
    set: StringHashSet,
    list: Vec<String>,
}

impl WordSet {
    /// The words, in the order in which they were first added.
    pub closed spec fn order(&self) -> Seq<Seq<char>> {
        views(self.list@)
    }

    /// The words as a set.
    pub closed spec fn contents(&self) -> Set<Seq<char>> {
        self.set@
    }

    /// Well-formedness: the set holds exactly the listed words, each once.
    pub closed spec fn wf(&self) -> bool {
        &&& self.set@ == self.order().to_set()
        &&& self.order().no_duplicates()
    }

    pub fn new() -> (r: WordSet)
        ensures
            r.wf(),
            r.order() == Seq::<Seq<char>>::empty(),
            r.contents() == Set::<Seq<char>>::empty(),
    {
        let r = WordSet { set: StringHashSet::new(), list: Vec::new() };
        assert(r.order() =~= Seq::<Seq<char>>::empty());
        assert(r.order().to_set() =~= Set::<Seq<char>>::empty());
        r
    }

    /// Adds a word; a word already present changes nothing.
    pub fn insert(&mut self, w: String)
        requires
            old(self).wf(),
        ensures
            final(self).wf(),
            final(self).contents() == old(self).contents().insert(w@),
            final(self).order() == (if old(self).contents().contains(w@) {
                old(self).order()
            } else {
                old(self).order().push(w@)
            }),
    {
        let ghost old_order = self.order();
        let copy = w.clone();
        let added = self.set.insert(copy);
        if added {
            self.list.push(w);
            proof {
                assert(self.order() =~= old_order.push(w@));
                assert forall|x: Seq<char>|
                    self.order().to_set().contains(x) == old_order.to_set().insert(w@).contains(x) by {
                    if old_order.contains(x) {
                        let k = choose|k: int| 0 <= k < old_order.len() && old_order[k] == x;
                        assert(self.order()[k] == x);
                    }
                    if x == w@ {
                        assert(self.order()[old_order.len() as int] == x);
                    }
                    if self.order().contains(x) {
                        let k = choose|k: int| 0 <= k < self.order().len() && self.order()[k] == x;
                        if k < old_order.len() {
                            assert(old_order[k] == x);
                        }
                    }
                }
                assert(self.order().to_set() =~= old_order.to_set().insert(w@));
                assert(!old_order.contains(w@));
                assert forall|i: int, j: int|
                    0 <= i < j < self.order().len() implies self.order()[i] != self.order()[j] by {
                    if j == old_order.len() {
                        assert(old_order[i] == self.order()[i]);
                        assert(old_order.contains(old_order[i]));
                    }
                }
            }
        } else {
            proof {
                assert(self.set@ =~= old(self).set@);
            }
        }
    }

    pub fn contains(&self, w: &str) -> (r: bool)
        ensures
            r == self.contents().contains(w@),
    {
        self.set.contains(w)
    }

    /// The number of words.
    pub fn len(&self) -> (r: usize)
        ensures
            r == self.order().len(),
    {
        self.list.len()
    }

    /// The word at position `i` of the order.
    pub fn get(&self, i: usize) -> (r: &String)
        requires
            i < self.order().len(),
        ensures
            r@ == self.order()[i as int],
    {
        &self.list[i]
    }
}

/// Spell checker for e-mail composition: a personal dictionary and a
/// dictionary of common words.
pub struct SpellChecker {
    personal_dictionary: WordSet,
    common_words: WordSet,
}

/// A misspelled word with its byte position and suggestions.
#[derive(Debug, Clone)]
pub struct SpellError {
    pub word: String,
    pub position: usize,
    pub suggestions: Vec<String>,
}

/// Configuration for spell checking.
#[derive(Debug, Clone)]
pub struct SpellCheckConfig {
    pub enabled: bool,
    pub language: String,
    pub max_suggestions: usize,
    pub ignore_uppercase: bool,
    pub ignore_numbers: bool,
    pub personal_dictionary_path: Option<String>,
}

impl Default for SpellCheckConfig {
    /// Enabled, `en_US`, five suggestions, uppercase words and words with
    /// digits ignored, no personal dictionary file.
    fn default() -> (r: Self)
        ensures
            r.enabled,
            r.language@ == "en_US"@,
            r.max_suggestions == 5,
            r.ignore_uppercase,
            r.ignore_numbers,
            r.personal_dictionary_path is None,
    {
        SpellCheckConfig {
            enabled: true,
            language: owned("en_US"),
            max_suggestions: 5,
            ignore_uppercase: true,
            ignore_numbers: true,
            personal_dictionary_path: None,
        }
    }
}

/// A word of a text with the byte offset at which it starts.
#[derive(Debug, Clone)]
pub struct WordMatch {
    pub word: String,
    pub position: usize,
}

/// Counts of words and of misspelled words in a text.
#[derive(Debug, Clone, Copy, PartialEq, Eq)]
pub struct SpellCheckStats {
    pub total_words: usize,
    pub misspelled_words: usize,
}

/// Characters that make up words: letters, apostrophes and hyphens.
pub open spec fn is_word_char(c: char) -> bool {
    is_alphabetic(c) || c == '\'' || c == '-'
}

/// The maximal runs of word characters of `s`, as character index ranges
/// `(start, end)`, in order.
pub open spec fn word_spans(s: Seq<char>) -> Seq<(int, int)>
    decreases s.len(),
{
    if s.len() == 0 {
        seq![]
    } else {
        let p = s.drop_last();
        let prev = word_spans(p);
        if !is_word_char(s.last()) {
            prev
        } else if p.len() > 0 && is_word_char(p.last()) {
            prev.update(prev.len() - 1, (prev.last().0, s.len() as int))
        } else {
            prev.push((p.len() as int, s.len() as int))
        }
    }
}

/// Whether `spans` are the maximal runs of word characters of `s`, in
/// order: each run is non-empty and made of word characters, has no word
/// character just before or after it, runs are apart and increasing, and
/// every word character of `s` lies in a run.
pub open spec fn maximal_runs(s: Seq<char>, spans: Seq<(int, int)>) -> bool {
    &&& forall|k: int|
        0 <= k < spans.len() ==> {
            let sp = #[trigger] spans[k];
            &&& 0 <= sp.0 < sp.1 <= s.len()
            &&& (forall|i: int| sp.0 <= i < sp.1 ==> is_word_char(s[i]))
            &&& (sp.0 == 0 || !is_word_char(s[sp.0 - 1]))
            &&& (sp.1 == s.len() || !is_word_char(s[sp.1]))
        }
    &&& forall|k: int| 0 <= k < spans.len() - 1 ==> (#[trigger] spans[k]).1 < spans[k + 1].0
    &&& forall|i: int|
        0 <= i < s.len() && is_word_char(#[trigger] s[i]) ==> exists|k: int|
            0 <= k < spans.len() && (#[trigger] spans[k]).0 <= i < spans[k].1
}

/// The words of `s`, each with the byte offset at which it starts.
pub open spec fn words_of(s: Seq<char>) -> Seq<(Seq<char>, int)> {
    word_spans(s).map_values(
        |sp: (int, int)| (s.subrange(sp.0, sp.1), text_width(s.take(sp.0)) as int),
    )
}

/// Whether a word is skipped by the spell check: words shorter than two
/// bytes, all-uppercase words and words with digits (as configured), and
/// addresses and links.
pub open spec fn skip_word(w: Seq<char>, ignore_uppercase: bool, ignore_numbers: bool) -> bool {
    let n = text_width(w);
    if n < 2 {
        true
    } else if ignore_uppercase && n > 1 && (forall|k: int| 0 <= k < w.len() ==> is_uppercase(w[k])) {
        true
    } else if ignore_numbers && (exists|k: int| 0 <= k < w.len() && is_numeric(w[k])) {
        true
    } else {
        w.contains('@') || is_prefix(seq!['h', 't', 't', 'p'], w) || is_prefix(
            seq!['w', 'w', 'w', '.'],
            w,
        )
    }
}

/// Whether a word is spelled correctly against the two dictionaries.
pub open spec fn correct_in(personal: Set<Seq<char>>, common: Set<Seq<char>>, w: Seq<char>) -> bool {
    w.len() == 0 || personal.contains(lowercase(w)) || common.contains(lowercase(w))
}

/// The fixed table of frequent misspellings and their corrections.
pub open spec fn known_misspelling(w: Seq<char>) -> Option<Seq<char>> {
    if w == "teh"@ { Some("the"@) }
    else if w == "ther"@ { Some("there"@) }
    else if w == "recieve"@ { Some("receive"@) }
    else if w == "seperate"@ { Some("separate"@) }
    else if w == "occured"@ { Some("occurred"@) }
    else if w == "neccessary"@ { Some("necessary"@) }
    else if w == "definately"@ { Some("definitely"@) }
    else if w == "accomodate"@ { Some("accommodate"@) }
    else if w == "begining"@ { Some("beginning"@) }
    else if w == "beleive"@ { Some("believe"@) }
    else if w == "calender"@ { Some("calendar"@) }
    else if w == "cemetary"@ { Some("cemetery"@) }
    else if w == "changable"@ { Some("changeable"@) }
    else if w == "collegue"@ { Some("colleague"@) }
    else if w == "comming"@ { Some("coming"@) }
    else if w == "concious"@ { Some("conscious"@) }
    else if w == "dilemna"@ { Some("dilemma"@) }
    else if w == "embarass"@ { Some("embarrass"@) }
    else if w == "enviroment"@ { Some("environment"@) }
    else if w == "existance"@ { Some("existence"@) }
    else if w == "goverment"@ { Some("government"@) }
    else if w == "harrass"@ { Some("harass"@) }
    else if w == "independant"@ { Some("independent"@) }
    else if w == "judgement"@ { Some("judgment"@) }
    else if w == "knowlege"@ { Some("knowledge"@) }
    else if w == "liason"@ { Some("liaison"@) }
    else if w == "maintainance"@ { Some("maintenance"@) }
    else if w == "noticable"@ { Some("noticeable"@) }
    else if w == "occassion"@ { Some("occasion"@) }
    else if w == "perseverence"@ { Some("perseverance"@) }
    else if w == "priviledge"@ { Some("privilege"@) }
    else if w == "questionaire"@ { Some("questionnaire"@) }
    else if w == "recomend"@ { Some("recommend"@) }
    else if w == "succesful"@ { Some("successful"@) }
    else if w == "tommorow"@ { Some("tomorrow"@) }
    else if w == "untill"@ { Some("until"@) }
    else if w == "vaccuum"@ { Some("vacuum"@) }
    else if w == "wierd"@ { Some("weird"@) }
    else { None }
}

/// The characters `tion`.
pub open spec fn tion() -> Seq<char> {
    seq!['t', 'i', 'o', 'n']
}

/// The characters `sion`.
pub open spec fn sion() -> Seq<char> {
    seq!['s', 'i', 'o', 'n']
}

/// The correction proposed for `w` by the fixed patterns: a known
/// misspelling is replaced by its correction; a word ending in `tion`
/// becomes its `sion` form when that form is a common word; any other word
/// is unchanged.
pub open spec fn corrected(common: Set<Seq<char>>, w: Seq<char>) -> Seq<char> {
    match known_misspelling(w) {
        Some(r) => r,
        None => {
            let alt = w.take(w.len() - 4) + sion();
            if is_suffix(tion(), w) && text_width(w) > 4 && common.contains(alt) {
                alt
            } else {
                w
            }
        },
    }
}

/// Number of positions below `n` at which `a` and `b` differ.
pub open spec fn mismatches(a: Seq<char>, b: Seq<char>, n: int) -> nat
    decreases n,
{
    if n <= 0 {
        0
    } else if a[n - 1] != b[n - 1] {
        mismatches(a, b, n - 1) + 1
    } else {
        mismatches(a, b, n - 1)
    }
}

/// Whether `l` is `s` with at most one character inserted, scanning from
/// positions `i` of `s` and `j` of `l`; `gap` records that a character of
/// `l` was already skipped.
pub open spec fn one_gap(s: Seq<char>, l: Seq<char>, i: int, j: int, gap: bool) -> bool
    decreases s.len() - i + l.len() - j,
{
    if 0 <= i < s.len() && 0 <= j < l.len() {
        if s[i] == l[j] {
            one_gap(s, l, i + 1, j + 1, gap)
        } else if !gap {
            one_gap(s, l, i, j + 1, true)
        } else {
            false
        }
    } else {
        true
    }
}

/// Whether two different words are close: equal byte lengths and at most
/// two differing characters, or byte lengths one apart and the longer is the
/// shorter with one character inserted.
pub open spec fn similar(a: Seq<char>, b: Seq<char>) -> bool {
    if a == b {
        false
    } else if text_width(a) == text_width(b) {
        mismatches(a, b, if a.len() < b.len() { a.len() as int } else { b.len() as int }) <= 2
    } else if text_width(a) == text_width(b) + 1 {
        one_gap(b, a, 0, 0, false)
    } else if text_width(b) == text_width(a) + 1 {
        one_gap(a, b, 0, 0, false)
    } else {
        false
    }
}

/// How many dictionary words a suggestion search looks at.
pub open spec fn max_checks() -> int {
    500
}

/// Whether dictionary word `c` is proposed for the lowercase word `w`.
pub open spec fn close_candidate(w: Seq<char>, c: Seq<char>) -> bool {
    -1 <= text_width(c) - text_width(w) <= 1 && similar(w, c)
}

/// The suggestions collected by scanning `order` from index `k`, having
/// collected `acc` so far: at most the first `max_checks()` words are looked
/// at, and the scan stops once three suggestions are collected.
pub open spec fn scan_similar(w: Seq<char>, order: Seq<Seq<char>>, acc: Seq<Seq<char>>, k: int) -> Seq<Seq<char>>
    decreases order.len() - k,
{
    if k < 0 || k >= order.len() || k >= max_checks() {
        acc
    } else if close_candidate(w, order[k]) && !acc.contains(order[k]) {
        let next = acc.push(order[k]);
        if next.len() >= 3 {
            next
        } else {
            scan_similar(w, order, next, k + 1)
        }
    } else {
        scan_similar(w, order, acc, k + 1)
    }
}

/// The suggestions for a word: the pattern correction when it differs from
/// the lowercase word and is a common word, then close common words taken in
/// dictionary order.
pub open spec fn suggestions_for(common: Set<Seq<char>>, order: Seq<Seq<char>>, word: Seq<char>) -> Seq<Seq<char>> {
    if word.len() == 0 {
        seq![]
    } else {
        let w = lowercase(word);
        let fix = corrected(common, w);
        let start = if fix != w && common.contains(fix) {
            seq![fix]
        } else {
            seq![]
        };
        let found = scan_similar(w, order, start, 0);
        if found.len() > 5 {
            found.take(5)
        } else {
            found
        }
    }
}

/// The capitalised form of a word: its first character in uppercase, then
/// the rest.
pub open spec fn capitalized(w: Seq<char>) -> Seq<char> {
    uppercase_char(w[0]) + w.drop_first()
}

/// The dictionary entries contributed by a list of words: each word in
/// lowercase and capitalised.
pub open spec fn entry_forms(ws: Seq<Seq<char>>) -> Set<Seq<char>> {
    Set::new(|e: Seq<char>| exists|k: int| 0 <= k < ws.len() && (e == lowercase(ws[k]) || e == capitalized(ws[k])))
}

/// The contractions that are always in the dictionary; those with `I` are
/// also there in lowercase, the form in which words are looked up.
pub open spec fn contractions() -> Seq<Seq<char>> {
    seq![
        "don't"@, "won't"@, "can't"@, "shouldn't"@, "wouldn't"@, "couldn't"@, "didn't"@,
        "isn't"@, "aren't"@, "wasn't"@, "weren't"@, "haven't"@, "hasn't"@, "hadn't"@,
        "I'm"@, "you're"@, "he's"@, "she's"@, "it's"@, "we're"@, "they're"@,
        "I've"@, "you've"@, "we've"@, "they've"@, "I'll"@, "you'll"@, "he'll"@,
        "she'll"@, "it'll"@, "we'll"@, "they'll"@, "I'd"@, "you'd"@, "he'd"@,
        "she'd"@, "we'd"@, "they'd"@, "let's"@, "that's"@, "what's"@, "where's"@,
        "when's"@, "why's"@, "how's"@, "here's"@, "there's"@, "i'm"@, "i've"@, "i'll"@, "i'd"@,
    ]
}

/// The dictionary of common words: the entries of the three embedded word
/// lists, in lowercase and capitalised, and the contractions.
pub open spec fn common_dictionary() -> Set<Seq<char>> {
    entry_forms(list_entries(dictionary::COMMON_WORDS@)) + entry_forms(
        list_entries(dictionary::TECHNICAL_TERMS@),
    ) + entry_forms(list_entries(dictionary::ADDITIONAL_COMMON@)) + contractions().to_set()
}

/// The personal dictionary read from a word list: its entries in lowercase.
pub open spec fn personal_entries(text: Seq<char>) -> Set<Seq<char>> {
    Set::new(|e: Seq<char>| exists|k: int| 0 <= k < list_entries(text).len() && e == lowercase(list_entries(text)[k]))
}

} // verus!

verus! {

/// The words of `ws` that are not skipped and not spelled correctly, with
/// their positions, in order.
pub open spec fn misspelled(
    personal: Set<Seq<char>>,
    common: Set<Seq<char>>,
    ws: Seq<(Seq<char>, int)>,
    ignore_uppercase: bool,
    ignore_numbers: bool,
) -> Seq<(Seq<char>, int)>
    decreases ws.len(),
{
    if ws.len() == 0 {
        seq![]
    } else {
        let prev = misspelled(personal, common, ws.drop_last(), ignore_uppercase, ignore_numbers);
        let w = ws.last().0;
        if !skip_word(w, ignore_uppercase, ignore_numbers) && !correct_in(personal, common, w) {
            prev.push(ws.last())
        } else {
            prev
        }
    }
}

/// The number of misspellings never exceeds the number of words.
pub proof fn lemma_misspelled_len(
    personal: Set<Seq<char>>,
    common: Set<Seq<char>>,
    ws: Seq<(Seq<char>, int)>,
    ignore_uppercase: bool,
    ignore_numbers: bool,
)
    ensures
        misspelled(personal, common, ws, ignore_uppercase, ignore_numbers).len() <= ws.len(),
    decreases ws.len(),
{
    if ws.len() > 0 {
        lemma_misspelled_len(personal, common, ws.drop_last(), ignore_uppercase, ignore_numbers);
    }
}

proof fn lemma_text_width_prefix(s: Seq<char>, i: int)
    requires
        0 <= i <= s.len(),
    ensures
        text_width(s.take(i)) <= text_width(s),
{
    assert(s =~= s.take(i) + s.skip(i));
    lemma_text_width_append(s.take(i), s.skip(i));
}

/// The words of `text` with their byte offsets: maximal runs of letters,
/// apostrophes and hyphens.
fn extract_words(text: &str) -> (r: Vec<WordMatch>)
    ensures
        r@.len() == words_of(text@).len(),
        forall|k: int|
            0 <= k < r@.len() ==> #[trigger] r@[k].word@ == words_of(text@)[k].0
                && r@[k].position == words_of(text@)[k].1,
{
    let total = str_width(text);
    let cs = chars_of(text);
    let ghost s = text@;
    let mut words: Vec<WordMatch> = Vec::new();
    let mut current: Vec<char> = Vec::new();
    let mut word_start: usize = 0;
    let ghost mut start_idx: int = 0;
    let mut in_word = false;
    let mut pos: usize = 0;
    let mut i: usize = 0;
    while i < cs.len()
        invariant
            cs@ == s,
            s == text@,
            total == text_width(s),
            0 <= i <= s.len(),
            pos == text_width(s.take(i as int)),
            in_word <==> (i > 0 && is_word_char(s[i - 1])),
            in_word ==> word_spans(s.take(i as int)).len() == words@.len() + 1
                && word_spans(s.take(i as int)).last() == (start_idx, i as int)
                && current@ == s.subrange(start_idx, i as int)
                && word_start == text_width(s.take(start_idx))
                && 0 <= start_idx < i,
            !in_word ==> word_spans(s.take(i as int)).len() == words@.len(),
            forall|k: int|
                0 <= k < words@.len() ==> #[trigger] words@[k].word@ == s.subrange(
                    word_spans(s.take(i as int))[k].0,
                    word_spans(s.take(i as int))[k].1,
                ) && words@[k].position == text_width(s.take(word_spans(s.take(i as int))[k].0)),
        decreases s.len() - i,
    {
        let c = cs[i];
        let ghost p = s.take(i as int);
        let ghost q = s.take(i + 1);
        proof {
            assert(q.drop_last() =~= p);
            assert(q.last() == c);
            lemma_text_width_prefix(s, i + 1);
            if i > 0 {
                assert(p.last() == s[i - 1]);
            }
        }
        let w = char_byte_width(c);
        let word_char = char_is_alphabetic(c) || c == '\'' || c == '-';
        if word_char {
            if !in_word {
                word_start = pos;
                proof {
                    start_idx = i as int;
                }
                in_word = true;
                current = Vec::new();
            }
            current.push(c);
            proof {
                assert(s.subrange(start_idx, i + 1) =~= s.subrange(start_idx, i as int).push(c));
            }
        } else {
            if in_word {
                let word = string_of(current.as_slice());
                words.push(WordMatch { word, position: word_start });
                in_word = false;
            }
        }
        pos = pos + w;
        i = i + 1;
    }
    proof {
        assert(s.take(i as int) =~= s);
    }
    if in_word {
        let word = string_of(current.as_slice());
        words.push(WordMatch { word, position: word_start });
    }
    words
}

} // verus!

verus! {

/// Whether every character of `w` is uppercase.
fn all_uppercase(w: &[char]) -> (r: bool)
    ensures
        r == (forall|k: int| 0 <= k < w@.len() ==> is_uppercase(w@[k])),
{
    let mut i: usize = 0;
    while i < w.len()
        invariant
            0 <= i <= w@.len(),
            forall|k: int| 0 <= k < i ==> is_uppercase(w@[k]),
        decreases w@.len() - i,
    {
        if !char_is_uppercase(w[i]) {
            return false;
        }
        i = i + 1;
    }
    true
}

/// Whether some character of `w` is numeric.
fn any_numeric(w: &[char]) -> (r: bool)
    ensures
        r == (exists|k: int| 0 <= k < w@.len() && is_numeric(w@[k])),
{
    let mut i: usize = 0;
    while i < w.len()
        invariant
            0 <= i <= w@.len(),
            forall|k: int| 0 <= k < i ==> !is_numeric(w@[k]),
        decreases w@.len() - i,
    {
        if char_is_numeric(w[i]) {
            assert(is_numeric(w@[i as int]));
            return true;
        }
        i = i + 1;
    }
    false
}

impl SpellChecker {
    /// The personal dictionary.
    pub closed spec fn personal(&self) -> Set<Seq<char>> {
        self.personal_dictionary.contents()
    }

    /// The dictionary of common words.
    pub closed spec fn common(&self) -> Set<Seq<char>> {
        self.common_words.contents()
    }

    /// The common words in the order in which they were loaded.
    pub closed spec fn common_order(&self) -> Seq<Seq<char>> {
        self.common_words.order()
    }

    /// Well-formedness of both dictionaries.
    pub closed spec fn wf(&self) -> bool {
        &&& self.personal_dictionary.wf()
        &&& self.common_words.wf()
    }

    /// Whether a word is left out of the check: words shorter than two
    /// bytes, all-uppercase words and words with digits (as the
    /// configuration asks), and addresses and links.
    pub fn should_skip_word(&self, word: &str, config: &SpellCheckConfig) -> (r: bool)
        ensures
            r == skip_word(word@, config.ignore_uppercase, config.ignore_numbers),
    {
        let n = str_width(word);
        let cs = chars_of(word);
        if n < 2 {
            return true;
        }
        if config.ignore_uppercase && n > 1 && all_uppercase(cs.as_slice()) {
            return true;
        }
        if config.ignore_numbers && any_numeric(cs.as_slice()) {
            return true;
        }
        let http: Vec<char> = vec!['h', 't', 't', 'p'];
        let www: Vec<char> = vec!['w', 'w', 'w', '.'];
        proof {
            assert(http@ =~= seq!['h', 't', 't', 'p']);
            assert(www@ =~= seq!['w', 'w', 'w', '.']);
        }
        contains_char(cs.as_slice(), '@') || starts_with_exec(cs.as_slice(), http.as_slice())
            || starts_with_exec(cs.as_slice(), www.as_slice())
    }

    /// Whether a word is spelled correctly: the empty word is, and otherwise
    /// its lowercase form must be in the personal dictionary or among the
    /// common words.
    pub fn is_correct(&self, word: &str) -> (r: bool)
        ensures
            r == correct_in(self.personal(), self.common(), word@),
    {
        if str_width(word) == 0 {
            proof {
                lemma_text_width_bounds(word@);
            }
            return true;
        }
        proof {
            lemma_text_width_bounds(word@);
        }
        let lower = to_lowercase(word);
        if self.personal_dictionary.contains(lower.as_str()) {
            return true;
        }
        self.common_words.contains(lower.as_str())
    }
}

} // verus!

verus! {

/// The correction of a frequent misspelling, if `w` is one.
fn known_misspelling_exec(w: &str) -> (r: Option<&'static str>)
    ensures
        match r {
            Some(c) => known_misspelling(w@) == Some(c@),
            None => known_misspelling(w@) is None,
        },
{
    if str_eq(w, "teh") {
        return Some("the");
    }
    if str_eq(w, "ther") {
        return Some("there");
    }
    if str_eq(w, "recieve") {
        return Some("receive");
    }
    if str_eq(w, "seperate") {
        return Some("separate");
    }
    if str_eq(w, "occured") {
        return Some("occurred");
    }
    if str_eq(w, "neccessary") {
        return Some("necessary");
    }
    if str_eq(w, "definately") {
        return Some("definitely");
    }
    if str_eq(w, "accomodate") {
        return Some("accommodate");
    }
    if str_eq(w, "begining") {
        return Some("beginning");
    }
    if str_eq(w, "beleive") {
        return Some("believe");
    }
    if str_eq(w, "calender") {
        return Some("calendar");
    }
    if str_eq(w, "cemetary") {
        return Some("cemetery");
    }
    if str_eq(w, "changable") {
        return Some("changeable");
    }
    if str_eq(w, "collegue") {
        return Some("colleague");
    }
    if str_eq(w, "comming") {
        return Some("coming");
    }
    if str_eq(w, "concious") {
        return Some("conscious");
    }
    if str_eq(w, "dilemna") {
        return Some("dilemma");
    }
    if str_eq(w, "embarass") {
        return Some("embarrass");
    }
    if str_eq(w, "enviroment") {
        return Some("environment");
    }
    if str_eq(w, "existance") {
        return Some("existence");
    }
    if str_eq(w, "goverment") {
        return Some("government");
    }
    if str_eq(w, "harrass") {
        return Some("harass");
    }
    if str_eq(w, "independant") {
        return Some("independent");
    }
    if str_eq(w, "judgement") {
        return Some("judgment");
    }
    if str_eq(w, "knowlege") {
        return Some("knowledge");
    }
    if str_eq(w, "liason") {
        return Some("liaison");
    }
    if str_eq(w, "maintainance") {
        return Some("maintenance");
    }
    if str_eq(w, "noticable") {
        return Some("noticeable");
    }
    if str_eq(w, "occassion") {
        return Some("occasion");
    }
    if str_eq(w, "perseverence") {
        return Some("perseverance");
    }
    if str_eq(w, "priviledge") {
        return Some("privilege");
    }
    if str_eq(w, "questionaire") {
        return Some("questionnaire");
    }
    if str_eq(w, "recomend") {
        return Some("recommend");
    }
    if str_eq(w, "succesful") {
        return Some("successful");
    }
    if str_eq(w, "tommorow") {
        return Some("tomorrow");
    }
    if str_eq(w, "untill") {
        return Some("until");
    }
    if str_eq(w, "vaccuum") {
        return Some("vacuum");
    }
    if str_eq(w, "wierd") {
        return Some("weird");
    }
    None
}

/// `mismatches` grows with the number of positions compared.
proof fn lemma_mismatches_monotone(a: Seq<char>, b: Seq<char>, n: int, m: int)
    requires
        0 <= n <= m,
    ensures
        mismatches(a, b, n) <= mismatches(a, b, m),
    decreases m - n,
{
    if n < m {
        lemma_mismatches_monotone(a, b, n, m - 1);
    }
}

/// Whether `views(l)` contains `w`.
fn contains_word(l: &Vec<String>, w: &str) -> (r: bool)
    ensures
        r == views(l@).contains(w@),
{
    let mut i: usize = 0;
    while i < l.len()
        invariant
            0 <= i <= l@.len(),
            forall|k: int| 0 <= k < i ==> l@[k]@ != w@,
        decreases l@.len() - i,
    {
        if str_eq(l[i].as_str(), w) {
            assert(views(l@)[i as int] == w@);
            return true;
        }
        i = i + 1;
    }
    proof {
        if views(l@).contains(w@) {
            let k = choose|k: int| 0 <= k < views(l@).len() && views(l@)[k] == w@;
            assert(l@[k]@ == w@);
        }
    }
    false
}

/// Whether the byte lengths of two words differ by at most one.
fn widths_close(a: usize, b: usize) -> (r: bool)
    ensures
        r == (-1 <= a - b <= 1),
{
    if a >= b {
        a - b <= 1
    } else {
        b - a <= 1
    }
}

impl SpellChecker {
    /// The correction proposed by the fixed patterns: the correction of a
    /// known misspelling, the `sion` form of a word ending in `tion` when
    /// that form is a common word, or the word itself.
    fn apply_common_corrections(&self, word: &str) -> (r: String)
        ensures
            r@ == corrected(self.common(), word@),
    {
        match known_misspelling_exec(word) {
            Some(c) => {
                return owned(c);
            },
            None => {},
        }
        let cs = chars_of(word);
        let tion_chars: Vec<char> = vec!['t', 'i', 'o', 'n'];
        proof {
            assert(tion_chars@ =~= tion());
        }
        if ends_with_exec(cs.as_slice(), tion_chars.as_slice()) && str_width(word) > 4 {
            let mut alt_chars: Vec<char> = Vec::new();
            let stem = cs.len() - 4;
            let mut i: usize = 0;
            while i < stem
                invariant
                    stem == cs@.len() - 4,
                    0 <= i <= stem,
                    alt_chars@ == cs@.take(i as int),
                decreases stem - i,
            {
                alt_chars.push(cs[i]);
                proof {
                    assert(cs@.take(i + 1) =~= cs@.take(i as int).push(cs@[i as int]));
                }
                i = i + 1;
            }
            alt_chars.push('s');
            alt_chars.push('i');
            alt_chars.push('o');
            alt_chars.push('n');
            proof {
                assert(alt_chars@ =~= word@.take(word@.len() - 4) + sion());
            }
            let alt = string_of(alt_chars.as_slice());
            if self.common_words.contains(alt.as_str()) {
                return alt;
            }
        }
        owned(word)
    }

    /// Whether two different words are close: equal byte lengths and at most
    /// two differing characters, or byte lengths one apart and one character
    /// inserted.
    fn is_similar_quick(&self, word1: &str, word2: &str) -> (r: bool)
        ensures
            r == similar(word1@, word2@),
    {
        if str_eq(word1, word2) {
            return false;
        }
        let l1 = str_width(word1);
        let l2 = str_width(word2);
        let a = chars_of(word1);
        let b = chars_of(word2);
        if l1 == l2 {
            let n = if a.len() < b.len() {
                a.len()
            } else {
                b.len()
            };
            let mut diff_count: usize = 0;
            let mut i: usize = 0;
            while i < n
                invariant
                    n <= a@.len(),
                    n <= b@.len(),
                    0 <= i <= n,
                    a@ == word1@,
                    b@ == word2@,
                    diff_count == mismatches(a@, b@, i as int),
                    diff_count <= 2,
                    l1 == text_width(word1@),
                    l2 == text_width(word2@),
                    l1 == l2,
                    word1@ != word2@,
                    n == (if a@.len() < b@.len() { a@.len() } else { b@.len() }),
                decreases n - i,
            {
                if a[i] != b[i] {
                    diff_count = diff_count + 1;
                    assert(diff_count == mismatches(a@, b@, i + 1));
                    if diff_count > 2 {
                        proof {
                            lemma_mismatches_monotone(a@, b@, i + 1, n as int);
                            assert(mismatches(a@, b@, n as int) > 2);
                            assert(word1@ != word2@);
                            assert(text_width(word1@) == text_width(word2@));
                        }
                        return false;
                    }
                }
                i = i + 1;
            }
            assert(mismatches(a@, b@, n as int) <= 2);
            return true;
        } else if (l1 > l2 && l1 - l2 == 1) || (l2 > l1 && l2 - l1 == 1) {
            let (s, l) = if l1 < l2 {
                (a, b)
            } else {
                (b, a)
            };
            let mut i: usize = 0;
            let mut j: usize = 0;
            let mut gap = false;
            while i < s.len() && j < l.len()
                invariant
                    0 <= i <= s@.len(),
                    0 <= j <= l@.len(),
                    one_gap(s@, l@, 0, 0, false) == one_gap(s@, l@, i as int, j as int, gap),
                    l1 < l2 ==> s@ == word1@ && l@ == word2@,
                    l1 == text_width(word1@),
                    l2 == text_width(word2@),
                    l1 == l2 + 1 || l2 == l1 + 1,
                    word1@ != word2@,
                    l1 >= l2 ==> s@ == word2@ && l@ == word1@,
                decreases s@.len() - i + l@.len() - j,
            {
                if s[i] == l[j] {
                    i = i + 1;
                    j = j + 1;
                } else if !gap {
                    gap = true;
                    j = j + 1;
                } else {
                    assert(s@[i as int] != l@[j as int]);
                    assert(!one_gap(s@, l@, i as int, j as int, gap));
                    return false;
                }
            }
            return true;
        }
        false
    }

    /// Spelling suggestions for a word: the pattern correction when it is a
    /// common word, then up to three close common words in dictionary order,
    /// looking at no more than the first 500.
    pub fn suggest(&self, word: &str) -> (r: Vec<String>)
        ensures
            views(r@) == suggestions_for(self.common(), self.common_order(), word@),
    {
        let mut suggestions: Vec<String> = Vec::new();
        if str_width(word) == 0 {
            proof {
                lemma_text_width_bounds(word@);
                assert(views(suggestions@) =~= Seq::<Seq<char>>::empty());
            }
            return suggestions;
        }
        proof {
            lemma_text_width_bounds(word@);
        }
        let w = to_lowercase(word);
        let fix = self.apply_common_corrections(w.as_str());
        if !str_eq(fix.as_str(), w.as_str()) && self.common_words.contains(fix.as_str()) {
            suggestions.push(fix);
        }
        let ghost start = views(suggestions@);
        proof {
            assert(start =~= (if corrected(self.common(), w@) != w@ && self.common().contains(
                corrected(self.common(), w@),
            ) {
                seq![corrected(self.common(), w@)]
            } else {
                seq![]
            }));
        }
        let ghost order = self.common_order();
        let ghost target = scan_similar(w@, order, start, 0);
        let wl = str_width(w.as_str());
        let n = self.common_words.len();
        let mut k: usize = 0;
        let mut done = false;
        while k < n && k < 500 && !done
            invariant
                n == order.len(),
                order == self.common_order(),
                wl == text_width(w@),
                target == scan_similar(w@, order, start, 0),
                done ==> views(suggestions@) == target,
                !done ==> target == scan_similar(w@, order, views(suggestions@), k as int),
            decreases n - k,
        {
            let c = self.common_words.get(k);
            let cl = str_width(c.as_str());
            if widths_close(cl, wl) && self.is_similar_quick(w.as_str(), c.as_str()) {
                if !contains_word(&suggestions, c.as_str()) {
                    let copy = c.clone();
                    let ghost before = suggestions@;
                    suggestions.push(copy);
                    proof {
                        assert(views(suggestions@) =~= views(before).push(c@));
                    }
                    if suggestions.len() >= 3 {
                        done = true;
                    }
                }
            }
            k = k + 1;
        }
        if suggestions.len() > 5 {
            suggestions.truncate(5);
            proof {
                assert(views(suggestions@) =~= target.take(5));
            }
        }
        suggestions
    }

    /// The first `config.max_suggestions` suggestions for a word.
    pub fn get_suggestions_for_word(&self, word: &str, config: &SpellCheckConfig) -> (r: Vec<String>)
        ensures
            views(r@) == suggestions_for(self.common(), self.common_order(), word@).take(
                if config.max_suggestions < suggestions_for(
                    self.common(),
                    self.common_order(),
                    word@,
                ).len() {
                    config.max_suggestions as int
                } else {
                    suggestions_for(self.common(), self.common_order(), word@).len() as int
                },
            ),
    {
        let all = self.suggest(word);
        let mut r: Vec<String> = Vec::new();
        let mut i: usize = 0;
        while i < all.len() && i < config.max_suggestions
            invariant
                0 <= i <= all@.len(),
                i <= config.max_suggestions,
                views(r@) == views(all@).take(i as int),
            decreases all@.len() - i,
        {
            let copy = all[i].clone();
            let ghost before = r@;
            r.push(copy);
            proof {
                assert(views(r@) =~= views(before).push(all@[i as int]@));
                assert(views(all@).take(i + 1) =~= views(all@).take(i as int).push(all@[i as int]@));
            }
            i = i + 1;
        }
        proof {
            assert(views(r@) =~= views(all@).take(i as int));
        }
        r
    }
}

} // verus!

verus! {

/// The lowercase forms of a list of words.
pub open spec fn lower_forms(ws: Seq<Seq<char>>) -> Set<Seq<char>> {
    Set::new(|e: Seq<char>| exists|k: int| 0 <= k < ws.len() && e == lowercase(ws[k]))
}

proof fn lemma_lower_forms_push(ws: Seq<Seq<char>>, w: Seq<char>)
    ensures
        lower_forms(ws.push(w)) == lower_forms(ws).insert(lowercase(w)),
{
    let l = ws.push(w);
    assert forall|e: Seq<char>| lower_forms(l).contains(e) == lower_forms(ws).insert(lowercase(w)).contains(e) by {
        if lower_forms(ws).contains(e) {
            let k = choose|k: int| 0 <= k < ws.len() && e == lowercase(ws[k]);
            assert(l[k] == ws[k]);
        }
        if e == lowercase(w) {
            assert(l[ws.len() as int] == w);
        }
        if lower_forms(l).contains(e) {
            let k = choose|k: int| 0 <= k < l.len() && e == lowercase(l[k]);
            if k < ws.len() {
                assert(l[k] == ws[k]);
            }
        }
    }
    assert(lower_forms(l) =~= lower_forms(ws).insert(lowercase(w)));
}

proof fn lemma_entry_forms_push(ws: Seq<Seq<char>>, w: Seq<char>)
    ensures
        entry_forms(ws.push(w)) == entry_forms(ws).insert(lowercase(w)).insert(capitalized(w)),
{
    let l = ws.push(w);
    let rhs = entry_forms(ws).insert(lowercase(w)).insert(capitalized(w));
    assert forall|e: Seq<char>| entry_forms(l).contains(e) == rhs.contains(e) by {
        if entry_forms(ws).contains(e) {
            let k = choose|k: int| 0 <= k < ws.len() && (e == lowercase(ws[k]) || e == capitalized(ws[k]));
            assert(l[k] == ws[k]);
        }
        if e == lowercase(w) || e == capitalized(w) {
            assert(l[ws.len() as int] == w);
        }
        if entry_forms(l).contains(e) {
            let k = choose|k: int| 0 <= k < l.len() && (e == lowercase(l[k]) || e == capitalized(l[k]));
            if k < ws.len() {
                assert(l[k] == ws[k]);
            }
        }
    }
    assert(entry_forms(l) =~= rhs);
}

proof fn lemma_take_to_set_step(s: Seq<Seq<char>>, k: int)
    requires
        0 <= k < s.len(),
    ensures
        s.take(k + 1).to_set() == s.take(k).to_set().insert(s[k]),
{
    assert(s.take(k + 1) =~= s.take(k).push(s[k]));
    let a = s.take(k);
    let b = s.take(k + 1);
    assert forall|x: Seq<char>| b.to_set().contains(x) == a.to_set().insert(s[k]).contains(x) by {
        if a.contains(x) {
            let j = choose|j: int| 0 <= j < a.len() && a[j] == x;
            assert(b[j] == x);
        }
        if x == s[k] {
            assert(b[k] == x);
        }
        if b.contains(x) {
            let j = choose|j: int| 0 <= j < b.len() && b[j] == x;
            if j < k {
                assert(a[j] == x);
            }
        }
    }
    assert(b.to_set() =~= a.to_set().insert(s[k]));
}

proof fn lemma_trimmed_nonempty_entries(ls: Seq<Seq<char>>)
    ensures
        forall|k: int| 0 <= k < trimmed_nonempty(ls).len() ==> #[trigger] trimmed_nonempty(ls)[k].len() > 0,
    decreases ls.len(),
{
    if ls.len() > 0 {
        lemma_trimmed_nonempty_entries(ls.drop_last());
        let prev = trimmed_nonempty(ls.drop_last());
        assert forall|k: int| 0 <= k < trimmed_nonempty(ls).len() implies #[trigger] trimmed_nonempty(ls)[k].len() > 0 by {
            if k < prev.len() {
                assert(trimmed_nonempty(ls)[k] == prev[k]);
            }
        }
    }
}

/// The capitalised form of a non-empty word.
fn capitalize(word: &str) -> (r: String)
    requires
        word@.len() > 0,
    ensures
        r@ == capitalized(word@),
{
    let cs = chars_of(word);
    let mut r = char_to_uppercase(cs[0]);
    let ghost head = r@;
    let mut i: usize = 1;
    while i < cs.len()
        invariant
            cs@ == word@,
            1 <= i <= cs@.len(),
            r@ == head + cs@.subrange(1, i as int),
        decreases cs@.len() - i,
    {
        push_char(&mut r, cs[i]);
        proof {
            assert(cs@.subrange(1, i + 1) =~= cs@.subrange(1, i as int).push(cs@[i as int]));
        }
        i = i + 1;
    }
    proof {
        assert(cs@.subrange(1, i as int) =~= word@.drop_first());
    }
    r
}

/// Adds the lowercase and capitalised forms of each word of a word list.
fn add_list_forms(words: &mut WordSet, list: &str)
    requires
        old(words).wf(),
    ensures
        final(words).wf(),
        final(words).contents() == old(words).contents() + entry_forms(list_entries(list@)),
{
    let entries = list_entries_of(list);
    let ghost es = list_entries(list@);
    proof {
        lemma_trimmed_nonempty_entries(std_lines(list@));
        assert(entry_forms(es.take(0)) =~= Set::<Seq<char>>::empty());
        assert(old(words).contents() + Set::<Seq<char>>::empty() =~= old(words).contents());
    }
    let mut k: usize = 0;
    while k < entries.len()
        invariant
            words.wf(),
            entries@.len() == es.len(),
            forall|j: int| 0 <= j < entries@.len() ==> #[trigger] entries@[j]@ == es[j],
            forall|j: int| 0 <= j < es.len() ==> #[trigger] es[j].len() > 0,
            0 <= k <= es.len(),
            words.contents() == old(words).contents() + entry_forms(es.take(k as int)),
        decreases es.len() - k,
    {
        let w = entries[k].as_str();
        assert(w@ == es[k as int]);
        let lower = to_lowercase(w);
        let cap = capitalize(w);
        words.insert(lower);
        words.insert(cap);
        proof {
            assert(es.take(k + 1) =~= es.take(k as int).push(es[k as int]));
            lemma_entry_forms_push(es.take(k as int), es[k as int]);
            assert(words.contents() =~= old(words).contents() + entry_forms(es.take(k + 1)));
        }
        k = k + 1;
    }
    proof {
        assert(es.take(k as int) =~= es);
    }
}

/// The contractions, as strings.
fn contraction_list() -> (r: Vec<String>)
    ensures
        views(r@) == contractions(),
{
    let mut r: Vec<String> = Vec::new();
    r.push(owned("don't"));
    r.push(owned("won't"));
    r.push(owned("can't"));
    r.push(owned("shouldn't"));
    r.push(owned("wouldn't"));
    r.push(owned("couldn't"));
    r.push(owned("didn't"));
    r.push(owned("isn't"));
    r.push(owned("aren't"));
    r.push(owned("wasn't"));
    r.push(owned("weren't"));
    r.push(owned("haven't"));
    r.push(owned("hasn't"));
    r.push(owned("hadn't"));
    r.push(owned("I'm"));
    r.push(owned("you're"));
    r.push(owned("he's"));
    r.push(owned("she's"));
    r.push(owned("it's"));
    r.push(owned("we're"));
    r.push(owned("they're"));
    r.push(owned("I've"));
    r.push(owned("you've"));
    r.push(owned("we've"));
    r.push(owned("they've"));
    r.push(owned("I'll"));
    r.push(owned("you'll"));
    r.push(owned("he'll"));
    r.push(owned("she'll"));
    r.push(owned("it'll"));
    r.push(owned("we'll"));
    r.push(owned("they'll"));
    r.push(owned("I'd"));
    r.push(owned("you'd"));
    r.push(owned("he'd"));
    r.push(owned("she'd"));
    r.push(owned("we'd"));
    r.push(owned("they'd"));
    r.push(owned("let's"));
    r.push(owned("that's"));
    r.push(owned("what's"));
    r.push(owned("where's"));
    r.push(owned("when's"));
    r.push(owned("why's"));
    r.push(owned("how's"));
    r.push(owned("here's"));
    r.push(owned("there's"));
    r.push(owned("i'm"));
    r.push(owned("i've"));
    r.push(owned("i'll"));
    r.push(owned("i'd"));
    proof {
        assert(views(r@) =~= contractions());
    }
    r
}

/// The dictionary of common words: each word of the three embedded lists in
/// lowercase and capitalised, and the contractions.
fn load_common_words() -> (r: WordSet)
    ensures
        r.wf(),
        r.contents() == common_dictionary(),
{
    let mut words = WordSet::new();
    add_list_forms(&mut words, dictionary::COMMON_WORDS);
    add_list_forms(&mut words, dictionary::TECHNICAL_TERMS);
    add_list_forms(&mut words, dictionary::ADDITIONAL_COMMON);
    let ghost base = words.contents();
    let cl = contraction_list();
    proof {
        assert(views(cl@).take(0).to_set() =~= Set::<Seq<char>>::empty());
        assert(base + Set::<Seq<char>>::empty() =~= base);
    }
    let mut k: usize = 0;
    while k < cl.len()
        invariant
            words.wf(),
            views(cl@) == contractions(),
            0 <= k <= cl@.len(),
            words.contents() == base + views(cl@).take(k as int).to_set(),
        decreases cl@.len() - k,
    {
        let c = cl[k].clone();
        words.insert(c);
        proof {
            assert(views(cl@)[k as int] == cl@[k as int]@);
            lemma_take_to_set_step(views(cl@), k as int);
            assert(words.contents() =~= base + views(cl@).take(k + 1).to_set());
        }
        k = k + 1;
    }
    proof {
        assert(views(cl@).take(k as int) =~= contractions());
        assert(words.contents() =~= common_dictionary());
    }
    words
}

/// The personal dictionary of a word list: each entry in lowercase.
fn load_personal_dictionary(text: &str) -> (r: WordSet)
    ensures
        r.wf(),
        r.contents() == personal_entries(text@),
{
    let entries = list_entries_of(text);
    let ghost es = list_entries(text@);
    let mut words = WordSet::new();
    proof {
        assert(lower_forms(es.take(0)) =~= Set::<Seq<char>>::empty());
    }
    let mut k: usize = 0;
    while k < entries.len()
        invariant
            words.wf(),
            entries@.len() == es.len(),
            forall|j: int| 0 <= j < entries@.len() ==> #[trigger] entries@[j]@ == es[j],
            0 <= k <= es.len(),
            words.contents() == lower_forms(es.take(k as int)),
        decreases es.len() - k,
    {
        let lower = to_lowercase(entries[k].as_str());
        words.insert(lower);
        proof {
            assert(es.take(k + 1) =~= es.take(k as int).push(es[k as int]));
            lemma_lower_forms_push(es.take(k as int), es[k as int]);
        }
        k = k + 1;
    }
    proof {
        assert(es.take(k as int) =~= es);
        assert(lower_forms(es) =~= personal_entries(text@));
    }
    words
}

impl SpellChecker {
    /// A spell checker with the dictionary of common words and, when the
    /// configured personal dictionary could be read, the words of its text
    /// (one per line) in lowercase.
    pub fn new(config: &SpellCheckConfig, personal_text: Option<&str>) -> (r: SpellChecker)
        ensures
            r.wf(),
            r.personal() == (match personal_text {
                Some(t) => personal_entries(t@),
                None => Set::<Seq<char>>::empty(),
            }),
            r.common() == common_dictionary(),
    {
        let personal_dictionary = match personal_text {
            Some(t) => load_personal_dictionary(t),
            None => WordSet::new(),
        };
        let common_words = load_common_words();
        SpellChecker { personal_dictionary, common_words }
    }

    /// The words of `text` with the byte offsets at which they start.
    pub fn extract_words_static(text: &str) -> (r: Vec<WordMatch>)
        ensures
            r@.len() == words_of(text@).len(),
            forall|k: int|
                0 <= k < r@.len() ==> #[trigger] r@[k].word@ == words_of(text@)[k].0
                    && r@[k].position == words_of(text@)[k].1,
    {
        extract_words(text)
    }

    /// The misspelled words of `text` with their positions, in order: the
    /// words that are neither skipped nor spelled correctly. Suggestions are
    /// left empty; they are computed on request.
    pub fn check_text(&self, text: &str, config: &SpellCheckConfig) -> (r: Vec<SpellError>)
        ensures
            r@.len() == misspelled(
                self.personal(),
                self.common(),
                words_of(text@),
                config.ignore_uppercase,
                config.ignore_numbers,
            ).len(),
            forall|k: int|
                0 <= k < r@.len() ==> {
                    let m = misspelled(
                        self.personal(),
                        self.common(),
                        words_of(text@),
                        config.ignore_uppercase,
                        config.ignore_numbers,
                    );
                    &&& #[trigger] r@[k].word@ == m[k].0
                    &&& r@[k].position == m[k].1
                    &&& r@[k].suggestions@.len() == 0
                },
    {
        let words = extract_words(text);
        let ghost ws = words_of(text@);
        let ghost iu = config.ignore_uppercase;
        let ghost inum = config.ignore_numbers;
        let mut errors: Vec<SpellError> = Vec::new();
        let mut i: usize = 0;
        assert forall|k: int| 0 <= k < words@.len() implies #[trigger] words@[k].word@ == ws[k].0
            && words@[k].position == ws[k].1 by {
            assert(words@[k].word@ == words_of(text@)[k].0);
        }
        proof {
            assert(ws.take(0) =~= Seq::<(Seq<char>, int)>::empty());
        }
        while i < words.len()
            invariant
                words@.len() == ws.len(),
                forall|k: int|
                    0 <= k < words@.len() ==> #[trigger] words@[k].word@ == ws[k].0
                        && words@[k].position == ws[k].1,
                0 <= i <= ws.len(),
                errors@.len() == misspelled(self.personal(), self.common(), ws.take(i as int), iu, inum).len(),
                forall|k: int|
                    0 <= k < errors@.len() ==> {
                        let m = misspelled(self.personal(), self.common(), ws.take(i as int), iu, inum);
                        &&& #[trigger] errors@[k].word@ == m[k].0
                        &&& errors@[k].position == m[k].1
                        &&& errors@[k].suggestions@.len() == 0
                    },
                iu == config.ignore_uppercase,
                inum == config.ignore_numbers,
            decreases ws.len() - i,
        {
            let wm = &words[i];
            proof {
                assert(ws.take(i + 1).drop_last() =~= ws.take(i as int));
                assert(ws.take(i + 1).last() == ws[i as int]);
            }
            let ghost m_old = misspelled(self.personal(), self.common(), ws.take(i as int), iu, inum);
            let ghost old_errors = errors@;
            let flagged = !self.should_skip_word(wm.word.as_str(), config) && !self.is_correct(
                wm.word.as_str(),
            );
            if flagged {
                let e = SpellError {
                    word: wm.word.clone(),
                    position: wm.position,
                    suggestions: Vec::new(),
                };
                errors.push(e);
            }
            proof {
                let m_new = misspelled(self.personal(), self.common(), ws.take(i + 1), iu, inum);
                assert(wm.word@ == ws[i as int].0);
                assert(m_new == (if flagged {
                    m_old.push(ws[i as int])
                } else {
                    m_old
                }));
                assert forall|k: int| 0 <= k < errors@.len() implies {
                    &&& #[trigger] errors@[k].word@ == m_new[k].0
                    &&& errors@[k].position == m_new[k].1
                    &&& errors@[k].suggestions@.len() == 0
                } by {
                    if k < old_errors.len() {
                        assert(errors@[k] == old_errors[k]);
                        assert(m_new[k] == m_old[k]);
                    }
                }
            }
            i = i + 1;
        }
        proof {
            assert(ws.take(i as int) =~= ws);
        }
        errors
    }

    /// Counts of words and of misspelled words in `text`.
    pub fn get_stats(&self, text: &str, config: &SpellCheckConfig) -> (r: SpellCheckStats)
        ensures
            r.total_words == words_of(text@).len(),
            r.misspelled_words == misspelled(
                self.personal(),
                self.common(),
                words_of(text@),
                config.ignore_uppercase,
                config.ignore_numbers,
            ).len(),
            r.misspelled_words <= r.total_words,
    {
        let words = extract_words(text);
        let errors = self.check_text(text, config);
        proof {
            lemma_misspelled_len(
                self.personal(),
                self.common(),
                words_of(text@),
                config.ignore_uppercase,
                config.ignore_numbers,
            );
        }
        SpellCheckStats { total_words: words.len(), misspelled_words: errors.len() }
    }

    /// Adds a word, in lowercase, to the personal dictionary.
    pub fn add_to_personal_dictionary(&mut self, word: &str)
        requires
            old(self).wf(),
        ensures
            final(self).wf(),
            final(self).personal() == old(self).personal().insert(lowercase(word@)),
            final(self).common() == old(self).common(),
            final(self).common_order() == old(self).common_order(),
    {
        let lower = to_lowercase(word);
        self.personal_dictionary.insert(lower);
    }

    /// The words of the personal dictionary, in the order in which they were
    /// added (what a saved dictionary file lists, after sorting).
    pub fn personal_words(&self) -> (r: Vec<String>)
        requires
            self.wf(),
        ensures
            views(r@).to_set() == self.personal(),
            views(r@).no_duplicates(),
    {
        let n = self.personal_dictionary.len();
        let mut r: Vec<String> = Vec::new();
        let mut i: usize = 0;
        while i < n
            invariant
                n == self.personal_dictionary.order().len(),
                0 <= i <= n,
                views(r@) == self.personal_dictionary.order().take(i as int),
            decreases n - i,
        {
            let w = self.personal_dictionary.get(i).clone();
            let ghost before = r@;
            r.push(w);
            proof {
                assert(views(r@) =~= views(before).push(self.personal_dictionary.order()[i as int]));
                assert(self.personal_dictionary.order().take(i + 1) =~= self.personal_dictionary.order().take(i as int).push(self.personal_dictionary.order()[i as int]));
            }
            i = i + 1;
        }
        proof {
            assert(self.personal_dictionary.order().take(i as int) =~= self.personal_dictionary.order());
        }
        r
    }
}

/// What a suggestion scan keeps of a well-behaved start: distinct common
/// words that differ from `w`, three at most.
proof fn lemma_scan_similar_words(
    common: Set<Seq<char>>,
    w: Seq<char>,
    order: Seq<Seq<char>>,
    acc: Seq<Seq<char>>,
    k: int,
)
    requires
        forall|j: int| 0 <= j < order.len() ==> common.contains(#[trigger] order[j]),
        acc.len() < 3,
        acc.no_duplicates(),
        forall|i: int| 0 <= i < acc.len() ==> common.contains(#[trigger] acc[i]) && acc[i] != w,
    ensures
        scan_similar(w, order, acc, k).len() <= 3,
        scan_similar(w, order, acc, k).no_duplicates(),
        forall|i: int|
            0 <= i < scan_similar(w, order, acc, k).len() ==> common.contains(
                #[trigger] scan_similar(w, order, acc, k)[i],
            ) && scan_similar(w, order, acc, k)[i] != w,
    decreases order.len() - k,
{
    if k < 0 || k >= order.len() || k >= max_checks() {
    } else if close_candidate(w, order[k]) && !acc.contains(order[k]) {
        let next = acc.push(order[k]);
        assert(common.contains(order[k]));
        assert(order[k] != w);
        assert forall|i: int| 0 <= i < next.len() implies common.contains(#[trigger] next[i]) && next[i] != w by {
            if i < acc.len() {
                assert(next[i] == acc[i]);
            }
        }
        assert(next.no_duplicates()) by {
            assert forall|i: int, j: int| 0 <= i < next.len() && 0 <= j < next.len() && i != j implies next[i]
                != next[j] by {
                if i < acc.len() && j < acc.len() {
                } else if i < acc.len() {
                    assert(acc.contains(acc[i]));
                } else {
                    assert(acc.contains(acc[j]));
                }
            }
        }
        if next.len() < 3 {
            lemma_scan_similar_words(common, w, order, next, k + 1);
        }
    } else {
        lemma_scan_similar_words(common, w, order, acc, k + 1);
    }
}

/// The suggestions for any word are distinct words of the dictionary of
/// common words, none of them the word itself in lowercase, and there are
/// at most three of them.
pub proof fn law_suggestions_are_distinct_common_words(checker: SpellChecker, word: Seq<char>)
    requires
        checker.wf(),
    ensures
        suggestions_for(checker.common(), checker.common_order(), word).len() <= 3,
        suggestions_for(checker.common(), checker.common_order(), word).no_duplicates(),
        forall|i: int|
            0 <= i < suggestions_for(checker.common(), checker.common_order(), word).len() ==> {
                let s = #[trigger] suggestions_for(checker.common(), checker.common_order(), word)[i];
                checker.common().contains(s) && s != lowercase(word)
            },
{
    let common = checker.common();
    let order = checker.common_order();
    if word.len() > 0 {
        let w = lowercase(word);
        let fix = corrected(common, w);
        let start = if fix != w && common.contains(fix) {
            seq![fix]
        } else {
            seq![]
        };
        assert forall|j: int| 0 <= j < order.len() implies common.contains(#[trigger] order[j]) by {
            assert(order.to_set().contains(order[j]));
        }
        lemma_scan_similar_words(common, w, order, start, 0);
    }
}

/// The words the spell check reads are exactly the maximal runs of word
/// characters (letters, apostrophes and hyphens) of the text, in order.
pub proof fn law_words_are_maximal_runs(s: Seq<char>)
    ensures
        maximal_runs(s, word_spans(s)),
    decreases s.len(),
{
    if s.len() > 0 {
        let n = s.len() as int;
        let p = s.drop_last();
        let c = s.last();
        law_words_are_maximal_runs(p);
        let pw = word_spans(p);
        let w = word_spans(s);
        assert forall|i: int| 0 <= i < p.len() implies p[i] == s[i] by {}
        if !is_word_char(c) {
            assert(w == pw);
            assert forall|i: int| 0 <= i < s.len() && is_word_char(#[trigger] s[i]) implies exists|k: int|
                0 <= k < w.len() && (#[trigger] w[k]).0 <= i < w[k].1 by {
                assert(i < n - 1);
                assert(is_word_char(p[i]));
            }
            assert forall|k: int| 0 <= k < w.len() implies {
                let sp = #[trigger] w[k];
                &&& 0 <= sp.0 < sp.1 <= s.len()
                &&& (forall|i: int| sp.0 <= i < sp.1 ==> is_word_char(s[i]))
                &&& (sp.0 == 0 || !is_word_char(s[sp.0 - 1]))
                &&& (sp.1 == s.len() || !is_word_char(s[sp.1]))
            } by {
                let sp = w[k];
                assert(pw[k] == sp);
                assert forall|i: int| sp.0 <= i < sp.1 implies is_word_char(s[i]) by {
                    assert(is_word_char(p[i]));
                }
                if sp.1 == p.len() {
                    assert(s[sp.1] == c);
                }
            }
        } else if p.len() > 0 && is_word_char(p.last()) {
            let m = pw.len() as int;
            assert(is_word_char(p[n - 2]));
            let k0 = choose|k: int| 0 <= k < pw.len() && (#[trigger] pw[k]).0 <= n - 2 < pw[k].1;
            assert(k0 == m - 1) by {
                if k0 < m - 1 {
                    assert(pw[k0].1 < pw[k0 + 1].0);
                    assert(pw[k0 + 1].1 <= p.len());
                }
            }
            let last = pw[m - 1];
            assert(last.1 == n - 1);
            assert(w == pw.update(m - 1, (last.0, n)));
            assert forall|k: int| 0 <= k < w.len() implies {
                let sp = #[trigger] w[k];
                &&& 0 <= sp.0 < sp.1 <= s.len()
                &&& (forall|i: int| sp.0 <= i < sp.1 ==> is_word_char(s[i]))
                &&& (sp.0 == 0 || !is_word_char(s[sp.0 - 1]))
                &&& (sp.1 == s.len() || !is_word_char(s[sp.1]))
            } by {
                let sp = w[k];
                if k < m - 1 {
                    assert(pw[k] == sp);
                    assert(pw[k].1 < pw[k + 1].0);
                    assert forall|i: int| sp.0 <= i < sp.1 implies is_word_char(s[i]) by {
                        assert(is_word_char(p[i]));
                    }
                    assert(!is_word_char(p[sp.1]));
                } else {
                    assert forall|i: int| sp.0 <= i < sp.1 implies is_word_char(s[i]) by {
                        if i < n - 1 {
                            assert(is_word_char(p[i]));
                        }
                    }
                }
            }
            assert forall|k: int| 0 <= k < w.len() - 1 implies (#[trigger] w[k]).1 < w[k + 1].0 by {
                assert(pw[k].1 < pw[k + 1].0);
                assert(w[k] == pw[k]);
            }
            assert forall|i: int| 0 <= i < s.len() && is_word_char(#[trigger] s[i]) implies exists|k: int|
                0 <= k < w.len() && (#[trigger] w[k]).0 <= i < w[k].1 by {
                if i < n - 1 {
                    assert(is_word_char(p[i]));
                    let k = choose|k: int| 0 <= k < pw.len() && (#[trigger] pw[k]).0 <= i < pw[k].1;
                    if k < m - 1 {
                        assert(w[k] == pw[k]);
                    } else {
                        assert(w[m - 1].0 <= i < w[m - 1].1);
                    }
                } else {
                    assert(w[m - 1].0 <= i < w[m - 1].1);
                }
            }
        } else {
            assert(w == pw.push((n - 1, n)));
            let m = pw.len() as int;
            if m > 0 {
                let last = pw[m - 1];
                assert(last.1 < n - 1) by {
                    if last.1 == n - 1 {
                        assert(is_word_char(p[last.1 - 1]));
                        assert(p.last() == p[n - 2]);
                    }
                }
            }
            assert forall|k: int| 0 <= k < w.len() implies {
                let sp = #[trigger] w[k];
                &&& 0 <= sp.0 < sp.1 <= s.len()
                &&& (forall|i: int| sp.0 <= i < sp.1 ==> is_word_char(s[i]))
                &&& (sp.0 == 0 || !is_word_char(s[sp.0 - 1]))
                &&& (sp.1 == s.len() || !is_word_char(s[sp.1]))
            } by {
                let sp = w[k];
                if k < m {
                    assert(pw[k] == sp);
                    assert forall|i: int| sp.0 <= i < sp.1 implies is_word_char(s[i]) by {
                        assert(is_word_char(p[i]));
                    }
                    if sp.1 < p.len() {
                        assert(!is_word_char(p[sp.1]));
                    } else {
                        assert(k == m - 1) by {
                            if k < m - 1 {
                                assert(pw[k].1 < pw[k + 1].0);
                            }
                        }
                    }
                } else {
                    if n - 1 > 0 {
                        assert(p.last() == s[n - 2]);
                    }
                }
            }
            assert forall|k: int| 0 <= k < w.len() - 1 implies (#[trigger] w[k]).1 < w[k + 1].0 by {
                if k < m - 1 {
                    assert(pw[k].1 < pw[k + 1].0);
                }
                assert(w[k] == pw[k]);
            }
            assert forall|i: int| 0 <= i < s.len() && is_word_char(#[trigger] s[i]) implies exists|k: int|
                0 <= k < w.len() && (#[trigger] w[k]).0 <= i < w[k].1 by {
                if i < n - 1 {
                    assert(is_word_char(p[i]));
                    let k = choose|k: int| 0 <= k < pw.len() && (#[trigger] pw[k]).0 <= i < pw[k].1;
                    assert(w[k] == pw[k]);
                } else {
                    assert(w[m].0 <= i < w[m].1);
                }
            }
        }
    }
}

/// After a word is added to the personal dictionary it is spelled
/// correctly, whatever the dictionaries held before.
pub proof fn law_added_word_is_correct(personal: Set<Seq<char>>, common: Set<Seq<char>>, w: Seq<char>)
    ensures
        correct_in(personal.insert(lowercase(w)), common, w),
{
}

/// Adding a word changes the verdict on no other word whose lowercase form
/// differs from it.
pub proof fn law_adding_keeps_other_verdicts(
    personal: Set<Seq<char>>,
    common: Set<Seq<char>>,
    w: Seq<char>,
    v: Seq<char>,
)
    requires
        v.len() > 0,
        lowercase(v) != lowercase(w),
    ensures
        correct_in(personal.insert(lowercase(w)), common, v) == correct_in(personal, common, v),
{
}


/// Whether the first suggestion for `word` is `c`.
pub open spec fn proposes_first(common: Set<Seq<char>>, order: Seq<Seq<char>>, word: Seq<char>, c: Seq<char>) -> bool {
    suggestions_for(common, order, word).len() > 0 && suggestions_for(common, order, word)[0] == c
}

proof fn lemma_scan_keeps_found(w: Seq<char>, order: Seq<Seq<char>>, acc: Seq<Seq<char>>, k: int)
    ensures
        scan_similar(w, order, acc, k).len() >= acc.len(),
        forall|i: int| 0 <= i < acc.len() ==> #[trigger] scan_similar(w, order, acc, k)[i] == acc[i],
    decreases order.len() - k,
{
    if k < 0 || k >= order.len() || k >= max_checks() {
    } else if close_candidate(w, order[k]) && !acc.contains(order[k]) {
        let next = acc.push(order[k]);
        if next.len() < 3 {
            lemma_scan_keeps_found(w, order, next, k + 1);
            assert forall|i: int| 0 <= i < acc.len() implies #[trigger] scan_similar(w, order, acc, k)[i] == acc[i] by {
                assert(next[i] == acc[i]);
            }
        }
    } else {
        lemma_scan_keeps_found(w, order, acc, k + 1);
    }
}

proof fn lemma_correction_first(common: Set<Seq<char>>, order: Seq<Seq<char>>, word: Seq<char>, m: Seq<char>, c: Seq<char>)
    requires
        known_misspelling(m) == Some(c),
        m != c,
        word.len() > 0,
        lowercase(word) == m,
        common.contains(c),
    ensures
        proposes_first(common, order, word, c),
{
    lemma_scan_keeps_found(m, order, seq![c], 0);
}

proof fn lemma_table_teh()
    ensures
        known_misspelling("teh"@) == Some("the"@),
        "teh"@ != "the"@,
{
    reveal_strlit("teh");
    reveal_strlit("the");
    lemma_differ_at("teh"@, "the"@, 1);
}

proof fn lemma_table_ther()
    ensures
        known_misspelling("ther"@) == Some("there"@),
        "ther"@ != "there"@,
{
    reveal_strlit("ther");
    reveal_strlit("there");
    lemma_differ_len("ther"@, "there"@);
    reveal_strlit("teh");
    lemma_differ_len("ther"@, "teh"@);
}

proof fn lemma_table_recieve()
    ensures
        known_misspelling("recieve"@) == Some("receive"@),
        "recieve"@ != "receive"@,
{
    reveal_strlit("recieve");
    reveal_strlit("receive");
    reveal_strlit("teh");
    lemma_differ_len("recieve"@, "teh"@);
    reveal_strlit("ther");
    lemma_differ_len("recieve"@, "ther"@);
    lemma_differ_at("recieve"@, "receive"@, 3);
}

proof fn lemma_table_seperate()
    ensures
        known_misspelling("seperate"@) == Some("separate"@),
        "seperate"@ != "separate"@,
{
    reveal_strlit("seperate");
    reveal_strlit("separate");
    reveal_strlit("teh");
    lemma_differ_len("seperate"@, "teh"@);
    reveal_strlit("ther");
    lemma_differ_len("seperate"@, "ther"@);
    reveal_strlit("recieve");
    lemma_differ_len("seperate"@, "recieve"@);
    lemma_differ_at("seperate"@, "separate"@, 3);
}

proof fn lemma_table_occured()
    ensures
        known_misspelling("occured"@) == Some("occurred"@),
        "occured"@ != "occurred"@,
{
    reveal_strlit("occured");
    reveal_strlit("occurred");
    lemma_differ_len("occured"@, "occurred"@);
    reveal_strlit("teh");
    lemma_differ_len("occured"@, "teh"@);
    reveal_strlit("ther");
    lemma_differ_len("occured"@, "ther"@);
    reveal_strlit("recieve");
    lemma_differ_at("occured"@, "recieve"@, 0);
    reveal_strlit("seperate");
    lemma_differ_len("occured"@, "seperate"@);
}

proof fn lemma_table_neccessary()
    ensures
        known_misspelling("neccessary"@) == Some("necessary"@),
        "neccessary"@ != "necessary"@,
{
    reveal_strlit("neccessary");
    reveal_strlit("necessary");
    lemma_differ_len("neccessary"@, "necessary"@);
    reveal_strlit("teh");
    lemma_differ_len("neccessary"@, "teh"@);
    reveal_strlit("ther");
    lemma_differ_len("neccessary"@, "ther"@);
    reveal_strlit("recieve");
    lemma_differ_len("neccessary"@, "recieve"@);
    reveal_strlit("seperate");
    lemma_differ_len("neccessary"@, "seperate"@);
    reveal_strlit("occured");
    lemma_differ_len("neccessary"@, "occured"@);
}

proof fn lemma_table_definately()
    ensures
        known_misspelling("definately"@) == Some("definitely"@),
        "definately"@ != "definitely"@,
{
    reveal_strlit("definately");
    reveal_strlit("definitely");
    reveal_strlit("teh");
    lemma_differ_len("definately"@, "teh"@);
    reveal_strlit("ther");
    lemma_differ_len("definately"@, "ther"@);
    reveal_strlit("recieve");
    lemma_differ_len("definately"@, "recieve"@);
    reveal_strlit("seperate");
    lemma_differ_len("definately"@, "seperate"@);
    reveal_strlit("occured");
    lemma_differ_len("definately"@, "occured"@);
    reveal_strlit("neccessary");
    lemma_differ_at("definately"@, "neccessary"@, 0);
    lemma_differ_at("definately"@, "definitely"@, 5);
}

proof fn lemma_table_accomodate()
    ensures
        known_misspelling("accomodate"@) == Some("accommodate"@),
        "accomodate"@ != "accommodate"@,
{
    reveal_strlit("accomodate");
    reveal_strlit("accommodate");
    lemma_differ_len("accomodate"@, "accommodate"@);
    reveal_strlit("teh");
    lemma_differ_len("accomodate"@, "teh"@);
    reveal_strlit("ther");
    lemma_differ_len("accomodate"@, "ther"@);
    reveal_strlit("recieve");
    lemma_differ_len("accomodate"@, "recieve"@);
    reveal_strlit("seperate");
    lemma_differ_len("accomodate"@, "seperate"@);
    reveal_strlit("occured");
    lemma_differ_len("accomodate"@, "occured"@);
    reveal_strlit("neccessary");
    lemma_differ_at("accomodate"@, "neccessary"@, 0);
    reveal_strlit("definately");
    lemma_differ_at("accomodate"@, "definately"@, 0);
}

proof fn lemma_table_begining()
    ensures
        known_misspelling("begining"@) == Some("beginning"@),
        "begining"@ != "beginning"@,
{
    reveal_strlit("begining");
    reveal_strlit("beginning");
    lemma_differ_len("begining"@, "beginning"@);
    reveal_strlit("teh");
    lemma_differ_len("begining"@, "teh"@);
    reveal_strlit("ther");
    lemma_differ_len("begining"@, "ther"@);
    reveal_strlit("recieve");
    lemma_differ_len("begining"@, "recieve"@);
    reveal_strlit("seperate");
    lemma_differ_at("begining"@, "seperate"@, 0);
    reveal_strlit("occured");
    lemma_differ_len("begining"@, "occured"@);
    reveal_strlit("neccessary");
    lemma_differ_len("begining"@, "neccessary"@);
    reveal_strlit("definately");
    lemma_differ_len("begining"@, "definately"@);
    reveal_strlit("accomodate");
    lemma_differ_len("begining"@, "accomodate"@);
}

proof fn lemma_table_beleive()
    ensures
        known_misspelling("beleive"@) == Some("believe"@),
        "beleive"@ != "believe"@,
{
    reveal_strlit("beleive");
    reveal_strlit("believe");
    reveal_strlit("teh");
    lemma_differ_len("beleive"@, "teh"@);
    reveal_strlit("ther");
    lemma_differ_len("beleive"@, "ther"@);
    reveal_strlit("recieve");
    lemma_differ_at("beleive"@, "recieve"@, 0);
    reveal_strlit("seperate");
    lemma_differ_len("beleive"@, "seperate"@);
    reveal_strlit("occured");
    lemma_differ_at("beleive"@, "occured"@, 0);
    reveal_strlit("neccessary");
    lemma_differ_len("beleive"@, "neccessary"@);
    reveal_strlit("definately");
    lemma_differ_len("beleive"@, "definately"@);
    reveal_strlit("accomodate");
    lemma_differ_len("beleive"@, "accomodate"@);
    reveal_strlit("begining");
    lemma_differ_len("beleive"@, "begining"@);
    lemma_differ_at("beleive"@, "believe"@, 3);
}

proof fn lemma_table_calender()
    ensures
        known_misspelling("calender"@) == Some("calendar"@),
        "calender"@ != "calendar"@,
{
    reveal_strlit("calender");
    reveal_strlit("calendar");
    reveal_strlit("teh");
    lemma_differ_len("calender"@, "teh"@);
    reveal_strlit("ther");
    lemma_differ_len("calender"@, "ther"@);
    reveal_strlit("recieve");
    lemma_differ_len("calender"@, "recieve"@);
    reveal_strlit("seperate");
    lemma_differ_at("calender"@, "seperate"@, 0);
    reveal_strlit("occured");
    lemma_differ_len("calender"@, "occured"@);
    reveal_strlit("neccessary");
    lemma_differ_len("calender"@, "neccessary"@);
    reveal_strlit("definately");
    lemma_differ_len("calender"@, "definately"@);
    reveal_strlit("accomodate");
    lemma_differ_len("calender"@, "accomodate"@);
    reveal_strlit("begining");
    lemma_differ_at("calender"@, "begining"@, 0);
    reveal_strlit("beleive");
    lemma_differ_len("calender"@, "beleive"@);
    lemma_differ_at("calender"@, "calendar"@, 6);
}

proof fn lemma_table_cemetary()
    ensures
        known_misspelling("cemetary"@) == Some("cemetery"@),
        "cemetary"@ != "cemetery"@,
{
    reveal_strlit("cemetary");
    reveal_strlit("cemetery");
    reveal_strlit("teh");
    lemma_differ_len("cemetary"@, "teh"@);
    reveal_strlit("ther");
    lemma_differ_len("cemetary"@, "ther"@);
    reveal_strlit("recieve");
    lemma_differ_len("cemetary"@, "recieve"@);
    reveal_strlit("seperate");
    lemma_differ_at("cemetary"@, "seperate"@, 0);
    reveal_strlit("occured");
    lemma_differ_len("cemetary"@, "occured"@);
    reveal_strlit("neccessary");
    lemma_differ_len("cemetary"@, "neccessary"@);
    reveal_strlit("definately");
    lemma_differ_len("cemetary"@, "definately"@);
    reveal_strlit("accomodate");
    lemma_differ_len("cemetary"@, "accomodate"@);
    reveal_strlit("begining");
    lemma_differ_at("cemetary"@, "begining"@, 0);
    reveal_strlit("beleive");
    lemma_differ_len("cemetary"@, "beleive"@);
    reveal_strlit("calender");
    lemma_differ_at("cemetary"@, "calender"@, 1);
    lemma_differ_at("cemetary"@, "cemetery"@, 5);
}

proof fn lemma_table_changable()
    ensures
        known_misspelling("changable"@) == Some("changeable"@),
        "changable"@ != "changeable"@,
{
    reveal_strlit("changable");
    reveal_strlit("changeable");
    lemma_differ_len("changable"@, "changeable"@);
    reveal_strlit("teh");
    lemma_differ_len("changable"@, "teh"@);
    reveal_strlit("ther");
    lemma_differ_len("changable"@, "ther"@);
    reveal_strlit("recieve");
    lemma_differ_len("changable"@, "recieve"@);
    reveal_strlit("seperate");
    lemma_differ_len("changable"@, "seperate"@);
    reveal_strlit("occured");
    lemma_differ_len("changable"@, "occured"@);
    reveal_strlit("neccessary");
    lemma_differ_len("changable"@, "neccessary"@);
    reveal_strlit("definately");
    lemma_differ_len("changable"@, "definately"@);
    reveal_strlit("accomodate");
    lemma_differ_len("changable"@, "accomodate"@);
    reveal_strlit("begining");
    lemma_differ_len("changable"@, "begining"@);
    reveal_strlit("beleive");
    lemma_differ_len("changable"@, "beleive"@);
    reveal_strlit("calender");
    lemma_differ_len("changable"@, "calender"@);
    reveal_strlit("cemetary");
    lemma_differ_len("changable"@, "cemetary"@);
}

proof fn lemma_table_collegue()
    ensures
        known_misspelling("collegue"@) == Some("colleague"@),
        "collegue"@ != "colleague"@,
{
    reveal_strlit("collegue");
    reveal_strlit("colleague");
    lemma_differ_len("collegue"@, "colleague"@);
    reveal_strlit("teh");
    lemma_differ_len("collegue"@, "teh"@);
    reveal_strlit("ther");
    lemma_differ_len("collegue"@, "ther"@);
    reveal_strlit("recieve");
    lemma_differ_len("collegue"@, "recieve"@);
    reveal_strlit("seperate");
    lemma_differ_at("collegue"@, "seperate"@, 0);
    reveal_strlit("occured");
    lemma_differ_len("collegue"@, "occured"@);
    reveal_strlit("neccessary");
    lemma_differ_len("collegue"@, "neccessary"@);
    reveal_strlit("definately");
    lemma_differ_len("collegue"@, "definately"@);
    reveal_strlit("accomodate");
    lemma_differ_len("collegue"@, "accomodate"@);
    reveal_strlit("begining");
    lemma_differ_at("collegue"@, "begining"@, 0);
    reveal_strlit("beleive");
    lemma_differ_len("collegue"@, "beleive"@);
    reveal_strlit("calender");
    lemma_differ_at("collegue"@, "calender"@, 1);
    reveal_strlit("cemetary");
    lemma_differ_at("collegue"@, "cemetary"@, 1);
    reveal_strlit("changable");
    lemma_differ_len("collegue"@, "changable"@);
}

proof fn lemma_table_comming()
    ensures
        known_misspelling("comming"@) == Some("coming"@),
        "comming"@ != "coming"@,
{
    reveal_strlit("comming");
    reveal_strlit("coming");
    lemma_differ_len("comming"@, "coming"@);
    reveal_strlit("teh");
    lemma_differ_len("comming"@, "teh"@);
    reveal_strlit("ther");
    lemma_differ_len("comming"@, "ther"@);
    reveal_strlit("recieve");
    lemma_differ_at("comming"@, "recieve"@, 0);
    reveal_strlit("seperate");
    lemma_differ_len("comming"@, "seperate"@);
    reveal_strlit("occured");
    lemma_differ_at("comming"@, "occured"@, 0);
    reveal_strlit("neccessary");
    lemma_differ_len("comming"@, "neccessary"@);
    reveal_strlit("definately");
    lemma_differ_len("comming"@, "definately"@);
    reveal_strlit("accomodate");
    lemma_differ_len("comming"@, "accomodate"@);
    reveal_strlit("begining");
    lemma_differ_len("comming"@, "begining"@);
    reveal_strlit("beleive");
    lemma_differ_at("comming"@, "beleive"@, 0);
    reveal_strlit("calender");
    lemma_differ_len("comming"@, "calender"@);
    reveal_strlit("cemetary");
    lemma_differ_len("comming"@, "cemetary"@);
    reveal_strlit("changable");
    lemma_differ_len("comming"@, "changable"@);
    reveal_strlit("collegue");
    lemma_differ_len("comming"@, "collegue"@);
}

proof fn lemma_table_concious()
    ensures
        known_misspelling("concious"@) == Some("conscious"@),
        "concious"@ != "conscious"@,
{
    reveal_strlit("concious");
    reveal_strlit("conscious");
    lemma_differ_len("concious"@, "conscious"@);
    reveal_strlit("teh");
    lemma_differ_len("concious"@, "teh"@);
    reveal_strlit("ther");
    lemma_differ_len("concious"@, "ther"@);
    reveal_strlit("recieve");
    lemma_differ_len("concious"@, "recieve"@);
    reveal_strlit("seperate");
    lemma_differ_at("concious"@, "seperate"@, 0);
    reveal_strlit("occured");
    lemma_differ_len("concious"@, "occured"@);
    reveal_strlit("neccessary");
    lemma_differ_len("concious"@, "neccessary"@);
    reveal_strlit("definately");
    lemma_differ_len("concious"@, "definately"@);
    reveal_strlit("accomodate");
    lemma_differ_len("concious"@, "accomodate"@);
    reveal_strlit("begining");
    lemma_differ_at("concious"@, "begining"@, 0);
    reveal_strlit("beleive");
    lemma_differ_len("concious"@, "beleive"@);
    reveal_strlit("calender");
    lemma_differ_at("concious"@, "calender"@, 1);
    reveal_strlit("cemetary");
    lemma_differ_at("concious"@, "cemetary"@, 1);
    reveal_strlit("changable");
    lemma_differ_len("concious"@, "changable"@);
    reveal_strlit("collegue");
    lemma_differ_at("concious"@, "collegue"@, 2);
    reveal_strlit("comming");
    lemma_differ_len("concious"@, "comming"@);
}

proof fn lemma_table_dilemna()
    ensures
        known_misspelling("dilemna"@) == Some("dilemma"@),
        "dilemna"@ != "dilemma"@,
{
    reveal_strlit("dilemna");
    reveal_strlit("dilemma");
    reveal_strlit("teh");
    lemma_differ_len("dilemna"@, "teh"@);
    reveal_strlit("ther");
    lemma_differ_len("dilemna"@, "ther"@);
    reveal_strlit("recieve");
    lemma_differ_at("dilemna"@, "recieve"@, 0);
    reveal_strlit("seperate");
    lemma_differ_len("dilemna"@, "seperate"@);
    reveal_strlit("occured");
    lemma_differ_at("dilemna"@, "occured"@, 0);
    reveal_strlit("neccessary");
    lemma_differ_len("dilemna"@, "neccessary"@);
    reveal_strlit("definately");
    lemma_differ_len("dilemna"@, "definately"@);
    reveal_strlit("accomodate");
    lemma_differ_len("dilemna"@, "accomodate"@);
    reveal_strlit("begining");
    lemma_differ_len("dilemna"@, "begining"@);
    reveal_strlit("beleive");
    lemma_differ_at("dilemna"@, "beleive"@, 0);
    reveal_strlit("calender");
    lemma_differ_len("dilemna"@, "calender"@);
    reveal_strlit("cemetary");
    lemma_differ_len("dilemna"@, "cemetary"@);
    reveal_strlit("changable");
    lemma_differ_len("dilemna"@, "changable"@);
    reveal_strlit("collegue");
    lemma_differ_len("dilemna"@, "collegue"@);
    reveal_strlit("comming");
    lemma_differ_at("dilemna"@, "comming"@, 0);
    reveal_strlit("concious");
    lemma_differ_len("dilemna"@, "concious"@);
    lemma_differ_at("dilemna"@, "dilemma"@, 5);
}

proof fn lemma_table_embarass()
    ensures
        known_misspelling("embarass"@) == Some("embarrass"@),
        "embarass"@ != "embarrass"@,
{
    reveal_strlit("embarass");
    reveal_strlit("embarrass");
    lemma_differ_len("embarass"@, "embarrass"@);
    reveal_strlit("teh");
    lemma_differ_len("embarass"@, "teh"@);
    reveal_strlit("ther");
    lemma_differ_len("embarass"@, "ther"@);
    reveal_strlit("recieve");
    lemma_differ_len("embarass"@, "recieve"@);
    reveal_strlit("seperate");
    lemma_differ_at("embarass"@, "seperate"@, 0);
    reveal_strlit("occured");
    lemma_differ_len("embarass"@, "occured"@);
    reveal_strlit("neccessary");
    lemma_differ_len("embarass"@, "neccessary"@);
    reveal_strlit("definately");
    lemma_differ_len("embarass"@, "definately"@);
    reveal_strlit("accomodate");
    lemma_differ_len("embarass"@, "accomodate"@);
    reveal_strlit("begining");
    lemma_differ_at("embarass"@, "begining"@, 0);
    reveal_strlit("beleive");
    lemma_differ_len("embarass"@, "beleive"@);
    reveal_strlit("calender");
    lemma_differ_at("embarass"@, "calender"@, 0);
    reveal_strlit("cemetary");
    lemma_differ_at("embarass"@, "cemetary"@, 0);
    reveal_strlit("changable");
    lemma_differ_len("embarass"@, "changable"@);
    reveal_strlit("collegue");
    lemma_differ_at("embarass"@, "collegue"@, 0);
    reveal_strlit("comming");
    lemma_differ_len("embarass"@, "comming"@);
    reveal_strlit("concious");
    lemma_differ_at("embarass"@, "concious"@, 0);
    reveal_strlit("dilemna");
    lemma_differ_len("embarass"@, "dilemna"@);
}

proof fn lemma_table_enviroment()
    ensures
        known_misspelling("enviroment"@) == Some("environment"@),
        "enviroment"@ != "environment"@,
{
    reveal_strlit("enviroment");
    reveal_strlit("environment");
    lemma_differ_len("enviroment"@, "environment"@);
    reveal_strlit("teh");
    lemma_differ_len("enviroment"@, "teh"@);
    reveal_strlit("ther");
    lemma_differ_len("enviroment"@, "ther"@);
    reveal_strlit("recieve");
    lemma_differ_len("enviroment"@, "recieve"@);
    reveal_strlit("seperate");
    lemma_differ_len("enviroment"@, "seperate"@);
    reveal_strlit("occured");
    lemma_differ_len("enviroment"@, "occured"@);
    reveal_strlit("neccessary");
    lemma_differ_at("enviroment"@, "neccessary"@, 0);
    reveal_strlit("definately");
    lemma_differ_at("enviroment"@, "definately"@, 0);
    reveal_strlit("accomodate");
    lemma_differ_at("enviroment"@, "accomodate"@, 0);
    reveal_strlit("begining");
    lemma_differ_len("enviroment"@, "begining"@);
    reveal_strlit("beleive");
    lemma_differ_len("enviroment"@, "beleive"@);
    reveal_strlit("calender");
    lemma_differ_len("enviroment"@, "calender"@);
    reveal_strlit("cemetary");
    lemma_differ_len("enviroment"@, "cemetary"@);
    reveal_strlit("changable");
    lemma_differ_len("enviroment"@, "changable"@);
    reveal_strlit("collegue");
    lemma_differ_len("enviroment"@, "collegue"@);
    reveal_strlit("comming");
    lemma_differ_len("enviroment"@, "comming"@);
    reveal_strlit("concious");
    lemma_differ_len("enviroment"@, "concious"@);
    reveal_strlit("dilemna");
    lemma_differ_len("enviroment"@, "dilemna"@);
    reveal_strlit("embarass");
    lemma_differ_len("enviroment"@, "embarass"@);
}

proof fn lemma_table_existance()
    ensures
        known_misspelling("existance"@) == Some("existence"@),
        "existance"@ != "existence"@,
{
    reveal_strlit("existance");
    reveal_strlit("existence");
    reveal_strlit("teh");
    lemma_differ_len("existance"@, "teh"@);
    reveal_strlit("ther");
    lemma_differ_len("existance"@, "ther"@);
    reveal_strlit("recieve");
    lemma_differ_len("existance"@, "recieve"@);
    reveal_strlit("seperate");
    lemma_differ_len("existance"@, "seperate"@);
    reveal_strlit("occured");
    lemma_differ_len("existance"@, "occured"@);
    reveal_strlit("neccessary");
    lemma_differ_len("existance"@, "neccessary"@);
    reveal_strlit("definately");
    lemma_differ_len("existance"@, "definately"@);
    reveal_strlit("accomodate");
    lemma_differ_len("existance"@, "accomodate"@);
    reveal_strlit("begining");
    lemma_differ_len("existance"@, "begining"@);
    reveal_strlit("beleive");
    lemma_differ_len("existance"@, "beleive"@);
    reveal_strlit("calender");
    lemma_differ_len("existance"@, "calender"@);
    reveal_strlit("cemetary");
    lemma_differ_len("existance"@, "cemetary"@);
    reveal_strlit("changable");
    lemma_differ_at("existance"@, "changable"@, 0);
    reveal_strlit("collegue");
    lemma_differ_len("existance"@, "collegue"@);
    reveal_strlit("comming");
    lemma_differ_len("existance"@, "comming"@);
    reveal_strlit("concious");
    lemma_differ_len("existance"@, "concious"@);
    reveal_strlit("dilemna");
    lemma_differ_len("existance"@, "dilemna"@);
    reveal_strlit("embarass");
    lemma_differ_len("existance"@, "embarass"@);
    reveal_strlit("enviroment");
    lemma_differ_len("existance"@, "enviroment"@);
    lemma_differ_at("existance"@, "existence"@, 5);
}

proof fn lemma_table_goverment()
    ensures
        known_misspelling("goverment"@) == Some("government"@),
        "goverment"@ != "government"@,
{
    reveal_strlit("goverment");
    reveal_strlit("government");
    lemma_differ_len("goverment"@, "government"@);
    reveal_strlit("teh");
    lemma_differ_len("goverment"@, "teh"@);
    reveal_strlit("ther");
    lemma_differ_len("goverment"@, "ther"@);
    reveal_strlit("recieve");
    lemma_differ_len("goverment"@, "recieve"@);
    reveal_strlit("seperate");
    lemma_differ_len("goverment"@, "seperate"@);
    reveal_strlit("occured");
    lemma_differ_len("goverment"@, "occured"@);
    reveal_strlit("neccessary");
    lemma_differ_len("goverment"@, "neccessary"@);
    reveal_strlit("definately");
    lemma_differ_len("goverment"@, "definately"@);
    reveal_strlit("accomodate");
    lemma_differ_len("goverment"@, "accomodate"@);
    reveal_strlit("begining");
    lemma_differ_len("goverment"@, "begining"@);
    reveal_strlit("beleive");
    lemma_differ_len("goverment"@, "beleive"@);
    reveal_strlit("calender");
    lemma_differ_len("goverment"@, "calender"@);
    reveal_strlit("cemetary");
    lemma_differ_len("goverment"@, "cemetary"@);
    reveal_strlit("changable");
    lemma_differ_at("goverment"@, "changable"@, 0);
    reveal_strlit("collegue");
    lemma_differ_len("goverment"@, "collegue"@);
    reveal_strlit("comming");
    lemma_differ_len("goverment"@, "comming"@);
    reveal_strlit("concious");
    lemma_differ_len("goverment"@, "concious"@);
    reveal_strlit("dilemna");
    lemma_differ_len("goverment"@, "dilemna"@);
    reveal_strlit("embarass");
    lemma_differ_len("goverment"@, "embarass"@);
    reveal_strlit("enviroment");
    lemma_differ_len("goverment"@, "enviroment"@);
    reveal_strlit("existance");
    lemma_differ_at("goverment"@, "existance"@, 0);
}

proof fn lemma_table_harrass()
    ensures
        known_misspelling("harrass"@) == Some("harass"@),
        "harrass"@ != "harass"@,
{
    reveal_strlit("harrass");
    reveal_strlit("harass");
    lemma_differ_len("harrass"@, "harass"@);
    reveal_strlit("teh");
    lemma_differ_len("harrass"@, "teh"@);
    reveal_strlit("ther");
    lemma_differ_len("harrass"@, "ther"@);
    reveal_strlit("recieve");
    lemma_differ_at("harrass"@, "recieve"@, 0);
    reveal_strlit("seperate");
    lemma_differ_len("harrass"@, "seperate"@);
    reveal_strlit("occured");
    lemma_differ_at("harrass"@, "occured"@, 0);
    reveal_strlit("neccessary");
    lemma_differ_len("harrass"@, "neccessary"@);
    reveal_strlit("definately");
    lemma_differ_len("harrass"@, "definately"@);
    reveal_strlit("accomodate");
    lemma_differ_len("harrass"@, "accomodate"@);
    reveal_strlit("begining");
    lemma_differ_len("harrass"@, "begining"@);
    reveal_strlit("beleive");
    lemma_differ_at("harrass"@, "beleive"@, 0);
    reveal_strlit("calender");
    lemma_differ_len("harrass"@, "calender"@);
    reveal_strlit("cemetary");
    lemma_differ_len("harrass"@, "cemetary"@);
    reveal_strlit("changable");
    lemma_differ_len("harrass"@, "changable"@);
    reveal_strlit("collegue");
    lemma_differ_len("harrass"@, "collegue"@);
    reveal_strlit("comming");
    lemma_differ_at("harrass"@, "comming"@, 0);
    reveal_strlit("concious");
    lemma_differ_len("harrass"@, "concious"@);
    reveal_strlit("dilemna");
    lemma_differ_at("harrass"@, "dilemna"@, 0);
    reveal_strlit("embarass");
    lemma_differ_len("harrass"@, "embarass"@);
    reveal_strlit("enviroment");
    lemma_differ_len("harrass"@, "enviroment"@);
    reveal_strlit("existance");
    lemma_differ_len("harrass"@, "existance"@);
    reveal_strlit("goverment");
    lemma_differ_len("harrass"@, "goverment"@);
}

proof fn lemma_table_independant()
    ensures
        known_misspelling("independant"@) == Some("independent"@),
        "independant"@ != "independent"@,
{
    reveal_strlit("independant");
    reveal_strlit("independent");
    reveal_strlit("teh");
    lemma_differ_len("independant"@, "teh"@);
    reveal_strlit("ther");
    lemma_differ_len("independant"@, "ther"@);
    reveal_strlit("recieve");
    lemma_differ_len("independant"@, "recieve"@);
    reveal_strlit("seperate");
    lemma_differ_len("independant"@, "seperate"@);
    reveal_strlit("occured");
    lemma_differ_len("independant"@, "occured"@);
    reveal_strlit("neccessary");
    lemma_differ_len("independant"@, "neccessary"@);
    reveal_strlit("definately");
    lemma_differ_len("independant"@, "definately"@);
    reveal_strlit("accomodate");
    lemma_differ_len("independant"@, "accomodate"@);
    reveal_strlit("begining");
    lemma_differ_len("independant"@, "begining"@);
    reveal_strlit("beleive");
    lemma_differ_len("independant"@, "beleive"@);
    reveal_strlit("calender");
    lemma_differ_len("independant"@, "calender"@);
    reveal_strlit("cemetary");
    lemma_differ_len("independant"@, "cemetary"@);
    reveal_strlit("changable");
    lemma_differ_len("independant"@, "changable"@);
    reveal_strlit("collegue");
    lemma_differ_len("independant"@, "collegue"@);
    reveal_strlit("comming");
    lemma_differ_len("independant"@, "comming"@);
    reveal_strlit("concious");
    lemma_differ_len("independant"@, "concious"@);
    reveal_strlit("dilemna");
    lemma_differ_len("independant"@, "dilemna"@);
    reveal_strlit("embarass");
    lemma_differ_len("independant"@, "embarass"@);
    reveal_strlit("enviroment");
    lemma_differ_len("independant"@, "enviroment"@);
    reveal_strlit("existance");
    lemma_differ_len("independant"@, "existance"@);
    reveal_strlit("goverment");
    lemma_differ_len("independant"@, "goverment"@);
    reveal_strlit("harrass");
    lemma_differ_len("independant"@, "harrass"@);
    lemma_differ_at("independant"@, "independent"@, 8);
}

proof fn lemma_table_judgement()
    ensures
        known_misspelling("judgement"@) == Some("judgment"@),
        "judgement"@ != "judgment"@,
{
    reveal_strlit("judgement");
    reveal_strlit("judgment");
    lemma_differ_len("judgement"@, "judgment"@);
    reveal_strlit("teh");
    lemma_differ_len("judgement"@, "teh"@);
    reveal_strlit("ther");
    lemma_differ_len("judgement"@, "ther"@);
    reveal_strlit("recieve");
    lemma_differ_len("judgement"@, "recieve"@);
    reveal_strlit("seperate");
    lemma_differ_len("judgement"@, "seperate"@);
    reveal_strlit("occured");
    lemma_differ_len("judgement"@, "occured"@);
    reveal_strlit("neccessary");
    lemma_differ_len("judgement"@, "neccessary"@);
    reveal_strlit("definately");
    lemma_differ_len("judgement"@, "definately"@);
    reveal_strlit("accomodate");
    lemma_differ_len("judgement"@, "accomodate"@);
    reveal_strlit("begining");
    lemma_differ_len("judgement"@, "begining"@);
    reveal_strlit("beleive");
    lemma_differ_len("judgement"@, "beleive"@);
    reveal_strlit("calender");
    lemma_differ_len("judgement"@, "calender"@);
    reveal_strlit("cemetary");
    lemma_differ_len("judgement"@, "cemetary"@);
    reveal_strlit("changable");
    lemma_differ_at("judgement"@, "changable"@, 0);
    reveal_strlit("collegue");
    lemma_differ_len("judgement"@, "collegue"@);
    reveal_strlit("comming");
    lemma_differ_len("judgement"@, "comming"@);
    reveal_strlit("concious");
    lemma_differ_len("judgement"@, "concious"@);
    reveal_strlit("dilemna");
    lemma_differ_len("judgement"@, "dilemna"@);
    reveal_strlit("embarass");
    lemma_differ_len("judgement"@, "embarass"@);
    reveal_strlit("enviroment");
    lemma_differ_len("judgement"@, "enviroment"@);
    reveal_strlit("existance");
    lemma_differ_at("judgement"@, "existance"@, 0);
    reveal_strlit("goverment");
    lemma_differ_at("judgement"@, "goverment"@, 0);
    reveal_strlit("harrass");
    lemma_differ_len("judgement"@, "harrass"@);
    reveal_strlit("independant");
    lemma_differ_len("judgement"@, "independant"@);
}

proof fn lemma_table_knowlege()
    ensures
        known_misspelling("knowlege"@) == Some("knowledge"@),
        "knowlege"@ != "knowledge"@,
{
    reveal_strlit("knowlege");
    reveal_strlit("knowledge");
    lemma_differ_len("knowlege"@, "knowledge"@);
    reveal_strlit("teh");
    lemma_differ_len("knowlege"@, "teh"@);
    reveal_strlit("ther");
    lemma_differ_len("knowlege"@, "ther"@);
    reveal_strlit("recieve");
    lemma_differ_len("knowlege"@, "recieve"@);
    reveal_strlit("seperate");
    lemma_differ_at("knowlege"@, "seperate"@, 0);
    reveal_strlit("occured");
    lemma_differ_len("knowlege"@, "occured"@);
    reveal_strlit("neccessary");
    lemma_differ_len("knowlege"@, "neccessary"@);
    reveal_strlit("definately");
    lemma_differ_len("knowlege"@, "definately"@);
    reveal_strlit("accomodate");
    lemma_differ_len("knowlege"@, "accomodate"@);
    reveal_strlit("begining");
    lemma_differ_at("knowlege"@, "begining"@, 0);
    reveal_strlit("beleive");
    lemma_differ_len("knowlege"@, "beleive"@);
    reveal_strlit("calender");
    lemma_differ_at("knowlege"@, "calender"@, 0);
    reveal_strlit("cemetary");
    lemma_differ_at("knowlege"@, "cemetary"@, 0);
    reveal_strlit("changable");
    lemma_differ_len("knowlege"@, "changable"@);
    reveal_strlit("collegue");
    lemma_differ_at("knowlege"@, "collegue"@, 0);
    reveal_strlit("comming");
    lemma_differ_len("knowlege"@, "comming"@);
    reveal_strlit("concious");
    lemma_differ_at("knowlege"@, "concious"@, 0);
    reveal_strlit("dilemna");
    lemma_differ_len("knowlege"@, "dilemna"@);
    reveal_strlit("embarass");
    lemma_differ_at("knowlege"@, "embarass"@, 0);
    reveal_strlit("enviroment");
    lemma_differ_len("knowlege"@, "enviroment"@);
    reveal_strlit("existance");
    lemma_differ_len("knowlege"@, "existance"@);
    reveal_strlit("goverment");
    lemma_differ_len("knowlege"@, "goverment"@);
    reveal_strlit("harrass");
    lemma_differ_len("knowlege"@, "harrass"@);
    reveal_strlit("independant");
    lemma_differ_len("knowlege"@, "independant"@);
    reveal_strlit("judgement");
    lemma_differ_len("knowlege"@, "judgement"@);
}

proof fn lemma_table_liason()
    ensures
        known_misspelling("liason"@) == Some("liaison"@),
        "liason"@ != "liaison"@,
{
    reveal_strlit("liason");
    reveal_strlit("liaison");
    lemma_differ_len("liason"@, "liaison"@);
    reveal_strlit("teh");
    lemma_differ_len("liason"@, "teh"@);
    reveal_strlit("ther");
    lemma_differ_len("liason"@, "ther"@);
    reveal_strlit("recieve");
    lemma_differ_len("liason"@, "recieve"@);
    reveal_strlit("seperate");
    lemma_differ_len("liason"@, "seperate"@);
    reveal_strlit("occured");
    lemma_differ_len("liason"@, "occured"@);
    reveal_strlit("neccessary");
    lemma_differ_len("liason"@, "neccessary"@);
    reveal_strlit("definately");
    lemma_differ_len("liason"@, "definately"@);
    reveal_strlit("accomodate");
    lemma_differ_len("liason"@, "accomodate"@);
    reveal_strlit("begining");
    lemma_differ_len("liason"@, "begining"@);
    reveal_strlit("beleive");
    lemma_differ_len("liason"@, "beleive"@);
    reveal_strlit("calender");
    lemma_differ_len("liason"@, "calender"@);
    reveal_strlit("cemetary");
    lemma_differ_len("liason"@, "cemetary"@);
    reveal_strlit("changable");
    lemma_differ_len("liason"@, "changable"@);
    reveal_strlit("collegue");
    lemma_differ_len("liason"@, "collegue"@);
    reveal_strlit("comming");
    lemma_differ_len("liason"@, "comming"@);
    reveal_strlit("concious");
    lemma_differ_len("liason"@, "concious"@);
    reveal_strlit("dilemna");
    lemma_differ_len("liason"@, "dilemna"@);
    reveal_strlit("embarass");
    lemma_differ_len("liason"@, "embarass"@);
    reveal_strlit("enviroment");
    lemma_differ_len("liason"@, "enviroment"@);
    reveal_strlit("existance");
    lemma_differ_len("liason"@, "existance"@);
    reveal_strlit("goverment");
    lemma_differ_len("liason"@, "goverment"@);
    reveal_strlit("harrass");
    lemma_differ_len("liason"@, "harrass"@);
    reveal_strlit("independant");
    lemma_differ_len("liason"@, "independant"@);
    reveal_strlit("judgement");
    lemma_differ_len("liason"@, "judgement"@);
    reveal_strlit("knowlege");
    lemma_differ_len("liason"@, "knowlege"@);
}

proof fn lemma_table_maintainance()
    ensures
        known_misspelling("maintainance"@) == Some("maintenance"@),
        "maintainance"@ != "maintenance"@,
{
    reveal_strlit("maintainance");
    reveal_strlit("maintenance");
    lemma_differ_len("maintainance"@, "maintenance"@);
    reveal_strlit("teh");
    lemma_differ_len("maintainance"@, "teh"@);
    reveal_strlit("ther");
    lemma_differ_len("maintainance"@, "ther"@);
    reveal_strlit("recieve");
    lemma_differ_len("maintainance"@, "recieve"@);
    reveal_strlit("seperate");
    lemma_differ_len("maintainance"@, "seperate"@);
    reveal_strlit("occured");
    lemma_differ_len("maintainance"@, "occured"@);
    reveal_strlit("neccessary");
    lemma_differ_len("maintainance"@, "neccessary"@);
    reveal_strlit("definately");
    lemma_differ_len("maintainance"@, "definately"@);
    reveal_strlit("accomodate");
    lemma_differ_len("maintainance"@, "accomodate"@);
    reveal_strlit("begining");
    lemma_differ_len("maintainance"@, "begining"@);
    reveal_strlit("beleive");
    lemma_differ_len("maintainance"@, "beleive"@);
    reveal_strlit("calender");
    lemma_differ_len("maintainance"@, "calender"@);
    reveal_strlit("cemetary");
    lemma_differ_len("maintainance"@, "cemetary"@);
    reveal_strlit("changable");
    lemma_differ_len("maintainance"@, "changable"@);
    reveal_strlit("collegue");
    lemma_differ_len("maintainance"@, "collegue"@);
    reveal_strlit("comming");
    lemma_differ_len("maintainance"@, "comming"@);
    reveal_strlit("concious");
    lemma_differ_len("maintainance"@, "concious"@);
    reveal_strlit("dilemna");
    lemma_differ_len("maintainance"@, "dilemna"@);
    reveal_strlit("embarass");
    lemma_differ_len("maintainance"@, "embarass"@);
    reveal_strlit("enviroment");
    lemma_differ_len("maintainance"@, "enviroment"@);
    reveal_strlit("existance");
    lemma_differ_len("maintainance"@, "existance"@);
    reveal_strlit("goverment");
    lemma_differ_len("maintainance"@, "goverment"@);
    reveal_strlit("harrass");
    lemma_differ_len("maintainance"@, "harrass"@);
    reveal_strlit("independant");
    lemma_differ_len("maintainance"@, "independant"@);
    reveal_strlit("judgement");
    lemma_differ_len("maintainance"@, "judgement"@);
    reveal_strlit("knowlege");
    lemma_differ_len("maintainance"@, "knowlege"@);
    reveal_strlit("liason");
    lemma_differ_len("maintainance"@, "liason"@);
}

proof fn lemma_table_noticable()
    ensures
        known_misspelling("noticable"@) == Some("noticeable"@),
        "noticable"@ != "noticeable"@,
{
    reveal_strlit("noticable");
    reveal_strlit("noticeable");
    lemma_differ_len("noticable"@, "noticeable"@);
    reveal_strlit("teh");
    lemma_differ_len("noticable"@, "teh"@);
    reveal_strlit("ther");
    lemma_differ_len("noticable"@, "ther"@);
    reveal_strlit("recieve");
    lemma_differ_len("noticable"@, "recieve"@);
    reveal_strlit("seperate");
    lemma_differ_len("noticable"@, "seperate"@);
    reveal_strlit("occured");
    lemma_differ_len("noticable"@, "occured"@);
    reveal_strlit("neccessary");
    lemma_differ_len("noticable"@, "neccessary"@);
    reveal_strlit("definately");
    lemma_differ_len("noticable"@, "definately"@);
    reveal_strlit("accomodate");
    lemma_differ_len("noticable"@, "accomodate"@);
    reveal_strlit("begining");
    lemma_differ_len("noticable"@, "begining"@);
    reveal_strlit("beleive");
    lemma_differ_len("noticable"@, "beleive"@);
    reveal_strlit("calender");
    lemma_differ_len("noticable"@, "calender"@);
    reveal_strlit("cemetary");
    lemma_differ_len("noticable"@, "cemetary"@);
    reveal_strlit("changable");
    lemma_differ_at("noticable"@, "changable"@, 0);
    reveal_strlit("collegue");
    lemma_differ_len("noticable"@, "collegue"@);
    reveal_strlit("comming");
    lemma_differ_len("noticable"@, "comming"@);
    reveal_strlit("concious");
    lemma_differ_len("noticable"@, "concious"@);
    reveal_strlit("dilemna");
    lemma_differ_len("noticable"@, "dilemna"@);
    reveal_strlit("embarass");
    lemma_differ_len("noticable"@, "embarass"@);
    reveal_strlit("enviroment");
    lemma_differ_len("noticable"@, "enviroment"@);
    reveal_strlit("existance");
    lemma_differ_at("noticable"@, "existance"@, 0);
    reveal_strlit("goverment");
    lemma_differ_at("noticable"@, "goverment"@, 0);
    reveal_strlit("harrass");
    lemma_differ_len("noticable"@, "harrass"@);
    reveal_strlit("independant");
    lemma_differ_len("noticable"@, "independant"@);
    reveal_strlit("judgement");
    lemma_differ_at("noticable"@, "judgement"@, 0);
    reveal_strlit("knowlege");
    lemma_differ_len("noticable"@, "knowlege"@);
    reveal_strlit("liason");
    lemma_differ_len("noticable"@, "liason"@);
    reveal_strlit("maintainance");
    lemma_differ_len("noticable"@, "maintainance"@);
}

proof fn lemma_table_occassion()
    ensures
        known_misspelling("occassion"@) == Some("occasion"@),
        "occassion"@ != "occasion"@,
{
    reveal_strlit("occassion");
    reveal_strlit("occasion");
    lemma_differ_len("occassion"@, "occasion"@);
    reveal_strlit("teh");
    lemma_differ_len("occassion"@, "teh"@);
    reveal_strlit("ther");
    lemma_differ_len("occassion"@, "ther"@);
    reveal_strlit("recieve");
    lemma_differ_len("occassion"@, "recieve"@);
    reveal_strlit("seperate");
    lemma_differ_len("occassion"@, "seperate"@);
    reveal_strlit("occured");
    lemma_differ_len("occassion"@, "occured"@);
    reveal_strlit("neccessary");
    lemma_differ_len("occassion"@, "neccessary"@);
    reveal_strlit("definately");
    lemma_differ_len("occassion"@, "definately"@);
    reveal_strlit("accomodate");
    lemma_differ_len("occassion"@, "accomodate"@);
    reveal_strlit("begining");
    lemma_differ_len("occassion"@, "begining"@);
    reveal_strlit("beleive");
    lemma_differ_len("occassion"@, "beleive"@);
    reveal_strlit("calender");
    lemma_differ_len("occassion"@, "calender"@);
    reveal_strlit("cemetary");
    lemma_differ_len("occassion"@, "cemetary"@);
    reveal_strlit("changable");
    lemma_differ_at("occassion"@, "changable"@, 0);
    reveal_strlit("collegue");
    lemma_differ_len("occassion"@, "collegue"@);
    reveal_strlit("comming");
    lemma_differ_len("occassion"@, "comming"@);
    reveal_strlit("concious");
    lemma_differ_len("occassion"@, "concious"@);
    reveal_strlit("dilemna");
    lemma_differ_len("occassion"@, "dilemna"@);
    reveal_strlit("embarass");
    lemma_differ_len("occassion"@, "embarass"@);
    reveal_strlit("enviroment");
    lemma_differ_len("occassion"@, "enviroment"@);
    reveal_strlit("existance");
    lemma_differ_at("occassion"@, "existance"@, 0);
    reveal_strlit("goverment");
    lemma_differ_at("occassion"@, "goverment"@, 0);
    reveal_strlit("harrass");
    lemma_differ_len("occassion"@, "harrass"@);
    reveal_strlit("independant");
    lemma_differ_len("occassion"@, "independant"@);
    reveal_strlit("judgement");
    lemma_differ_at("occassion"@, "judgement"@, 0);
    reveal_strlit("knowlege");
    lemma_differ_len("occassion"@, "knowlege"@);
    reveal_strlit("liason");
    lemma_differ_len("occassion"@, "liason"@);
    reveal_strlit("maintainance");
    lemma_differ_len("occassion"@, "maintainance"@);
    reveal_strlit("noticable");
    lemma_differ_at("occassion"@, "noticable"@, 0);
}

proof fn lemma_table_perseverence()
    ensures
        known_misspelling("perseverence"@) == Some("perseverance"@),
        "perseverence"@ != "perseverance"@,
{
    reveal_strlit("perseverence");
    reveal_strlit("perseverance");
    reveal_strlit("teh");
    lemma_differ_len("perseverence"@, "teh"@);
    reveal_strlit("ther");
    lemma_differ_len("perseverence"@, "ther"@);
    reveal_strlit("recieve");
    lemma_differ_len("perseverence"@, "recieve"@);
    reveal_strlit("seperate");
    lemma_differ_len("perseverence"@, "seperate"@);
    reveal_strlit("occured");
    lemma_differ_len("perseverence"@, "occured"@);
    reveal_strlit("neccessary");
    lemma_differ_len("perseverence"@, "neccessary"@);
    reveal_strlit("definately");
    lemma_differ_len("perseverence"@, "definately"@);
    reveal_strlit("accomodate");
    lemma_differ_len("perseverence"@, "accomodate"@);
    reveal_strlit("begining");
    lemma_differ_len("perseverence"@, "begining"@);
    reveal_strlit("beleive");
    lemma_differ_len("perseverence"@, "beleive"@);
    reveal_strlit("calender");
    lemma_differ_len("perseverence"@, "calender"@);
    reveal_strlit("cemetary");
    lemma_differ_len("perseverence"@, "cemetary"@);
    reveal_strlit("changable");
    lemma_differ_len("perseverence"@, "changable"@);
    reveal_strlit("collegue");
    lemma_differ_len("perseverence"@, "collegue"@);
    reveal_strlit("comming");
    lemma_differ_len("perseverence"@, "comming"@);
    reveal_strlit("concious");
    lemma_differ_len("perseverence"@, "concious"@);
    reveal_strlit("dilemna");
    lemma_differ_len("perseverence"@, "dilemna"@);
    reveal_strlit("embarass");
    lemma_differ_len("perseverence"@, "embarass"@);
    reveal_strlit("enviroment");
    lemma_differ_len("perseverence"@, "enviroment"@);
    reveal_strlit("existance");
    lemma_differ_len("perseverence"@, "existance"@);
    reveal_strlit("goverment");
    lemma_differ_len("perseverence"@, "goverment"@);
    reveal_strlit("harrass");
    lemma_differ_len("perseverence"@, "harrass"@);
    reveal_strlit("independant");
    lemma_differ_len("perseverence"@, "independant"@);
    reveal_strlit("judgement");
    lemma_differ_len("perseverence"@, "judgement"@);
    reveal_strlit("knowlege");
    lemma_differ_len("perseverence"@, "knowlege"@);
    reveal_strlit("liason");
    lemma_differ_len("perseverence"@, "liason"@);
    reveal_strlit("maintainance");
    lemma_differ_at("perseverence"@, "maintainance"@, 0);
    reveal_strlit("noticable");
    lemma_differ_len("perseverence"@, "noticable"@);
    reveal_strlit("occassion");
    lemma_differ_len("perseverence"@, "occassion"@);
    lemma_differ_at("perseverence"@, "perseverance"@, 8);
}

proof fn lemma_table_priviledge()
    ensures
        known_misspelling("priviledge"@) == Some("privilege"@),
        "priviledge"@ != "privilege"@,
{
    reveal_strlit("priviledge");
    reveal_strlit("privilege");
    lemma_differ_len("priviledge"@, "privilege"@);
    reveal_strlit("teh");
    lemma_differ_len("priviledge"@, "teh"@);
    reveal_strlit("ther");
    lemma_differ_len("priviledge"@, "ther"@);
    reveal_strlit("recieve");
    lemma_differ_len("priviledge"@, "recieve"@);
    reveal_strlit("seperate");
    lemma_differ_len("priviledge"@, "seperate"@);
    reveal_strlit("occured");
    lemma_differ_len("priviledge"@, "occured"@);
    reveal_strlit("neccessary");
    lemma_differ_at("priviledge"@, "neccessary"@, 0);
    reveal_strlit("definately");
    lemma_differ_at("priviledge"@, "definately"@, 0);
    reveal_strlit("accomodate");
    lemma_differ_at("priviledge"@, "accomodate"@, 0);
    reveal_strlit("begining");
    lemma_differ_len("priviledge"@, "begining"@);
    reveal_strlit("beleive");
    lemma_differ_len("priviledge"@, "beleive"@);
    reveal_strlit("calender");
    lemma_differ_len("priviledge"@, "calender"@);
    reveal_strlit("cemetary");
    lemma_differ_len("priviledge"@, "cemetary"@);
    reveal_strlit("changable");
    lemma_differ_len("priviledge"@, "changable"@);
    reveal_strlit("collegue");
    lemma_differ_len("priviledge"@, "collegue"@);
    reveal_strlit("comming");
    lemma_differ_len("priviledge"@, "comming"@);
    reveal_strlit("concious");
    lemma_differ_len("priviledge"@, "concious"@);
    reveal_strlit("dilemna");
    lemma_differ_len("priviledge"@, "dilemna"@);
    reveal_strlit("embarass");
    lemma_differ_len("priviledge"@, "embarass"@);
    reveal_strlit("enviroment");
    lemma_differ_at("priviledge"@, "enviroment"@, 0);
    reveal_strlit("existance");
    lemma_differ_len("priviledge"@, "existance"@);
    reveal_strlit("goverment");
    lemma_differ_len("priviledge"@, "goverment"@);
    reveal_strlit("harrass");
    lemma_differ_len("priviledge"@, "harrass"@);
    reveal_strlit("independant");
    lemma_differ_len("priviledge"@, "independant"@);
    reveal_strlit("judgement");
    lemma_differ_len("priviledge"@, "judgement"@);
    reveal_strlit("knowlege");
    lemma_differ_len("priviledge"@, "knowlege"@);
    reveal_strlit("liason");
    lemma_differ_len("priviledge"@, "liason"@);
    reveal_strlit("maintainance");
    lemma_differ_len("priviledge"@, "maintainance"@);
    reveal_strlit("noticable");
    lemma_differ_len("priviledge"@, "noticable"@);
    reveal_strlit("occassion");
    lemma_differ_len("priviledge"@, "occassion"@);
    reveal_strlit("perseverence");
    lemma_differ_len("priviledge"@, "perseverence"@);
}

proof fn lemma_table_questionaire()
    ensures
        known_misspelling("questionaire"@) == Some("questionnaire"@),
        "questionaire"@ != "questionnaire"@,
{
    reveal_strlit("questionaire");
    reveal_strlit("questionnaire");
    lemma_differ_len("questionaire"@, "questionnaire"@);
    reveal_strlit("teh");
    lemma_differ_len("questionaire"@, "teh"@);
    reveal_strlit("ther");
    lemma_differ_len("questionaire"@, "ther"@);
    reveal_strlit("recieve");
    lemma_differ_len("questionaire"@, "recieve"@);
    reveal_strlit("seperate");
    lemma_differ_len("questionaire"@, "seperate"@);
    reveal_strlit("occured");
    lemma_differ_len("questionaire"@, "occured"@);
    reveal_strlit("neccessary");
    lemma_differ_len("questionaire"@, "neccessary"@);
    reveal_strlit("definately");
    lemma_differ_len("questionaire"@, "definately"@);
    reveal_strlit("accomodate");
    lemma_differ_len("questionaire"@, "accomodate"@);
    reveal_strlit("begining");
    lemma_differ_len("questionaire"@, "begining"@);
    reveal_strlit("beleive");
    lemma_differ_len("questionaire"@, "beleive"@);
    reveal_strlit("calender");
    lemma_differ_len("questionaire"@, "calender"@);
    reveal_strlit("cemetary");
    lemma_differ_len("questionaire"@, "cemetary"@);
    reveal_strlit("changable");
    lemma_differ_len("questionaire"@, "changable"@);
    reveal_strlit("collegue");
    lemma_differ_len("questionaire"@, "collegue"@);
    reveal_strlit("comming");
    lemma_differ_len("questionaire"@, "comming"@);
    reveal_strlit("concious");
    lemma_differ_len("questionaire"@, "concious"@);
    reveal_strlit("dilemna");
    lemma_differ_len("questionaire"@, "dilemna"@);
    reveal_strlit("embarass");
    lemma_differ_len("questionaire"@, "embarass"@);
    reveal_strlit("enviroment");
    lemma_differ_len("questionaire"@, "enviroment"@);
    reveal_strlit("existance");
    lemma_differ_len("questionaire"@, "existance"@);
    reveal_strlit("goverment");
    lemma_differ_len("questionaire"@, "goverment"@);
    reveal_strlit("harrass");
    lemma_differ_len("questionaire"@, "harrass"@);
    reveal_strlit("independant");
    lemma_differ_len("questionaire"@, "independant"@);
    reveal_strlit("judgement");
    lemma_differ_len("questionaire"@, "judgement"@);
    reveal_strlit("knowlege");
    lemma_differ_len("questionaire"@, "knowlege"@);
    reveal_strlit("liason");
    lemma_differ_len("questionaire"@, "liason"@);
    reveal_strlit("maintainance");
    lemma_differ_at("questionaire"@, "maintainance"@, 0);
    reveal_strlit("noticable");
    lemma_differ_len("questionaire"@, "noticable"@);
    reveal_strlit("occassion");
    lemma_differ_len("questionaire"@, "occassion"@);
    reveal_strlit("perseverence");
    lemma_differ_at("questionaire"@, "perseverence"@, 0);
    reveal_strlit("priviledge");
    lemma_differ_len("questionaire"@, "priviledge"@);
}

proof fn lemma_table_recomend()
    ensures
        known_misspelling("recomend"@) == Some("recommend"@),
        "recomend"@ != "recommend"@,
{
    reveal_strlit("recomend");
    reveal_strlit("recommend");
    lemma_differ_len("recomend"@, "recommend"@);
    reveal_strlit("teh");
    lemma_differ_len("recomend"@, "teh"@);
    reveal_strlit("ther");
    lemma_differ_len("recomend"@, "ther"@);
    reveal_strlit("recieve");
    lemma_differ_len("recomend"@, "recieve"@);
    reveal_strlit("seperate");
    lemma_differ_at("recomend"@, "seperate"@, 0);
    reveal_strlit("occured");
    lemma_differ_len("recomend"@, "occured"@);
    reveal_strlit("neccessary");
    lemma_differ_len("recomend"@, "neccessary"@);
    reveal_strlit("definately");
    lemma_differ_len("recomend"@, "definately"@);
    reveal_strlit("accomodate");
    lemma_differ_len("recomend"@, "accomodate"@);
    reveal_strlit("begining");
    lemma_differ_at("recomend"@, "begining"@, 0);
    reveal_strlit("beleive");
    lemma_differ_len("recomend"@, "beleive"@);
    reveal_strlit("calender");
    lemma_differ_at("recomend"@, "calender"@, 0);
    reveal_strlit("cemetary");
    lemma_differ_at("recomend"@, "cemetary"@, 0);
    reveal_strlit("changable");
    lemma_differ_len("recomend"@, "changable"@);
    reveal_strlit("collegue");
    lemma_differ_at("recomend"@, "collegue"@, 0);
    reveal_strlit("comming");
    lemma_differ_len("recomend"@, "comming"@);
    reveal_strlit("concious");
    lemma_differ_at("recomend"@, "concious"@, 0);
    reveal_strlit("dilemna");
    lemma_differ_len("recomend"@, "dilemna"@);
    reveal_strlit("embarass");
    lemma_differ_at("recomend"@, "embarass"@, 0);
    reveal_strlit("enviroment");
    lemma_differ_len("recomend"@, "enviroment"@);
    reveal_strlit("existance");
    lemma_differ_len("recomend"@, "existance"@);
    reveal_strlit("goverment");
    lemma_differ_len("recomend"@, "goverment"@);
    reveal_strlit("harrass");
    lemma_differ_len("recomend"@, "harrass"@);
    reveal_strlit("independant");
    lemma_differ_len("recomend"@, "independant"@);
    reveal_strlit("judgement");
    lemma_differ_len("recomend"@, "judgement"@);
    reveal_strlit("knowlege");
    lemma_differ_at("recomend"@, "knowlege"@, 0);
    reveal_strlit("liason");
    lemma_differ_len("recomend"@, "liason"@);
    reveal_strlit("maintainance");
    lemma_differ_len("recomend"@, "maintainance"@);
    reveal_strlit("noticable");
    lemma_differ_len("recomend"@, "noticable"@);
    reveal_strlit("occassion");
    lemma_differ_len("recomend"@, "occassion"@);
    reveal_strlit("perseverence");
    lemma_differ_len("recomend"@, "perseverence"@);
    reveal_strlit("priviledge");
    lemma_differ_len("recomend"@, "priviledge"@);
    reveal_strlit("questionaire");
    lemma_differ_len("recomend"@, "questionaire"@);
}

proof fn lemma_table_succesful()
    ensures
        known_misspelling("succesful"@) == Some("successful"@),
        "succesful"@ != "successful"@,
{
    reveal_strlit("succesful");
    reveal_strlit("successful");
    lemma_differ_len("succesful"@, "successful"@);
    reveal_strlit("teh");
    lemma_differ_len("succesful"@, "teh"@);
    reveal_strlit("ther");
    lemma_differ_len("succesful"@, "ther"@);
    reveal_strlit("recieve");
    lemma_differ_len("succesful"@, "recieve"@);
    reveal_strlit("seperate");
    lemma_differ_len("succesful"@, "seperate"@);
    reveal_strlit("occured");
    lemma_differ_len("succesful"@, "occured"@);
    reveal_strlit("neccessary");
    lemma_differ_len("succesful"@, "neccessary"@);
    reveal_strlit("definately");
    lemma_differ_len("succesful"@, "definately"@);
    reveal_strlit("accomodate");
    lemma_differ_len("succesful"@, "accomodate"@);
    reveal_strlit("begining");
    lemma_differ_len("succesful"@, "begining"@);
    reveal_strlit("beleive");
    lemma_differ_len("succesful"@, "beleive"@);
    reveal_strlit("calender");
    lemma_differ_len("succesful"@, "calender"@);
    reveal_strlit("cemetary");
    lemma_differ_len("succesful"@, "cemetary"@);
    reveal_strlit("changable");
    lemma_differ_at("succesful"@, "changable"@, 0);
    reveal_strlit("collegue");
    lemma_differ_len("succesful"@, "collegue"@);
    reveal_strlit("comming");
    lemma_differ_len("succesful"@, "comming"@);
    reveal_strlit("concious");
    lemma_differ_len("succesful"@, "concious"@);
    reveal_strlit("dilemna");
    lemma_differ_len("succesful"@, "dilemna"@);
    reveal_strlit("embarass");
    lemma_differ_len("succesful"@, "embarass"@);
    reveal_strlit("enviroment");
    lemma_differ_len("succesful"@, "enviroment"@);
    reveal_strlit("existance");
    lemma_differ_at("succesful"@, "existance"@, 0);
    reveal_strlit("goverment");
    lemma_differ_at("succesful"@, "goverment"@, 0);
    reveal_strlit("harrass");
    lemma_differ_len("succesful"@, "harrass"@);
    reveal_strlit("independant");
    lemma_differ_len("succesful"@, "independant"@);
    reveal_strlit("judgement");
    lemma_differ_at("succesful"@, "judgement"@, 0);
    reveal_strlit("knowlege");
    lemma_differ_len("succesful"@, "knowlege"@);
    reveal_strlit("liason");
    lemma_differ_len("succesful"@, "liason"@);
    reveal_strlit("maintainance");
    lemma_differ_len("succesful"@, "maintainance"@);
    reveal_strlit("noticable");
    lemma_differ_at("succesful"@, "noticable"@, 0);
    reveal_strlit("occassion");
    lemma_differ_at("succesful"@, "occassion"@, 0);
    reveal_strlit("perseverence");
    lemma_differ_len("succesful"@, "perseverence"@);
    reveal_strlit("priviledge");
    lemma_differ_len("succesful"@, "priviledge"@);
    reveal_strlit("questionaire");
    lemma_differ_len("succesful"@, "questionaire"@);
    reveal_strlit("recomend");
    lemma_differ_len("succesful"@, "recomend"@);
}

proof fn lemma_table_tommorow()
    ensures
        known_misspelling("tommorow"@) == Some("tomorrow"@),
        "tommorow"@ != "tomorrow"@,
{
    reveal_strlit("tommorow");
    reveal_strlit("tomorrow");
    reveal_strlit("teh");
    lemma_differ_len("tommorow"@, "teh"@);
    reveal_strlit("ther");
    lemma_differ_len("tommorow"@, "ther"@);
    reveal_strlit("recieve");
    lemma_differ_len("tommorow"@, "recieve"@);
    reveal_strlit("seperate");
    lemma_differ_at("tommorow"@, "seperate"@, 0);
    reveal_strlit("occured");
    lemma_differ_len("tommorow"@, "occured"@);
    reveal_strlit("neccessary");
    lemma_differ_len("tommorow"@, "neccessary"@);
    reveal_strlit("definately");
    lemma_differ_len("tommorow"@, "definately"@);
    reveal_strlit("accomodate");
    lemma_differ_len("tommorow"@, "accomodate"@);
    reveal_strlit("begining");
    lemma_differ_at("tommorow"@, "begining"@, 0);
    reveal_strlit("beleive");
    lemma_differ_len("tommorow"@, "beleive"@);
    reveal_strlit("calender");
    lemma_differ_at("tommorow"@, "calender"@, 0);
    reveal_strlit("cemetary");
    lemma_differ_at("tommorow"@, "cemetary"@, 0);
    reveal_strlit("changable");
    lemma_differ_len("tommorow"@, "changable"@);
    reveal_strlit("collegue");
    lemma_differ_at("tommorow"@, "collegue"@, 0);
    reveal_strlit("comming");
    lemma_differ_len("tommorow"@, "comming"@);
    reveal_strlit("concious");
    lemma_differ_at("tommorow"@, "concious"@, 0);
    reveal_strlit("dilemna");
    lemma_differ_len("tommorow"@, "dilemna"@);
    reveal_strlit("embarass");
    lemma_differ_at("tommorow"@, "embarass"@, 0);
    reveal_strlit("enviroment");
    lemma_differ_len("tommorow"@, "enviroment"@);
    reveal_strlit("existance");
    lemma_differ_len("tommorow"@, "existance"@);
    reveal_strlit("goverment");
    lemma_differ_len("tommorow"@, "goverment"@);
    reveal_strlit("harrass");
    lemma_differ_len("tommorow"@, "harrass"@);
    reveal_strlit("independant");
    lemma_differ_len("tommorow"@, "independant"@);
    reveal_strlit("judgement");
    lemma_differ_len("tommorow"@, "judgement"@);
    reveal_strlit("knowlege");
    lemma_differ_at("tommorow"@, "knowlege"@, 0);
    reveal_strlit("liason");
    lemma_differ_len("tommorow"@, "liason"@);
    reveal_strlit("maintainance");
    lemma_differ_len("tommorow"@, "maintainance"@);
    reveal_strlit("noticable");
    lemma_differ_len("tommorow"@, "noticable"@);
    reveal_strlit("occassion");
    lemma_differ_len("tommorow"@, "occassion"@);
    reveal_strlit("perseverence");
    lemma_differ_len("tommorow"@, "perseverence"@);
    reveal_strlit("priviledge");
    lemma_differ_len("tommorow"@, "priviledge"@);
    reveal_strlit("questionaire");
    lemma_differ_len("tommorow"@, "questionaire"@);
    reveal_strlit("recomend");
    lemma_differ_at("tommorow"@, "recomend"@, 0);
    reveal_strlit("succesful");
    lemma_differ_len("tommorow"@, "succesful"@);
    lemma_differ_at("tommorow"@, "tomorrow"@, 3);
}

proof fn lemma_table_untill()
    ensures
        known_misspelling("untill"@) == Some("until"@),
        "untill"@ != "until"@,
{
    reveal_strlit("untill");
    reveal_strlit("until");
    lemma_differ_len("untill"@, "until"@);
    reveal_strlit("teh");
    lemma_differ_len("untill"@, "teh"@);
    reveal_strlit("ther");
    lemma_differ_len("untill"@, "ther"@);
    reveal_strlit("recieve");
    lemma_differ_len("untill"@, "recieve"@);
    reveal_strlit("seperate");
    lemma_differ_len("untill"@, "seperate"@);
    reveal_strlit("occured");
    lemma_differ_len("untill"@, "occured"@);
    reveal_strlit("neccessary");
    lemma_differ_len("untill"@, "neccessary"@);
    reveal_strlit("definately");
    lemma_differ_len("untill"@, "definately"@);
    reveal_strlit("accomodate");
    lemma_differ_len("untill"@, "accomodate"@);
    reveal_strlit("begining");
    lemma_differ_len("untill"@, "begining"@);
    reveal_strlit("beleive");
    lemma_differ_len("untill"@, "beleive"@);
    reveal_strlit("calender");
    lemma_differ_len("untill"@, "calender"@);
    reveal_strlit("cemetary");
    lemma_differ_len("untill"@, "cemetary"@);
    reveal_strlit("changable");
    lemma_differ_len("untill"@, "changable"@);
    reveal_strlit("collegue");
    lemma_differ_len("untill"@, "collegue"@);
    reveal_strlit("comming");
    lemma_differ_len("untill"@, "comming"@);
    reveal_strlit("concious");
    lemma_differ_len("untill"@, "concious"@);
    reveal_strlit("dilemna");
    lemma_differ_len("untill"@, "dilemna"@);
    reveal_strlit("embarass");
    lemma_differ_len("untill"@, "embarass"@);
    reveal_strlit("enviroment");
    lemma_differ_len("untill"@, "enviroment"@);
    reveal_strlit("existance");
    lemma_differ_len("untill"@, "existance"@);
    reveal_strlit("goverment");
    lemma_differ_len("untill"@, "goverment"@);
    reveal_strlit("harrass");
    lemma_differ_len("untill"@, "harrass"@);
    reveal_strlit("independant");
    lemma_differ_len("untill"@, "independant"@);
    reveal_strlit("judgement");
    lemma_differ_len("untill"@, "judgement"@);
    reveal_strlit("knowlege");
    lemma_differ_len("untill"@, "knowlege"@);
    reveal_strlit("liason");
    lemma_differ_at("untill"@, "liason"@, 0);
    reveal_strlit("maintainance");
    lemma_differ_len("untill"@, "maintainance"@);
    reveal_strlit("noticable");
    lemma_differ_len("untill"@, "noticable"@);
    reveal_strlit("occassion");
    lemma_differ_len("untill"@, "occassion"@);
    reveal_strlit("perseverence");
    lemma_differ_len("untill"@, "perseverence"@);
    reveal_strlit("priviledge");
    lemma_differ_len("untill"@, "priviledge"@);
    reveal_strlit("questionaire");
    lemma_differ_len("untill"@, "questionaire"@);
    reveal_strlit("recomend");
    lemma_differ_len("untill"@, "recomend"@);
    reveal_strlit("succesful");
    lemma_differ_len("untill"@, "succesful"@);
    reveal_strlit("tommorow");
    lemma_differ_len("untill"@, "tommorow"@);
}

proof fn lemma_table_vaccuum()
    ensures
        known_misspelling("vaccuum"@) == Some("vacuum"@),
        "vaccuum"@ != "vacuum"@,
{
    reveal_strlit("vaccuum");
    reveal_strlit("vacuum");
    lemma_differ_len("vaccuum"@, "vacuum"@);
    reveal_strlit("teh");
    lemma_differ_len("vaccuum"@, "teh"@);
    reveal_strlit("ther");
    lemma_differ_len("vaccuum"@, "ther"@);
    reveal_strlit("recieve");
    lemma_differ_at("vaccuum"@, "recieve"@, 0);
    reveal_strlit("seperate");
    lemma_differ_len("vaccuum"@, "seperate"@);
    reveal_strlit("occured");
    lemma_differ_at("vaccuum"@, "occured"@, 0);
    reveal_strlit("neccessary");
    lemma_differ_len("vaccuum"@, "neccessary"@);
    reveal_strlit("definately");
    lemma_differ_len("vaccuum"@, "definately"@);
    reveal_strlit("accomodate");
    lemma_differ_len("vaccuum"@, "accomodate"@);
    reveal_strlit("begining");
    lemma_differ_len("vaccuum"@, "begining"@);
    reveal_strlit("beleive");
    lemma_differ_at("vaccuum"@, "beleive"@, 0);
    reveal_strlit("calender");
    lemma_differ_len("vaccuum"@, "calender"@);
    reveal_strlit("cemetary");
    lemma_differ_len("vaccuum"@, "cemetary"@);
    reveal_strlit("changable");
    lemma_differ_len("vaccuum"@, "changable"@);
    reveal_strlit("collegue");
    lemma_differ_len("vaccuum"@, "collegue"@);
    reveal_strlit("comming");
    lemma_differ_at("vaccuum"@, "comming"@, 0);
    reveal_strlit("concious");
    lemma_differ_len("vaccuum"@, "concious"@);
    reveal_strlit("dilemna");
    lemma_differ_at("vaccuum"@, "dilemna"@, 0);
    reveal_strlit("embarass");
    lemma_differ_len("vaccuum"@, "embarass"@);
    reveal_strlit("enviroment");
    lemma_differ_len("vaccuum"@, "enviroment"@);
    reveal_strlit("existance");
    lemma_differ_len("vaccuum"@, "existance"@);
    reveal_strlit("goverment");
    lemma_differ_len("vaccuum"@, "goverment"@);
    reveal_strlit("harrass");
    lemma_differ_at("vaccuum"@, "harrass"@, 0);
    reveal_strlit("independant");
    lemma_differ_len("vaccuum"@, "independant"@);
    reveal_strlit("judgement");
    lemma_differ_len("vaccuum"@, "judgement"@);
    reveal_strlit("knowlege");
    lemma_differ_len("vaccuum"@, "knowlege"@);
    reveal_strlit("liason");
    lemma_differ_len("vaccuum"@, "liason"@);
    reveal_strlit("maintainance");
    lemma_differ_len("vaccuum"@, "maintainance"@);
    reveal_strlit("noticable");
    lemma_differ_len("vaccuum"@, "noticable"@);
    reveal_strlit("occassion");
    lemma_differ_len("vaccuum"@, "occassion"@);
    reveal_strlit("perseverence");
    lemma_differ_len("vaccuum"@, "perseverence"@);
    reveal_strlit("priviledge");
    lemma_differ_len("vaccuum"@, "priviledge"@);
    reveal_strlit("questionaire");
    lemma_differ_len("vaccuum"@, "questionaire"@);
    reveal_strlit("recomend");
    lemma_differ_len("vaccuum"@, "recomend"@);
    reveal_strlit("succesful");
    lemma_differ_len("vaccuum"@, "succesful"@);
    reveal_strlit("tommorow");
    lemma_differ_len("vaccuum"@, "tommorow"@);
    reveal_strlit("untill");
    lemma_differ_len("vaccuum"@, "untill"@);
}

proof fn lemma_table_wierd()
    ensures
        known_misspelling("wierd"@) == Some("weird"@),
        "wierd"@ != "weird"@,
{
    reveal_strlit("wierd");
    reveal_strlit("weird");
    reveal_strlit("teh");
    lemma_differ_len("wierd"@, "teh"@);
    reveal_strlit("ther");
    lemma_differ_len("wierd"@, "ther"@);
    reveal_strlit("recieve");
    lemma_differ_len("wierd"@, "recieve"@);
    reveal_strlit("seperate");
    lemma_differ_len("wierd"@, "seperate"@);
    reveal_strlit("occured");
    lemma_differ_len("wierd"@, "occured"@);
    reveal_strlit("neccessary");
    lemma_differ_len("wierd"@, "neccessary"@);
    reveal_strlit("definately");
    lemma_differ_len("wierd"@, "definately"@);
    reveal_strlit("accomodate");
    lemma_differ_len("wierd"@, "accomodate"@);
    reveal_strlit("begining");
    lemma_differ_len("wierd"@, "begining"@);
    reveal_strlit("beleive");
    lemma_differ_len("wierd"@, "beleive"@);
    reveal_strlit("calender");
    lemma_differ_len("wierd"@, "calender"@);
    reveal_strlit("cemetary");
    lemma_differ_len("wierd"@, "cemetary"@);
    reveal_strlit("changable");
    lemma_differ_len("wierd"@, "changable"@);
    reveal_strlit("collegue");
    lemma_differ_len("wierd"@, "collegue"@);
    reveal_strlit("comming");
    lemma_differ_len("wierd"@, "comming"@);
    reveal_strlit("concious");
    lemma_differ_len("wierd"@, "concious"@);
    reveal_strlit("dilemna");
    lemma_differ_len("wierd"@, "dilemna"@);
    reveal_strlit("embarass");
    lemma_differ_len("wierd"@, "embarass"@);
    reveal_strlit("enviroment");
    lemma_differ_len("wierd"@, "enviroment"@);
    reveal_strlit("existance");
    lemma_differ_len("wierd"@, "existance"@);
    reveal_strlit("goverment");
    lemma_differ_len("wierd"@, "goverment"@);
    reveal_strlit("harrass");
    lemma_differ_len("wierd"@, "harrass"@);
    reveal_strlit("independant");
    lemma_differ_len("wierd"@, "independant"@);
    reveal_strlit("judgement");
    lemma_differ_len("wierd"@, "judgement"@);
    reveal_strlit("knowlege");
    lemma_differ_len("wierd"@, "knowlege"@);
    reveal_strlit("liason");
    lemma_differ_len("wierd"@, "liason"@);
    reveal_strlit("maintainance");
    lemma_differ_len("wierd"@, "maintainance"@);
    reveal_strlit("noticable");
    lemma_differ_len("wierd"@, "noticable"@);
    reveal_strlit("occassion");
    lemma_differ_len("wierd"@, "occassion"@);
    reveal_strlit("perseverence");
    lemma_differ_len("wierd"@, "perseverence"@);
    reveal_strlit("priviledge");
    lemma_differ_len("wierd"@, "priviledge"@);
    reveal_strlit("questionaire");
    lemma_differ_len("wierd"@, "questionaire"@);
    reveal_strlit("recomend");
    lemma_differ_len("wierd"@, "recomend"@);
    reveal_strlit("succesful");
    lemma_differ_len("wierd"@, "succesful"@);
    reveal_strlit("tommorow");
    lemma_differ_len("wierd"@, "tommorow"@);
    reveal_strlit("untill");
    lemma_differ_len("wierd"@, "untill"@);
    reveal_strlit("vaccuum");
    lemma_differ_len("wierd"@, "vaccuum"@);
    lemma_differ_at("wierd"@, "weird"@, 1);
}

/// The frequent misspellings are corrected: each one of the table below
/// has its correction, and a word that is the misspelling in some case is
/// offered the correction first whenever the correction is a common word.
pub proof fn law_known_misspellings_corrected_first(common: Set<Seq<char>>, order: Seq<Seq<char>>, word: Seq<char>)
    ensures
        known_misspelling("teh"@) == Some("the"@),
        word.len() > 0 && lowercase(word) == "teh"@ && common.contains("the"@) ==> proposes_first(common, order, word, "the"@),
        known_misspelling("ther"@) == Some("there"@),
        word.len() > 0 && lowercase(word) == "ther"@ && common.contains("there"@) ==> proposes_first(common, order, word, "there"@),
        known_misspelling("recieve"@) == Some("receive"@),
        word.len() > 0 && lowercase(word) == "recieve"@ && common.contains("receive"@) ==> proposes_first(common, order, word, "receive"@),
        known_misspelling("seperate"@) == Some("separate"@),
        word.len() > 0 && lowercase(word) == "seperate"@ && common.contains("separate"@) ==> proposes_first(common, order, word, "separate"@),
        known_misspelling("occured"@) == Some("occurred"@),
        word.len() > 0 && lowercase(word) == "occured"@ && common.contains("occurred"@) ==> proposes_first(common, order, word, "occurred"@),
        known_misspelling("neccessary"@) == Some("necessary"@),
        word.len() > 0 && lowercase(word) == "neccessary"@ && common.contains("necessary"@) ==> proposes_first(common, order, word, "necessary"@),
        known_misspelling("definately"@) == Some("definitely"@),
        word.len() > 0 && lowercase(word) == "definately"@ && common.contains("definitely"@) ==> proposes_first(common, order, word, "definitely"@),
        known_misspelling("accomodate"@) == Some("accommodate"@),
        word.len() > 0 && lowercase(word) == "accomodate"@ && common.contains("accommodate"@) ==> proposes_first(common, order, word, "accommodate"@),
        known_misspelling("begining"@) == Some("beginning"@),
        word.len() > 0 && lowercase(word) == "begining"@ && common.contains("beginning"@) ==> proposes_first(common, order, word, "beginning"@),
        known_misspelling("beleive"@) == Some("believe"@),
        word.len() > 0 && lowercase(word) == "beleive"@ && common.contains("believe"@) ==> proposes_first(common, order, word, "believe"@),
        known_misspelling("calender"@) == Some("calendar"@),
        word.len() > 0 && lowercase(word) == "calender"@ && common.contains("calendar"@) ==> proposes_first(common, order, word, "calendar"@),
        known_misspelling("cemetary"@) == Some("cemetery"@),
        word.len() > 0 && lowercase(word) == "cemetary"@ && common.contains("cemetery"@) ==> proposes_first(common, order, word, "cemetery"@),
        known_misspelling("changable"@) == Some("changeable"@),
        word.len() > 0 && lowercase(word) == "changable"@ && common.contains("changeable"@) ==> proposes_first(common, order, word, "changeable"@),
        known_misspelling("collegue"@) == Some("colleague"@),
        word.len() > 0 && lowercase(word) == "collegue"@ && common.contains("colleague"@) ==> proposes_first(common, order, word, "colleague"@),
        known_misspelling("comming"@) == Some("coming"@),
        word.len() > 0 && lowercase(word) == "comming"@ && common.contains("coming"@) ==> proposes_first(common, order, word, "coming"@),
        known_misspelling("concious"@) == Some("conscious"@),
        word.len() > 0 && lowercase(word) == "concious"@ && common.contains("conscious"@) ==> proposes_first(common, order, word, "conscious"@),
        known_misspelling("dilemna"@) == Some("dilemma"@),
        word.len() > 0 && lowercase(word) == "dilemna"@ && common.contains("dilemma"@) ==> proposes_first(common, order, word, "dilemma"@),
        known_misspelling("embarass"@) == Some("embarrass"@),
        word.len() > 0 && lowercase(word) == "embarass"@ && common.contains("embarrass"@) ==> proposes_first(common, order, word, "embarrass"@),
        known_misspelling("enviroment"@) == Some("environment"@),
        word.len() > 0 && lowercase(word) == "enviroment"@ && common.contains("environment"@) ==> proposes_first(common, order, word, "environment"@),
        known_misspelling("existance"@) == Some("existence"@),
        word.len() > 0 && lowercase(word) == "existance"@ && common.contains("existence"@) ==> proposes_first(common, order, word, "existence"@),
        known_misspelling("goverment"@) == Some("government"@),
        word.len() > 0 && lowercase(word) == "goverment"@ && common.contains("government"@) ==> proposes_first(common, order, word, "government"@),
        known_misspelling("harrass"@) == Some("harass"@),
        word.len() > 0 && lowercase(word) == "harrass"@ && common.contains("harass"@) ==> proposes_first(common, order, word, "harass"@),
        known_misspelling("independant"@) == Some("independent"@),
        word.len() > 0 && lowercase(word) == "independant"@ && common.contains("independent"@) ==> proposes_first(common, order, word, "independent"@),
        known_misspelling("judgement"@) == Some("judgment"@),
        word.len() > 0 && lowercase(word) == "judgement"@ && common.contains("judgment"@) ==> proposes_first(common, order, word, "judgment"@),
        known_misspelling("knowlege"@) == Some("knowledge"@),
        word.len() > 0 && lowercase(word) == "knowlege"@ && common.contains("knowledge"@) ==> proposes_first(common, order, word, "knowledge"@),
        known_misspelling("liason"@) == Some("liaison"@),
        word.len() > 0 && lowercase(word) == "liason"@ && common.contains("liaison"@) ==> proposes_first(common, order, word, "liaison"@),
        known_misspelling("maintainance"@) == Some("maintenance"@),
        word.len() > 0 && lowercase(word) == "maintainance"@ && common.contains("maintenance"@) ==> proposes_first(common, order, word, "maintenance"@),
        known_misspelling("noticable"@) == Some("noticeable"@),
        word.len() > 0 && lowercase(word) == "noticable"@ && common.contains("noticeable"@) ==> proposes_first(common, order, word, "noticeable"@),
        known_misspelling("occassion"@) == Some("occasion"@),
        word.len() > 0 && lowercase(word) == "occassion"@ && common.contains("occasion"@) ==> proposes_first(common, order, word, "occasion"@),
        known_misspelling("perseverence"@) == Some("perseverance"@),
        word.len() > 0 && lowercase(word) == "perseverence"@ && common.contains("perseverance"@) ==> proposes_first(common, order, word, "perseverance"@),
        known_misspelling("priviledge"@) == Some("privilege"@),
        word.len() > 0 && lowercase(word) == "priviledge"@ && common.contains("privilege"@) ==> proposes_first(common, order, word, "privilege"@),
        known_misspelling("questionaire"@) == Some("questionnaire"@),
        word.len() > 0 && lowercase(word) == "questionaire"@ && common.contains("questionnaire"@) ==> proposes_first(common, order, word, "questionnaire"@),
        known_misspelling("recomend"@) == Some("recommend"@),
        word.len() > 0 && lowercase(word) == "recomend"@ && common.contains("recommend"@) ==> proposes_first(common, order, word, "recommend"@),
        known_misspelling("succesful"@) == Some("successful"@),
        word.len() > 0 && lowercase(word) == "succesful"@ && common.contains("successful"@) ==> proposes_first(common, order, word, "successful"@),
        known_misspelling("tommorow"@) == Some("tomorrow"@),
        word.len() > 0 && lowercase(word) == "tommorow"@ && common.contains("tomorrow"@) ==> proposes_first(common, order, word, "tomorrow"@),
        known_misspelling("untill"@) == Some("until"@),
        word.len() > 0 && lowercase(word) == "untill"@ && common.contains("until"@) ==> proposes_first(common, order, word, "until"@),
        known_misspelling("vaccuum"@) == Some("vacuum"@),
        word.len() > 0 && lowercase(word) == "vaccuum"@ && common.contains("vacuum"@) ==> proposes_first(common, order, word, "vacuum"@),
        known_misspelling("wierd"@) == Some("weird"@),
        word.len() > 0 && lowercase(word) == "wierd"@ && common.contains("weird"@) ==> proposes_first(common, order, word, "weird"@),
{
    lemma_table_teh();
    if word.len() > 0 && lowercase(word) == "teh"@ && common.contains("the"@) {
        lemma_correction_first(common, order, word, "teh"@, "the"@);
    }
    lemma_table_ther();
    if word.len() > 0 && lowercase(word) == "ther"@ && common.contains("there"@) {
        lemma_correction_first(common, order, word, "ther"@, "there"@);
    }
    lemma_table_recieve();
    if word.len() > 0 && lowercase(word) == "recieve"@ && common.contains("receive"@) {
        lemma_correction_first(common, order, word, "recieve"@, "receive"@);
    }
    lemma_table_seperate();
    if word.len() > 0 && lowercase(word) == "seperate"@ && common.contains("separate"@) {
        lemma_correction_first(common, order, word, "seperate"@, "separate"@);
    }
    lemma_table_occured();
    if word.len() > 0 && lowercase(word) == "occured"@ && common.contains("occurred"@) {
        lemma_correction_first(common, order, word, "occured"@, "occurred"@);
    }
    lemma_table_neccessary();
    if word.len() > 0 && lowercase(word) == "neccessary"@ && common.contains("necessary"@) {
        lemma_correction_first(common, order, word, "neccessary"@, "necessary"@);
    }
    lemma_table_definately();
    if word.len() > 0 && lowercase(word) == "definately"@ && common.contains("definitely"@) {
        lemma_correction_first(common, order, word, "definately"@, "definitely"@);
    }
    lemma_table_accomodate();
    if word.len() > 0 && lowercase(word) == "accomodate"@ && common.contains("accommodate"@) {
        lemma_correction_first(common, order, word, "accomodate"@, "accommodate"@);
    }
    lemma_table_begining();
    if word.len() > 0 && lowercase(word) == "begining"@ && common.contains("beginning"@) {
        lemma_correction_first(common, order, word, "begining"@, "beginning"@);
    }
    lemma_table_beleive();
    if word.len() > 0 && lowercase(word) == "beleive"@ && common.contains("believe"@) {
        lemma_correction_first(common, order, word, "beleive"@, "believe"@);
    }
    lemma_table_calender();
    if word.len() > 0 && lowercase(word) == "calender"@ && common.contains("calendar"@) {
        lemma_correction_first(common, order, word, "calender"@, "calendar"@);
    }
    lemma_table_cemetary();
    if word.len() > 0 && lowercase(word) == "cemetary"@ && common.contains("cemetery"@) {
        lemma_correction_first(common, order, word, "cemetary"@, "cemetery"@);
    }
    lemma_table_changable();
    if word.len() > 0 && lowercase(word) == "changable"@ && common.contains("changeable"@) {
        lemma_correction_first(common, order, word, "changable"@, "changeable"@);
    }
    lemma_table_collegue();
    if word.len() > 0 && lowercase(word) == "collegue"@ && common.contains("colleague"@) {
        lemma_correction_first(common, order, word, "collegue"@, "colleague"@);
    }
    lemma_table_comming();
    if word.len() > 0 && lowercase(word) == "comming"@ && common.contains("coming"@) {
        lemma_correction_first(common, order, word, "comming"@, "coming"@);
    }
    lemma_table_concious();
    if word.len() > 0 && lowercase(word) == "concious"@ && common.contains("conscious"@) {
        lemma_correction_first(common, order, word, "concious"@, "conscious"@);
    }
    lemma_table_dilemna();
    if word.len() > 0 && lowercase(word) == "dilemna"@ && common.contains("dilemma"@) {
        lemma_correction_first(common, order, word, "dilemna"@, "dilemma"@);
    }
    lemma_table_embarass();
    if word.len() > 0 && lowercase(word) == "embarass"@ && common.contains("embarrass"@) {
        lemma_correction_first(common, order, word, "embarass"@, "embarrass"@);
    }
    lemma_table_enviroment();
    if word.len() > 0 && lowercase(word) == "enviroment"@ && common.contains("environment"@) {
        lemma_correction_first(common, order, word, "enviroment"@, "environment"@);
    }
    lemma_table_existance();
    if word.len() > 0 && lowercase(word) == "existance"@ && common.contains("existence"@) {
        lemma_correction_first(common, order, word, "existance"@, "existence"@);
    }
    lemma_table_goverment();
    if word.len() > 0 && lowercase(word) == "goverment"@ && common.contains("government"@) {
        lemma_correction_first(common, order, word, "goverment"@, "government"@);
    }
    lemma_table_harrass();
    if word.len() > 0 && lowercase(word) == "harrass"@ && common.contains("harass"@) {
        lemma_correction_first(common, order, word, "harrass"@, "harass"@);
    }
    lemma_table_independant();
    if word.len() > 0 && lowercase(word) == "independant"@ && common.contains("independent"@) {
        lemma_correction_first(common, order, word, "independant"@, "independent"@);
    }
    lemma_table_judgement();
    if word.len() > 0 && lowercase(word) == "judgement"@ && common.contains("judgment"@) {
        lemma_correction_first(common, order, word, "judgement"@, "judgment"@);
    }
    lemma_table_knowlege();
    if word.len() > 0 && lowercase(word) == "knowlege"@ && common.contains("knowledge"@) {
        lemma_correction_first(common, order, word, "knowlege"@, "knowledge"@);
    }
    lemma_table_liason();
    if word.len() > 0 && lowercase(word) == "liason"@ && common.contains("liaison"@) {
        lemma_correction_first(common, order, word, "liason"@, "liaison"@);
    }
    lemma_table_maintainance();
    if word.len() > 0 && lowercase(word) == "maintainance"@ && common.contains("maintenance"@) {
        lemma_correction_first(common, order, word, "maintainance"@, "maintenance"@);
    }
    lemma_table_noticable();
    if word.len() > 0 && lowercase(word) == "noticable"@ && common.contains("noticeable"@) {
        lemma_correction_first(common, order, word, "noticable"@, "noticeable"@);
    }
    lemma_table_occassion();
    if word.len() > 0 && lowercase(word) == "occassion"@ && common.contains("occasion"@) {
        lemma_correction_first(common, order, word, "occassion"@, "occasion"@);
    }
    lemma_table_perseverence();
    if word.len() > 0 && lowercase(word) == "perseverence"@ && common.contains("perseverance"@) {
        lemma_correction_first(common, order, word, "perseverence"@, "perseverance"@);
    }
    lemma_table_priviledge();
    if word.len() > 0 && lowercase(word) == "priviledge"@ && common.contains("privilege"@) {
        lemma_correction_first(common, order, word, "priviledge"@, "privilege"@);
    }
    lemma_table_questionaire();
    if word.len() > 0 && lowercase(word) == "questionaire"@ && common.contains("questionnaire"@) {
        lemma_correction_first(common, order, word, "questionaire"@, "questionnaire"@);
    }
    lemma_table_recomend();
    if word.len() > 0 && lowercase(word) == "recomend"@ && common.contains("recommend"@) {
        lemma_correction_first(common, order, word, "recomend"@, "recommend"@);
    }
    lemma_table_succesful();
    if word.len() > 0 && lowercase(word) == "succesful"@ && common.contains("successful"@) {
        lemma_correction_first(common, order, word, "succesful"@, "successful"@);
    }
    lemma_table_tommorow();
    if word.len() > 0 && lowercase(word) == "tommorow"@ && common.contains("tomorrow"@) {
        lemma_correction_first(common, order, word, "tommorow"@, "tomorrow"@);
    }
    lemma_table_untill();
    if word.len() > 0 && lowercase(word) == "untill"@ && common.contains("until"@) {
        lemma_correction_first(common, order, word, "untill"@, "until"@);
    }
    lemma_table_vaccuum();
    if word.len() > 0 && lowercase(word) == "vaccuum"@ && common.contains("vacuum"@) {
        lemma_correction_first(common, order, word, "vaccuum"@, "vacuum"@);
    }
    lemma_table_wierd();
    if word.len() > 0 && lowercase(word) == "wierd"@ && common.contains("weird"@) {
        lemma_correction_first(common, order, word, "wierd"@, "weird"@);
    }
}

} // verus!

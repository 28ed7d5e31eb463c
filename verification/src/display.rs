//! What the terminal interface shows, as text: file sizes, slices of text by
//! character position, and the segments of a composed text with its
//! misspelled words, grammar errors and cursor marked.
use vstd::string::StringExecFns;
use vstd::prelude::*;
use crate::text::{chars_of, char_byte_width, text_width, lemma_text_width_append, owned, string_of, sub_chars, push_char, str_width};
use crate::spellcheck::SpellError;
use crate::grammarcheck::GrammarError;

verus! {

/// The decimal digits of `n`.
pub open spec fn decimal(n: nat) -> Seq<char>
    decreases n,
{
    if n < 10 {
        seq![digit_char(n)]
    } else {
        decimal(n / 10) + seq![digit_char(n % 10)]
    }
}

/// The character of a digit.
pub open spec fn digit_char(d: nat) -> char {
    if d == 0 { '0' } else if d == 1 { '1' } else if d == 2 { '2' } else if d == 3 { '3' } else if d == 4 {
        '4'
    } else if d == 5 { '5' } else if d == 6 { '6' } else if d == 7 { '7' } else if d == 8 { '8' } else {
        '9'
    }
}

/// The character of a digit, computed.
fn digit_char_exec(d: u128) -> (r: char)
    requires
        d < 10,
    ensures
        r == digit_char(d as nat),
{
    if d == 0 { '0' } else if d == 1 { '1' } else if d == 2 { '2' } else if d == 3 { '3' } else if d == 4 {
        '4'
    } else if d == 5 { '5' } else if d == 6 { '6' } else if d == 7 { '7' } else if d == 8 { '8' } else {
        '9'
    }
}

/// The decimal digits of `n`, computed.
pub fn decimal_string(n: u128) -> (r: String)
    ensures
        r@ == decimal(n as nat),
    decreases n,
{
    if n < 10 {
        let mut s = String::new();
        push_char(&mut s, digit_char_exec(n));
        proof {
            assert(s@ =~= seq![digit_char(n as nat)]);
        }
        s
    } else {
        let mut s = decimal_string(n / 10);
        push_char(&mut s, digit_char_exec(n % 10));
        s
    }
}

/// `1024` to the power `k`.
pub open spec fn kib_power(k: nat) -> nat
    decreases k,
{
    if k == 0 {
        1
    } else {
        1024 * kib_power((k - 1) as nat)
    }
}

/// The unit a size is shown in: the largest of bytes, kilobytes, megabytes
/// and gigabytes that the size reaches.
pub open spec fn size_unit(bytes: nat) -> nat {
    if bytes >= kib_power(3) {
        3
    } else if bytes >= kib_power(2) {
        2
    } else if bytes >= kib_power(1) {
        1
    } else {
        0
    }
}

/// The name of a unit.
pub open spec fn unit_name(k: nat) -> Seq<char> {
    if k == 0 {
        "B"@
    } else if k == 1 {
        "KB"@
    } else if k == 2 {
        "MB"@
    } else {
        "GB"@
    }
}

/// `n / d` rounded to the nearest integer, ties to the even one.
pub open spec fn round_half_even(n: nat, d: nat) -> nat
    recommends
        d > 0,
{
    let q = n / d;
    let r = n % d;
    if 2 * r > d || (2 * r == d && q % 2 == 1) {
        q + 1
    } else {
        q
    }
}

/// A size in bytes as shown: whole bytes under a kilobyte, otherwise the
/// size in the largest unit it reaches with one decimal (rounded to the
/// nearest tenth, ties to even).
pub open spec fn file_size_text(bytes: nat) -> Seq<char> {
    let k = size_unit(bytes);
    if k == 0 {
        decimal(bytes) + " "@ + unit_name(0)
    } else {
        let tenths = round_half_even(bytes * 10, kib_power(k));
        decimal(tenths / 10) + "."@ + decimal(tenths % 10) + " "@ + unit_name(k)
    }
}

/// A size in bytes as shown in the attachment list.
pub fn format_file_size(bytes: usize) -> (r: String)
    ensures
        r@ == file_size_text(bytes as nat),
{
    let b = bytes as u128;
    let mut divisor: u128 = 1;
    let mut k: u128 = 0;
    proof {
        reveal_with_fuel(kib_power, 4);
        assert(kib_power(3) == 1073741824);
    }
    while k < 3 && b >= divisor * 1024
        invariant
            k <= 3,
            divisor == kib_power(k as nat),
            divisor <= 1073741824,
            b == bytes,
            k < 3 ==> kib_power((k + 1) as nat) == divisor * 1024,
            k == 0 || b >= kib_power(k as nat),
        decreases 3 - k,
    {
        proof {
            reveal_with_fuel(kib_power, 4);
        }
        divisor = divisor * 1024;
        k = k + 1;
    }
    proof {
        reveal_with_fuel(kib_power, 4);
        assert(size_unit(bytes as nat) == k);
    }
    let unit = if k == 0 {
        "B"
    } else if k == 1 {
        "KB"
    } else if k == 2 {
        "MB"
    } else {
        "GB"
    };
    if k == 0 {
        let s = decimal_string(b);
        let mut r = s;
        r.append(" ");
        r.append(unit);
        r
    } else {
        let n = b * 10;
        let q = n / divisor;
        let rem = n % divisor;
        let tenths = if 2 * rem > divisor || (2 * rem == divisor && q % 2 == 1) {
            q + 1
        } else {
            q
        };
        let mut r = decimal_string(tenths / 10);
        r.append(".");
        let d = decimal_string(tenths % 10);
        r.append(d.as_str());
        r.append(" ");
        r.append(unit);
        r
    }
}

} // verus!

verus! {

/// The character position of a byte offset: the index of the first
/// character that starts at or after the offset, or the number of
/// characters when none does.
pub open spec fn char_pos_from(s: Seq<char>, byte_pos: int, k: int) -> int
    decreases s.len() - k,
{
    if k >= s.len() || k < 0 {
        s.len() as int
    } else if text_width(s.take(k)) >= byte_pos {
        k
    } else {
        char_pos_from(s, byte_pos, k + 1)
    }
}

/// The character position of a byte offset in `s`.
pub open spec fn char_pos(s: Seq<char>, byte_pos: int) -> int {
    char_pos_from(s, byte_pos, 0)
}

/// The character position of a byte offset in `text`.
pub fn byte_to_char_pos(text: &str, byte_pos: usize) -> (r: usize)
    ensures
        r == char_pos(text@, byte_pos as int),
        r <= text@.len(),
{
    let cs = chars_of(text);
    let mut offset: usize = 0;
    let mut k: usize = 0;
    let total = str_width(text);
    while k < cs.len()
        invariant
            cs@ == text@,
            total == text_width(text@),
            0 <= k <= cs@.len(),
            offset == text_width(cs@.take(k as int)),
            char_pos(text@, byte_pos as int) == char_pos_from(text@, byte_pos as int, k as int),
        decreases cs@.len() - k,
    {
        if offset >= byte_pos {
            return k;
        }
        proof {
            assert(cs@.take(k + 1).drop_last() =~= cs@.take(k as int));
            assert(cs@ =~= cs@.take(k + 1) + cs@.skip(k + 1));
            lemma_text_width_append(cs@.take(k + 1), cs@.skip(k + 1));
        }
        offset = offset + char_byte_width(cs[k]);
        k = k + 1;
    }
    k
}

/// The characters of `s` from position `a` up to position `b`, clipped to
/// the text; nothing when `b` is not after `a`.
pub open spec fn char_slice(s: Seq<char>, a: int, b: int) -> Seq<char> {
    if a >= s.len() || b <= a {
        seq![]
    } else if b >= s.len() {
        s.subrange(a, s.len() as int)
    } else {
        s.subrange(a, b)
    }
}

/// The characters of `text` from position `start_char` up to position
/// `end_char`.
pub fn safe_char_slice(text: &str, start_char: usize, end_char: usize) -> (r: String)
    ensures
        r@ == char_slice(text@, start_char as int, end_char as int),
{
    let cs = chars_of(text);
    if start_char >= cs.len() || end_char <= start_char {
        return String::new();
    }
    let end = if end_char >= cs.len() {
        cs.len()
    } else {
        end_char
    };
    let piece = sub_chars(cs.as_slice(), start_char, end);
    string_of(piece.as_slice())
}

/// The characters of `text` from position `start_char` to the end.
pub fn safe_char_slice_from(text: &str, start_char: usize) -> (r: String)
    ensures
        r@ == (if start_char >= text@.len() {
            Seq::<char>::empty()
        } else {
            text@.skip(start_char as int)
        }),
{
    let cs = chars_of(text);
    if start_char >= cs.len() {
        return String::new();
    }
    let piece = sub_chars(cs.as_slice(), start_char, cs.len());
    proof {
        assert(piece@ =~= text@.skip(start_char as int));
    }
    string_of(piece.as_slice())
}

/// How a segment of shown text is styled.
#[derive(Debug, Clone, Copy, PartialEq, Eq, Structural)]
pub enum SegmentKind {
    Plain,
    Misspelled,
    GrammarError,
    Cursor,
}

/// A piece of shown text and its style.
#[derive(Debug, Clone)]
pub struct Segment {
    pub text: String,
    pub kind: SegmentKind,
}

/// The model of a segment: its style and its characters.
pub type SegmentView = (SegmentKind, Seq<char>);

impl View for Segment {
    type V = SegmentView;

    open spec fn view(&self) -> SegmentView {
        (self.kind, self.text@)
    }
}

/// The views of a list of segments.
pub open spec fn segment_views(l: Seq<Segment>) -> Seq<SegmentView> {
    l.map_values(|s: Segment| s@)
}

/// A marked range of the text, before ordering: its byte position (the
/// key by which ranges are ordered), the kind of mark, and the range in
/// characters.
pub type Mark = (int, SegmentKind, int, int);

/// `l` with `m` inserted after every mark whose byte position is at most
/// that of `m`.
pub open spec fn insert_mark(l: Seq<Mark>, m: Mark) -> Seq<Mark>
    decreases l.len(),
{
    if l.len() == 0 {
        seq![m]
    } else if l.last().0 <= m.0 {
        l.push(m)
    } else {
        insert_mark(l.drop_last(), m).push(l.last())
    }
}

/// The marks ordered by byte position, marks at the same position keeping
/// their order (a stable sort).
pub open spec fn sort_marks(l: Seq<Mark>) -> Seq<Mark>
    decreases l.len(),
{
    if l.len() == 0 {
        seq![]
    } else {
        insert_mark(sort_marks(l.drop_last()), l.last())
    }
}

/// The segments shown for marks read in order, starting after character
/// `last`: each mark that starts inside the text gives the plain text since
/// the end of the previous one (if any) and its own marked range, clipped
/// to the text; the rest of the text follows as plain text.
pub open spec fn marked_segments(s: Seq<char>, marks: Seq<Mark>, last: int) -> Seq<SegmentView>
    decreases marks.len(),
{
    if marks.len() == 0 {
        if last < s.len() {
            seq![(SegmentKind::Plain, if last >= 0 { s.skip(last) } else { s })]
        } else {
            seq![]
        }
    } else {
        let m = marks[0];
        let start = m.2;
        if start >= s.len() {
            marked_segments(s, marks.drop_first(), last)
        } else {
            let end = if m.3 < s.len() { m.3 } else { s.len() as int };
            let before = if start > last {
                seq![(SegmentKind::Plain, char_slice(s, last, start))]
            } else {
                seq![]
            };
            before + seq![(m.1, char_slice(s, start, end))] + marked_segments(s, marks.drop_first(), end)
        }
    }
}

/// `a`, at most `b`.
pub open spec fn clip(a: int, b: int) -> int {
    if a < b {
        a
    } else {
        b
    }
}

/// The marks of the spelling errors, then those of the grammar errors: for
/// a spelling error the characters of its word from its position, for a
/// grammar error its byte range converted to characters.
pub open spec fn error_marks(s: Seq<char>, spell: Seq<SpellError>, grammar: Seq<GrammarError>) -> Seq<Mark> {
    Seq::new(
        spell.len(),
        |i: int|
            (
                spell[i].position as int,
                SegmentKind::Misspelled,
                char_pos(s, spell[i].position as int),
                clip(char_pos(s, spell[i].position as int) + spell[i].word@.len(), s.len() as int),
            ),
    ) + Seq::new(
        grammar.len(),
        |i: int|
            (
                grammar[i].start as int,
                SegmentKind::GrammarError,
                char_pos(s, grammar[i].start as int),
                char_pos(s, grammar[i].end as int),
            ),
    )
}

/// The cursor mark.
pub open spec fn cursor_view() -> SegmentView {
    (SegmentKind::Cursor, seq!['\u{2502}'])
}

/// The segments with the cursor placed `remaining` bytes into them: the
/// segment the position reaches is split, keeping that many of its
/// characters before the cursor; without such a segment the cursor comes
/// last.
pub open spec fn with_cursor(segs: Seq<SegmentView>, remaining: int) -> Seq<SegmentView>
    decreases segs.len(),
{
    if segs.len() == 0 {
        seq![cursor_view()]
    } else {
        let s = segs[0];
        let w = text_width(s.1);
        if w >= remaining {
            let cut = if remaining < s.1.len() { remaining } else { s.1.len() as int };
            let before = if remaining > 0 { seq![(s.0, s.1.take(cut))] } else { seq![] };
            let after = s.1.skip(cut);
            let rest = if after.len() > 0 { seq![(s.0, after)] } else { seq![] };
            before + seq![cursor_view()] + rest + segs.drop_first()
        } else {
            seq![s] + with_cursor(segs.drop_first(), remaining - w)
        }
    }
}

/// The segments of a composed text with its errors marked and, when asked,
/// the cursor at byte `cursor_pos` of the shown text.
pub open spec fn highlighted(
    s: Seq<char>,
    spell: Seq<SpellError>,
    grammar: Seq<GrammarError>,
    show_cursor: bool,
    cursor_pos: int,
) -> Seq<SegmentView> {
    let segs = marked_segments(s, sort_marks(error_marks(s, spell, grammar)), 0);
    if show_cursor {
        with_cursor(segs, cursor_pos)
    } else {
        segs
    }
}

} // verus!

verus! {

/// The view of a computed mark.
pub open spec fn mark_view(m: (usize, SegmentKind, usize, usize)) -> Mark {
    (m.0 as int, m.1, m.2 as int, m.3 as int)
}

/// The views of a list of computed marks.
pub open spec fn mark_views(l: Seq<(usize, SegmentKind, usize, usize)>) -> Seq<Mark> {
    l.map_values(|m: (usize, SegmentKind, usize, usize)| mark_view(m))
}

/// Where `insert_mark` puts `m`: after the last mark at a position at most
/// that of `m`.
pub open spec fn insert_point(l: Seq<Mark>, m: Mark) -> int
    decreases l.len(),
{
    if l.len() == 0 {
        0
    } else if l.last().0 <= m.0 {
        l.len() as int
    } else {
        insert_point(l.drop_last(), m)
    }
}

proof fn lemma_insert_mark(l: Seq<Mark>, m: Mark)
    ensures
        0 <= insert_point(l, m) <= l.len(),
        insert_mark(l, m) == l.take(insert_point(l, m)) + seq![m] + l.skip(insert_point(l, m)),
    decreases l.len(),
{
    if l.len() == 0 {
        assert(insert_mark(l, m) =~= l.take(0) + seq![m] + l.skip(0));
    } else if l.last().0 <= m.0 {
        assert(insert_mark(l, m) =~= l.take(l.len() as int) + seq![m] + l.skip(l.len() as int));
    } else {
        let d = l.drop_last();
        lemma_insert_mark(d, m);
        let p = insert_point(d, m);
        assert(insert_mark(l, m) =~= l.take(p) + seq![m] + l.skip(p));
    }
}

proof fn lemma_insert_point_prefix(l: Seq<Mark>, m: Mark, j: int)
    requires
        0 <= j <= l.len(),
        forall|k: int| j <= k < l.len() ==> l[k].0 > m.0,
    ensures
        insert_point(l, m) == insert_point(l.take(j), m),
    decreases l.len() - j,
{
    if j < l.len() {
        assert(l.drop_last() =~= l.drop_last());
        let d = l.drop_last();
        assert forall|k: int| j <= k < d.len() implies d[k].0 > m.0 by {
            assert(d[k] == l[k]);
        }
        lemma_insert_point_prefix(d, m, j);
        assert(d.take(j) =~= l.take(j));
    } else {
        assert(l.take(j) =~= l);
    }
}

/// `l` with `m` inserted after every mark at a position at most that of `m`.
fn insert_mark_exec(l: Vec<(usize, SegmentKind, usize, usize)>, m: (usize, SegmentKind, usize, usize)) -> (r: Vec<(usize, SegmentKind, usize, usize)>)
    ensures
        mark_views(r@) == insert_mark(mark_views(l@), mark_view(m)),
{
    let ghost lv = mark_views(l@);
    let mut j: usize = l.len();
    while j > 0 && l[j - 1].0 > m.0
        invariant
            lv == mark_views(l@),
            0 <= j <= l@.len(),
            forall|k: int| j <= k < lv.len() ==> lv[k].0 > mark_view(m).0,
        decreases j,
    {
        j = j - 1;
    }
    proof {
        lemma_insert_point_prefix(lv, mark_view(m), j as int);
        lemma_insert_mark(lv, mark_view(m));
        if j > 0 {
            assert(lv.take(j as int).last() == lv[j - 1]);
        }
        assert(insert_point(lv.take(j as int), mark_view(m)) == j);
    }
    let mut r: Vec<(usize, SegmentKind, usize, usize)> = Vec::new();
    let mut i: usize = 0;
    while i < l.len()
        invariant
            lv == mark_views(l@),
            0 <= j <= l@.len(),
            0 <= i <= l@.len(),
            mark_views(r@) == (if i <= j {
                lv.take(i as int)
            } else {
                lv.take(j as int) + seq![mark_view(m)] + lv.subrange(j as int, i as int)
            }),
        decreases l@.len() + 1 - i,
    {
        if i == j {
            let ghost before = r@;
            r.push(m);
            proof {
                assert(mark_views(r@) =~= mark_views(before).push(mark_view(m)));
            }
        }
        let ghost before = r@;
        r.push(l[i]);
        proof {
            assert(mark_views(r@) =~= mark_views(before).push(lv[i as int]));
            if i + 1 <= j {
                assert(lv.take(i + 1) =~= lv.take(i as int).push(lv[i as int]));
            } else {
                assert(lv.subrange(j as int, i + 1) =~= lv.subrange(j as int, i as int).push(lv[i as int]));
                assert(lv.subrange(j as int, j as int) =~= Seq::<Mark>::empty());
            }
        }
        i = i + 1;
    }
    if j == l.len() {
        let ghost before = r@;
        r.push(m);
        proof {
            assert(mark_views(r@) =~= mark_views(before).push(mark_view(m)));
        }
    }
    proof {
        assert(lv.subrange(j as int, lv.len() as int) =~= lv.skip(j as int));
        assert(lv.take(lv.len() as int) =~= lv);
        assert(lv.skip(lv.len() as int) =~= Seq::<Mark>::empty());
        assert(mark_views(r@) =~= lv.take(j as int) + seq![mark_view(m)] + lv.skip(j as int));
    }
    r
}

/// The marks ordered by byte position, computed.
fn sort_marks_exec(l: &Vec<(usize, SegmentKind, usize, usize)>) -> (r: Vec<(usize, SegmentKind, usize, usize)>)
    ensures
        mark_views(r@) == sort_marks(mark_views(l@)),
{
    let ghost lv = mark_views(l@);
    let mut r: Vec<(usize, SegmentKind, usize, usize)> = Vec::new();
    let mut i: usize = 0;
    proof {
        assert(mark_views(r@) =~= sort_marks(lv.take(0)));
    }
    while i < l.len()
        invariant
            lv == mark_views(l@),
            0 <= i <= l@.len(),
            mark_views(r@) == sort_marks(lv.take(i as int)),
        decreases l@.len() - i,
    {
        proof {
            assert(lv.take(i + 1).drop_last() =~= lv.take(i as int));
            assert(lv.take(i + 1).last() == mark_view(l@[i as int]));
        }
        r = insert_mark_exec(r, l[i]);
        i = i + 1;
    }
    proof {
        assert(lv.take(i as int) =~= lv);
    }
    r
}

} // verus!

verus! {

/// The marks of the errors, computed.
fn error_marks_exec(text: &str, spell_errors: &[SpellError], grammar_errors: &[GrammarError]) -> (r: Vec<(usize, SegmentKind, usize, usize)>)
    ensures
        mark_views(r@) == error_marks(text@, spell_errors@, grammar_errors@),
        forall|k: int| 0 <= k < r@.len() ==> (#[trigger] r@[k]).3 <= text@.len(),
{
    let n = chars_of(text).len();
    let mut r: Vec<(usize, SegmentKind, usize, usize)> = Vec::new();
    let mut i: usize = 0;
    while i < spell_errors.len()
        invariant
            n == text@.len(),
            0 <= i <= spell_errors@.len(),
            r@.len() == i,
            forall|k: int| 0 <= k < i ==> #[trigger] mark_view(r@[k]) == error_marks(text@, spell_errors@, grammar_errors@)[k],
            forall|k: int| 0 <= k < r@.len() ==> (#[trigger] r@[k]).3 <= n,
        decreases spell_errors@.len() - i,
    {
        let e = &spell_errors[i];
        let start = byte_to_char_pos(text, e.position);
        let count = chars_of(e.word.as_str()).len();
        let end = if count >= n - start {
            n
        } else {
            start + count
        };
        r.push((e.position, SegmentKind::Misspelled, start, end));
        i = i + 1;
    }
    let mut g: usize = 0;
    while g < grammar_errors.len()
        invariant
            0 <= g <= grammar_errors@.len(),
            r@.len() == spell_errors@.len() + g,
            n == text@.len(),
            forall|k: int| 0 <= k < r@.len() ==> #[trigger] mark_view(r@[k]) == error_marks(text@, spell_errors@, grammar_errors@)[k],
            forall|k: int| 0 <= k < r@.len() ==> (#[trigger] r@[k]).3 <= n,
        decreases grammar_errors@.len() - g,
    {
        let e = &grammar_errors[g];
        let start = byte_to_char_pos(text, e.start);
        let end = byte_to_char_pos(text, e.end);
        r.push((e.start, SegmentKind::GrammarError, start, end));
        g = g + 1;
    }
    proof {
        assert(mark_views(r@) =~= error_marks(text@, spell_errors@, grammar_errors@));
    }
    r
}

/// The segments for the ordered marks, computed.
fn marked_segments_exec(text: &str, marks: &Vec<(usize, SegmentKind, usize, usize)>) -> (r: Vec<Segment>)
    requires
        forall|k: int| 0 <= k < marks@.len() ==> (#[trigger] marks@[k]).3 <= text@.len(),
    ensures
        segment_views(r@) == marked_segments(text@, mark_views(marks@), 0),
{
    let ghost mv = mark_views(marks@);
    let ghost target = marked_segments(text@, mv, 0);
    let n = chars_of(text).len();
    let mut out: Vec<Segment> = Vec::new();
    let mut last: usize = 0;
    let mut i: usize = 0;
    proof {
        assert(mv.skip(0) =~= mv);
        assert(segment_views(out@) + marked_segments(text@, mv.skip(0), 0) =~= target);
    }
    while i < marks.len()
        invariant
            mv == mark_views(marks@),
            n == text@.len(),
            forall|k: int| 0 <= k < marks@.len() ==> (#[trigger] marks@[k]).3 <= text@.len(),
            0 <= i <= marks@.len(),
            last <= n,
            target == marked_segments(text@, mv, 0),
            segment_views(out@) + marked_segments(text@, mv.skip(i as int), last as int) == target,
        decreases marks@.len() - i,
    {
        let (_, kind, start, end) = marks[i];
        proof {
            assert(mv.skip(i as int)[0] == mark_view(marks@[i as int]));
            assert(mv.skip(i as int).drop_first() =~= mv.skip(i + 1));
        }
        if start < n {
            let end = if end < n {
                end
            } else {
                n
            };
            let ghost before = out@;
            if start > last {
                let plain = safe_char_slice(text, last, start);
                out.push(Segment { text: plain, kind: SegmentKind::Plain });
            }
            let marked = safe_char_slice(text, start, end);
            out.push(Segment { text: marked, kind });
            proof {
                let b = if start > last {
                    seq![(SegmentKind::Plain, char_slice(text@, last as int, start as int))]
                } else {
                    seq![]
                };
                assert(segment_views(out@) =~= segment_views(before) + b + seq![(kind, char_slice(text@, start as int, end as int))]);
            }
            last = end;
        }
        i = i + 1;
    }
    if last < n {
        let rest = safe_char_slice_from(text, last);
        let ghost before = out@;
        out.push(Segment { text: rest, kind: SegmentKind::Plain });
        proof {
            assert(segment_views(out@) =~= segment_views(before).push((SegmentKind::Plain, text@.skip(last as int))));
        }
    }
    proof {
        assert(mv.skip(i as int) =~= Seq::<Mark>::empty());
        assert(segment_views(out@) =~= target);
    }
    out
}

/// The cursor segment.
fn cursor_segment() -> (r: Segment)
    ensures
        r@ == cursor_view(),
{
    let mut t = String::new();
    push_char(&mut t, '\u{2502}');
    proof {
        assert(t@ =~= seq!['\u{2502}']);
    }
    Segment { text: t, kind: SegmentKind::Cursor }
}

/// The segments with the cursor placed `cursor_pos` bytes into them,
/// computed.
fn insert_cursor(segs: Vec<Segment>, cursor_pos: usize) -> (r: Vec<Segment>)
    ensures
        segment_views(r@) == with_cursor(segment_views(segs@), cursor_pos as int),
{
    let ghost sv = segment_views(segs@);
    let ghost target = with_cursor(sv, cursor_pos as int);
    let mut out: Vec<Segment> = Vec::new();
    let mut remaining: usize = cursor_pos;
    let mut inserted = false;
    let mut i: usize = 0;
    proof {
        assert(sv.skip(0) =~= sv);
        assert(segment_views(out@) + with_cursor(sv.skip(0), remaining as int) =~= target);
    }
    while i < segs.len()
        invariant
            sv == segment_views(segs@),
            target == with_cursor(sv, cursor_pos as int),
            0 <= i <= segs@.len(),
            !inserted ==> segment_views(out@) + with_cursor(sv.skip(i as int), remaining as int) == target,
            inserted ==> segment_views(out@) + sv.skip(i as int) == target,
        decreases segs@.len() - i,
    {
        let seg = &segs[i];
        let ghost before = out@;
        proof {
            assert(sv.skip(i as int)[0] == seg@);
            assert(sv.skip(i as int).drop_first() =~= sv.skip(i + 1));
        }
        if inserted {
            out.push(Segment { text: seg.text.clone(), kind: seg.kind });
            proof {
                assert(segment_views(out@) =~= segment_views(before).push(seg@));
                assert(sv.skip(i as int) =~= seq![seg@] + sv.skip(i + 1));
            }
        } else {
            let w = str_width(seg.text.as_str());
            if w >= remaining {
                let cs = chars_of(seg.text.as_str());
                let cut = if remaining < cs.len() {
                    remaining
                } else {
                    cs.len()
                };
                if remaining > 0 {
                    let head = sub_chars(cs.as_slice(), 0, cut);
                    out.push(Segment { text: string_of(head.as_slice()), kind: seg.kind });
                }
                out.push(cursor_segment());
                let tail = sub_chars(cs.as_slice(), cut, cs.len());
                if tail.len() > 0 {
                    out.push(Segment { text: string_of(tail.as_slice()), kind: seg.kind });
                }
                proof {
                    let s = seg@;
                    let bv = if remaining > 0 { seq![(s.0, s.1.take(cut as int))] } else { seq![] };
                    let rv = if s.1.skip(cut as int).len() > 0 { seq![(s.0, s.1.skip(cut as int))] } else { seq![] };
                    assert(tail@ =~= s.1.skip(cut as int));
                    if remaining > 0 {
                        assert(s.1.take(cut as int) =~= s.1.subrange(0, cut as int));
                    }
                    assert(segment_views(out@) =~= segment_views(before) + bv + seq![cursor_view()] + rv);
                }
                inserted = true;
            } else {
                out.push(Segment { text: seg.text.clone(), kind: seg.kind });
                proof {
                    assert(segment_views(out@) =~= segment_views(before).push(seg@));
                }
                remaining = remaining - w;
            }
        }
        i = i + 1;
    }
    proof {
        assert(sv.skip(i as int) =~= Seq::<SegmentView>::empty());
    }
    if !inserted {
        let ghost before = out@;
        out.push(cursor_segment());
        proof {
            assert(segment_views(out@) =~= segment_views(before).push(cursor_view()));
        }
    } else {
        proof {
            assert(segment_views(out@) =~= target);
        }
    }
    out
}

/// The segments of a composed text as shown: plain text, misspelled words
/// and grammar errors in the order of their positions, and, when
/// `show_cursor` holds, the cursor at byte `cursor_pos` of the shown text.
pub fn create_highlighted_text(
    text: &str,
    spell_errors: &[SpellError],
    grammar_errors: &[GrammarError],
    show_cursor: bool,
    cursor_pos: usize,
) -> (r: Vec<Segment>)
    ensures
        segment_views(r@) == highlighted(text@, spell_errors@, grammar_errors@, show_cursor, cursor_pos as int),
{
    let marks = error_marks_exec(text, spell_errors, grammar_errors);
    let sorted = sort_marks_exec(&marks);
    proof {
        assert forall|k: int| 0 <= k < mark_views(marks@).len() implies (#[trigger] mark_views(marks@)[k]).3 <= text@.len() by {
            assert(mark_views(marks@)[k] == mark_view(marks@[k]));
        }
        lemma_sort_marks_ends(mark_views(marks@), text@.len() as int);
        assert forall|k: int| 0 <= k < sorted@.len() implies (#[trigger] sorted@[k]).3 <= text@.len() by {
            assert(mark_views(sorted@)[k] == mark_view(sorted@[k]));
        }
    }
    let segs = marked_segments_exec(text, &sorted);
    if show_cursor {
        insert_cursor(segs, cursor_pos)
    } else {
        segs
    }
}

proof fn lemma_insert_mark_ends(l: Seq<Mark>, m: Mark, n: int)
    requires
        forall|k: int| 0 <= k < l.len() ==> (#[trigger] l[k]).3 <= n,
        m.3 <= n,
    ensures
        forall|k: int| 0 <= k < insert_mark(l, m).len() ==> (#[trigger] insert_mark(l, m)[k]).3 <= n,
    decreases l.len(),
{
    lemma_insert_mark(l, m);
    let p = insert_point(l, m);
    let r = insert_mark(l, m);
    assert forall|k: int| 0 <= k < r.len() implies (#[trigger] r[k]).3 <= n by {
        if k < p {
            assert(r[k] == l[k]);
        } else if k > p {
            assert(r[k] == l[k - 1]);
        }
    }
}

proof fn lemma_sort_marks_ends(l: Seq<Mark>, n: int)
    requires
        forall|k: int| 0 <= k < l.len() ==> (#[trigger] l[k]).3 <= n,
    ensures
        forall|k: int| 0 <= k < sort_marks(l).len() ==> (#[trigger] sort_marks(l)[k]).3 <= n,
    decreases l.len(),
{
    if l.len() > 0 {
        let d = l.drop_last();
        assert forall|k: int| 0 <= k < d.len() implies (#[trigger] d[k]).3 <= n by {
            assert(d[k] == l[k]);
        }
        lemma_sort_marks_ends(d, n);
        assert(l.last() == l[l.len() - 1]);
        lemma_insert_mark_ends(sort_marks(d), l.last(), n);
    }
}

} // verus!

//! Text primitives shared by the checkers and the parsers: the model of
//! strings as sequences of characters, their UTF-8 byte widths, and the
//! Unicode character classes of the standard library.
use vstd::prelude::*;
use vstd::string::StringExecFns;
use vstd::utf8::*;

verus! {

broadcast use vstd::utf8::char_is_scalar;

/// Number of bytes of the UTF-8 encoding of `c`.
pub open spec fn char_width(c: char) -> nat {
    if (c as u32) < 0x80 {
        1
    } else if (c as u32) < 0x800 {
        2
    } else if (c as u32) < 0x10000 {
        3
    } else {
        4
    }
}

/// Number of bytes of the UTF-8 encoding of `s` (what `str::len` returns).
pub open spec fn text_width(s: Seq<char>) -> nat
    decreases s.len(),
{
    if s.len() == 0 {
        0
    } else {
        text_width(s.drop_last()) + char_width(s.last())
    }
}

/// The UTF-8 encoding of a concatenation is the concatenation of the encodings.
pub proof fn lemma_encode_utf8_append(a: Seq<char>, b: Seq<char>)
    ensures
        encode_utf8(a + b) == encode_utf8(a) + encode_utf8(b),
    decreases a.len(),
{
    if a.len() == 0 {
        assert(a + b =~= b);
        assert(encode_utf8(a) + encode_utf8(b) =~= encode_utf8(b));
    } else {
        assert((a + b).drop_first() =~= a.drop_first() + b);
        assert((a + b)[0] == a[0]);
        lemma_encode_utf8_append(a.drop_first(), b);
        assert(encode_utf8(a + b) =~= encode_utf8(a) + encode_utf8(b));
    }
}

/// The width of a character is the length of its UTF-8 encoding.
pub proof fn lemma_char_width_encoding(c: char)
    ensures
        encode_utf8(seq![c]).len() == char_width(c),
{
    let e = Seq::<char>::empty();
    assert(seq![c].drop_first() =~= e);
    assert(seq![c][0] == c);
    assert(encode_utf8(e) =~= Seq::<u8>::empty());
    assert(encode_utf8(seq![c]) == encode_scalar(c as u32) + encode_utf8(e));
    assert(is_scalar(c as u32));
}

/// `text_width` is the length of the UTF-8 encoding.
pub proof fn lemma_text_width_is_utf8_len(s: Seq<char>)
    ensures
        encode_utf8(s).len() == text_width(s),
    decreases s.len(),
{
    if s.len() > 0 {
        let p = s.drop_last();
        assert(s =~= p + seq![s.last()]);
        lemma_encode_utf8_append(p, seq![s.last()]);
        lemma_char_width_encoding(s.last());
        lemma_text_width_is_utf8_len(p);
    }
}

/// Width of a concatenation.
pub proof fn lemma_text_width_append(a: Seq<char>, b: Seq<char>)
    ensures
        text_width(a + b) == text_width(a) + text_width(b),
    decreases b.len(),
{
    if b.len() == 0 {
        assert(a + b =~= a);
    } else {
        assert((a + b).drop_last() =~= a + b.drop_last());
        assert((a + b).last() == b.last());
        lemma_text_width_append(a, b.drop_last());
    }
}

/// A width is at least the number of characters.
pub proof fn lemma_text_width_bounds(s: Seq<char>)
    ensures
        s.len() <= text_width(s) <= 4 * s.len(),
    decreases s.len(),
{
    if s.len() > 0 {
        lemma_text_width_bounds(s.drop_last());
    }
}

/// Byte width of one character, computed.
pub fn char_byte_width(c: char) -> (r: usize)
    ensures
        r == char_width(c),
{
    let u = c as u32;
    if u < 0x80 {
        1
    } else if u < 0x800 {
        2
    } else if u < 0x10000 {
        3
    } else {
        4
    }
}

/// Byte width of a string (`str::len`).
pub fn str_width(s: &str) -> (r: usize)
    ensures
        r == text_width(s@),
{
    let b = s.as_bytes();
    proof {
        lemma_text_width_is_utf8_len(s@);
    }
    b.len()
}

/// The characters of `s`, in order.
pub fn chars_of(s: &str) -> (r: Vec<char>)
    ensures
        r@ == s@,
{
    let mut r: Vec<char> = Vec::new();
    for c in it: s.chars()
        invariant
            r@ == it.seq().take(it.index() as int),
    {
        r.push(c);
    }
    r
}

/// Appends one character to a string (`String::push`).
#[verifier::external_body]
pub(crate) fn push_char(s: &mut String, c: char)
    ensures
        final(s)@ == old(s)@.push(c),
{
    s.push(c);
}

/// The string made of the given characters.
pub fn string_of(cs: &[char]) -> (r: String)
    ensures
        r@ == cs@,
{
    let mut r = String::new();
    let mut i: usize = 0;
    while i < cs.len()
        invariant
            0 <= i <= cs@.len(),
            r@ == cs@.take(i as int),
        decreases cs@.len() - i,
    {
        push_char(&mut r, cs[i]);
        proof {
            assert(cs@.take(i + 1) =~= cs@.take(i as int).push(cs@[i as int]));
        }
        i = i + 1;
    }
    assert(cs@.take(i as int) =~= cs@);
    r
}

/// An owned copy of `s`.
pub fn owned(s: &str) -> (r: String)
    ensures
        r@ == s@,
{
    String::from_str(s)
}

/// Whether two character sequences are equal.
pub fn chars_eq(a: &[char], b: &[char]) -> (r: bool)
    ensures
        r == (a@ == b@),
{
    if a.len() != b.len() {
        return false;
    }
    let mut i: usize = 0;
    while i < a.len()
        invariant
            a@.len() == b@.len(),
            0 <= i <= a@.len(),
            forall|k: int| 0 <= k < i ==> a@[k] == b@[k],
        decreases a@.len() - i,
    {
        if a[i] != b[i] {
            return false;
        }
        i = i + 1;
    }
    assert(a@ =~= b@);
    true
}

/// Whether two strings are equal.
pub fn str_eq(a: &str, b: &str) -> (r: bool)
    ensures
        r == (a@ == b@),
{
    let x = chars_of(a);
    let y = chars_of(b);
    chars_eq(x.as_slice(), y.as_slice())
}

/// Whether `p` is a prefix of `s`.
pub open spec fn is_prefix(p: Seq<char>, s: Seq<char>) -> bool {
    p.len() <= s.len() && s.take(p.len() as int) == p
}

/// Whether `p` is a suffix of `s`.
pub open spec fn is_suffix(p: Seq<char>, s: Seq<char>) -> bool {
    p.len() <= s.len() && s.skip(s.len() - p.len()) == p
}

/// Whether `p` occurs in `s` starting at index `i`.
pub open spec fn occurs_at(p: Seq<char>, s: Seq<char>, i: int) -> bool {
    0 <= i && i + p.len() <= s.len() && s.subrange(i, i + p.len()) == p
}

/// Index of the first occurrence of `p` in `s`.
#[verifier::opaque]
pub open spec fn find_first(p: Seq<char>, s: Seq<char>) -> Option<int> {
    if exists|i: int| occurs_at(p, s, i) {
        Some(choose|i: int| occurs_at(p, s, i) && forall|j: int| 0 <= j < i ==> !occurs_at(p, s, j))
    } else {
        None
    }
}

/// Whether `p` occurs in `s` at `i` (computed).
pub fn occurs_at_exec(p: &[char], s: &[char], i: usize) -> (r: bool)
    ensures
        r == occurs_at(p@, s@, i as int),
{
    if i > s.len() || s.len() - i < p.len() {
        return false;
    }
    let mut k: usize = 0;
    while k < p.len()
        invariant
            i + p@.len() <= s@.len(),
            s@.len() == s.len(),
            p@.len() == p.len(),
            0 <= k <= p@.len(),
            forall|m: int| 0 <= m < k ==> s@[i + m] == p@[m],
        decreases p@.len() - k,
    {
        if s[i + k] != p[k] {
            assert(s@.subrange(i as int, i + p@.len())[k as int] != p@[k as int]);
            return false;
        }
        k = k + 1;
    }
    assert(s@.subrange(i as int, i + p@.len()) =~= p@);
    true
}

/// Index of the first occurrence of `p` in `s` (`str::find`).
pub fn find_exec(p: &[char], s: &[char]) -> (r: Option<usize>)
    ensures
        match r {
            Some(i) => find_first(p@, s@) == Some(i as int) && occurs_at(p@, s@, i as int),
            None => find_first(p@, s@) is None,
        },
{
    reveal(find_first);
    if p.len() == 0 {
        proof {
            assert(occurs_at(p@, s@, 0)) by {
                assert(s@.subrange(0, 0) =~= p@);
            }
            let w = choose|k: int| occurs_at(p@, s@, k) && forall|j: int| 0 <= j < k ==> !occurs_at(p@, s@, j);
            assert(occurs_at(p@, s@, 0) && forall|j: int| 0 <= j < 0 ==> !occurs_at(p@, s@, j));
            assert(w == 0);
        }
        return Some(0);
    }
    let mut i: usize = 0;
    while i < s.len()
        invariant
            0 <= i <= s@.len(),
            p@.len() > 0,
            forall|j: int| 0 <= j < i ==> !occurs_at(p@, s@, j),
        decreases s@.len() - i,
    {
        if occurs_at_exec(p, s, i) {
            let ghost w = choose|k: int| occurs_at(p@, s@, k) && forall|j: int| 0 <= j < k ==> !occurs_at(p@, s@, j);
            proof {
                reveal(find_first);
                assert(occurs_at(p@, s@, i as int) && forall|j: int| 0 <= j < i ==> !occurs_at(p@, s@, j));
                if w < i {
                    assert(!occurs_at(p@, s@, w));
                } else if w > i {
                    assert(!occurs_at(p@, s@, i as int));
                }
            }
            return Some(i);
        }
        i = i + 1;
    }
    assert forall|j: int| !occurs_at(p@, s@, j) by {
        if 0 <= j && j < i {
        }
    }
    None
}

/// Whether `p` is a prefix of `s` (computed, `str::starts_with`).
pub fn starts_with_exec(s: &[char], p: &[char]) -> (r: bool)
    ensures
        r == is_prefix(p@, s@),
{
    let r = occurs_at_exec(p, s, 0);
    proof {
        if r {
            assert(s@.take(p@.len() as int) =~= s@.subrange(0, p@.len() as int));
        } else if p@.len() <= s@.len() {
            assert(s@.take(p@.len() as int) =~= s@.subrange(0, p@.len() as int));
        }
    }
    r
}

/// Whether `p` is a suffix of `s` (computed, `str::ends_with`).
pub fn ends_with_exec(s: &[char], p: &[char]) -> (r: bool)
    ensures
        r == is_suffix(p@, s@),
{
    if p.len() > s.len() {
        return false;
    }
    let r = occurs_at_exec(p, s, s.len() - p.len());
    proof {
        assert(s@.skip(s@.len() - p@.len()) =~= s@.subrange(s@.len() - p@.len(), s@.len() as int));
    }
    r
}

/// The characters of `s` from index `a` up to index `b`.
pub fn sub_chars(s: &[char], a: usize, b: usize) -> (r: Vec<char>)
    requires
        a <= b <= s@.len(),
    ensures
        r@ == s@.subrange(a as int, b as int),
{
    let mut r: Vec<char> = Vec::new();
    let mut k: usize = a;
    while k < b
        invariant
            a <= k <= b <= s@.len(),
            r@ == s@.subrange(a as int, k as int),
        decreases b - k,
    {
        r.push(s[k]);
        proof {
            assert(s@.subrange(a as int, k + 1) =~= s@.subrange(a as int, k as int).push(s@[k as int]));
        }
        k = k + 1;
    }
    r
}

/// Whether `c` occurs in `s` (`str::contains` with a character).
pub fn contains_char(s: &[char], c: char) -> (r: bool)
    ensures
        r == s@.contains(c),
{
    let mut i: usize = 0;
    while i < s.len()
        invariant
            0 <= i <= s@.len(),
            forall|k: int| 0 <= k < i ==> s@[k] != c,
        decreases s@.len() - i,
    {
        if s[i] == c {
            assert(s@[i as int] == c);
            return true;
        }
        i = i + 1;
    }
    false
}

/// `s` without its leading whitespace (`str::trim_start`).
pub open spec fn trim_start(s: Seq<char>) -> Seq<char>
    decreases s.len(),
{
    if s.len() > 0 && is_whitespace(s[0]) {
        trim_start(s.drop_first())
    } else {
        s
    }
}

/// `s` without its trailing whitespace (`str::trim_end`).
pub open spec fn trim_end(s: Seq<char>) -> Seq<char>
    decreases s.len(),
{
    if s.len() > 0 && is_whitespace(s.last()) {
        trim_end(s.drop_last())
    } else {
        s
    }
}

/// `s` without leading and trailing whitespace (`str::trim`).
pub open spec fn trim(s: Seq<char>) -> Seq<char> {
    trim_end(trim_start(s))
}

proof fn lemma_trim_start_skip(s: Seq<char>, lo: int)
    requires
        0 <= lo <= s.len(),
        forall|k: int| 0 <= k < lo ==> is_whitespace(s[k]),
        lo == s.len() || !is_whitespace(s[lo]),
    ensures
        trim_start(s) == s.skip(lo),
    decreases lo,
{
    if lo == 0 {
        assert(s.skip(0) =~= s);
    } else {
        let t = s.drop_first();
        assert forall|k: int| 0 <= k < lo - 1 implies is_whitespace(t[k]) by {
            assert(t[k] == s[k + 1]);
        }
        if lo - 1 < t.len() {
            assert(t[lo - 1] == s[lo]);
        }
        lemma_trim_start_skip(t, lo - 1);
        assert(t.skip(lo - 1) =~= s.skip(lo));
    }
}

proof fn lemma_trim_end_take(s: Seq<char>, hi: int)
    requires
        0 <= hi <= s.len(),
        forall|k: int| hi <= k < s.len() ==> is_whitespace(s[k]),
        hi == 0 || !is_whitespace(s[hi - 1]),
    ensures
        trim_end(s) == s.take(hi),
    decreases s.len() - hi,
{
    if hi == s.len() {
        assert(s.take(hi) =~= s);
    } else {
        let t = s.drop_last();
        assert(is_whitespace(s.last()));
        assert forall|k: int| hi <= k < t.len() implies is_whitespace(t[k]) by {
            assert(t[k] == s[k]);
        }
        if hi > 0 {
            assert(t[hi - 1] == s[hi - 1]);
        }
        lemma_trim_end_take(t, hi);
        assert(t.take(hi) =~= s.take(hi));
    }
}

/// `s` without leading and trailing whitespace, computed.
pub fn trim_chars(s: &[char]) -> (r: Vec<char>)
    ensures
        r@ == trim(s@),
{
    let mut lo: usize = 0;
    while lo < s.len() && char_is_whitespace(s[lo])
        invariant
            0 <= lo <= s@.len(),
            forall|k: int| 0 <= k < lo ==> is_whitespace(s@[k]),
        decreases s@.len() - lo,
    {
        lo = lo + 1;
    }
    proof {
        lemma_trim_start_skip(s@, lo as int);
    }
    let mut hi: usize = s.len();
    while hi > lo && char_is_whitespace(s[hi - 1])
        invariant
            lo <= hi <= s@.len(),
            forall|k: int| hi <= k < s@.len() ==> is_whitespace(s@[k]),
        decreases hi,
    {
        hi = hi - 1;
    }
    let ghost t = s@.skip(lo as int);
    proof {
        assert forall|k: int| hi - lo <= k < t.len() implies is_whitespace(t[k]) by {
            assert(t[k] == s@[k + lo]);
        }
        if hi > lo {
            assert(t[hi - lo - 1] == s@[hi - 1]);
        }
        lemma_trim_end_take(t, hi - lo);
    }
    let mut r: Vec<char> = Vec::new();
    let mut i: usize = lo;
    while i < hi
        invariant
            lo <= i <= hi <= s@.len(),
            r@ == s@.subrange(lo as int, i as int),
        decreases hi - i,
    {
        r.push(s[i]);
        proof {
            assert(s@.subrange(lo as int, i + 1) =~= s@.subrange(lo as int, i as int).push(s@[i as int]));
        }
        i = i + 1;
    }
    assert(t.take(hi - lo) =~= s@.subrange(lo as int, hi as int));
    r
}

/// A line without its carriage return (before the line feed that ended it).
pub open spec fn strip_cr(l: Seq<char>) -> Seq<char> {
    if l.len() > 0 && l.last() == '\r' {
        l.drop_last()
    } else {
        l
    }
}

/// The finished lines of `s` and the text after its last line feed.
pub open spec fn line_state(s: Seq<char>) -> (Seq<Seq<char>>, Seq<char>)
    decreases s.len(),
{
    if s.len() == 0 {
        (seq![], seq![])
    } else {
        let (done, cur) = line_state(s.drop_last());
        if s.last() == '\n' {
            (done.push(strip_cr(cur)), seq![])
        } else {
            (done, cur.push(s.last()))
        }
    }
}

/// The lines of `s` (`str::lines`): split at line feeds, a carriage return
/// before a line feed is removed, and an empty text after the last line feed
/// is not a line.
pub open spec fn std_lines(s: Seq<char>) -> Seq<Seq<char>> {
    let (done, cur) = line_state(s);
    if cur.len() > 0 {
        done.push(cur)
    } else {
        done
    }
}

/// The non-empty trimmed forms of the given lines, in order.
pub open spec fn trimmed_nonempty(ls: Seq<Seq<char>>) -> Seq<Seq<char>>
    decreases ls.len(),
{
    if ls.len() == 0 {
        seq![]
    } else {
        let prev = trimmed_nonempty(ls.drop_last());
        let t = trim(ls.last());
        if t.len() > 0 {
            prev.push(t)
        } else {
            prev
        }
    }
}

/// The words of a word list: each line of `s`, trimmed, when not empty.
pub open spec fn list_entries(s: Seq<char>) -> Seq<Seq<char>> {
    trimmed_nonempty(std_lines(s))
}

proof fn lemma_trimmed_nonempty_push(ls: Seq<Seq<char>>, l: Seq<char>)
    ensures
        trimmed_nonempty(ls.push(l)) == (if trim(l).len() > 0 {
            trimmed_nonempty(ls).push(trim(l))
        } else {
            trimmed_nonempty(ls)
        }),
{
    assert(ls.push(l).drop_last() =~= ls);
}

/// The entries of a word list, computed: the lines of `s`, trimmed, when not
/// empty.
pub fn list_entries_of(s: &str) -> (r: Vec<String>)
    ensures
        r@.len() == list_entries(s@).len(),
        forall|k: int| 0 <= k < r@.len() ==> #[trigger] r@[k]@ == list_entries(s@)[k],
{
    let cs = chars_of(s);
    let mut r: Vec<String> = Vec::new();
    let mut cur: Vec<char> = Vec::new();
    let ghost mut done: Seq<Seq<char>> = seq![];
    let mut i: usize = 0;
    while i < cs.len()
        invariant
            0 <= i <= cs@.len(),
            cs@ == s@,
            line_state(cs@.take(i as int)) == (done, cur@),
            r@.len() == trimmed_nonempty(done).len(),
            forall|k: int| 0 <= k < r@.len() ==> #[trigger] r@[k]@ == trimmed_nonempty(done)[k],
        decreases cs@.len() - i,
    {
        let c = cs[i];
        proof {
            assert(cs@.take(i + 1).drop_last() =~= cs@.take(i as int));
            assert(cs@.take(i + 1).last() == c);
        }
        if c == '\n' {
            let mut line = cur;
            if line.len() > 0 && line[line.len() - 1] == '\r' {
                line.pop();
            }
            proof {
                lemma_trimmed_nonempty_push(done, line@);
                done = done.push(line@);
            }
            let t = trim_chars(line.as_slice());
            if t.len() > 0 {
                r.push(string_of(t.as_slice()));
            }
            cur = Vec::new();
        } else {
            cur.push(c);
        }
        i = i + 1;
    }
    proof {
        assert(cs@.take(i as int) =~= s@);
    }
    if cur.len() > 0 {
        proof {
            lemma_trimmed_nonempty_push(done, cur@);
        }
        let t = trim_chars(cur.as_slice());
        if t.len() > 0 {
            r.push(string_of(t.as_slice()));
        }
    }
    r
}

/// Whether `c` is an ASCII character.
pub open spec fn is_ascii(c: char) -> bool {
    (c as u32) < 0x80
}

/// Whether `c` is an ASCII uppercase letter.
pub open spec fn ascii_upper(c: char) -> bool {
    ('A' as u32) <= (c as u32) <= ('Z' as u32)
}

/// Whether `c` is an ASCII lowercase letter.
pub open spec fn ascii_lower(c: char) -> bool {
    ('a' as u32) <= (c as u32) <= ('z' as u32)
}

/// Whether `c` has the Unicode `Alphabetic` property (`char::is_alphabetic`):
/// among ASCII characters, the letters.
#[verifier::opaque]
pub open spec fn is_alphabetic(c: char) -> bool {
    if is_ascii(c) {
        ascii_upper(c) || ascii_lower(c)
    } else {
        non_ascii_alphabetic(c)
    }
}

/// Whether a character outside ASCII has the Unicode `Alphabetic` property.
pub uninterp spec fn non_ascii_alphabetic(c: char) -> bool;

/// Whether `c` has the Unicode `Uppercase` property (`char::is_uppercase`):
/// among ASCII characters, `A` to `Z`.
#[verifier::opaque]
pub open spec fn is_uppercase(c: char) -> bool {
    if is_ascii(c) {
        ascii_upper(c)
    } else {
        non_ascii_uppercase(c)
    }
}

/// Whether a character outside ASCII has the Unicode `Uppercase` property.
pub uninterp spec fn non_ascii_uppercase(c: char) -> bool;

/// Whether `c` is in a Unicode numeric category (`char::is_numeric`): among
/// ASCII characters, the digits.
#[verifier::opaque]
pub open spec fn is_numeric(c: char) -> bool {
    if is_ascii(c) {
        ('0' as u32) <= (c as u32) <= ('9' as u32)
    } else {
        non_ascii_numeric(c)
    }
}

/// Whether a character outside ASCII is in a Unicode numeric category.
pub uninterp spec fn non_ascii_numeric(c: char) -> bool;

/// Whether `c` has the Unicode `White_Space` property (`char::is_whitespace`).
/// Among ASCII characters these are tab, line feed, vertical tab, form
/// feed, carriage return and space.
pub open spec fn is_whitespace(c: char) -> bool {
    if (c as u32) < 0x80 {
        c == ' ' || ('\t' as u32) <= (c as u32) <= ('\r' as u32)
    } else {
        non_ascii_white_space(c)
    }
}

/// Whether a character outside ASCII has the Unicode `White_Space` property:
/// next line, no-break space, ogham space mark, the spaces from en quad to
/// hair space, line and paragraph separators, narrow no-break space,
/// medium mathematical space and ideographic space.
pub open spec fn non_ascii_white_space(c: char) -> bool {
    let u = c as u32;
    u == 0x85 || u == 0xA0 || u == 0x1680 || (0x2000 <= u <= 0x200A) || u == 0x2028 || u == 0x2029 || u == 0x202F
        || u == 0x205F || u == 0x3000
}

/// The lowercase form of an ASCII character: `A` to `Z` become `a` to `z`,
/// other characters stay.
pub open spec fn ascii_to_lower(c: char) -> char {
    if ascii_upper(c) {
        ((c as u32) + 32) as char
    } else {
        c
    }
}

/// Whether every character of `s` is ASCII.
pub open spec fn all_ascii(s: Seq<char>) -> bool {
    forall|i: int| 0 <= i < s.len() ==> is_ascii(#[trigger] s[i])
}

/// The lowercase form of a string (`str::to_lowercase`): for ASCII text,
/// each uppercase letter replaced by its lowercase letter.
#[verifier::opaque]
pub open spec fn lowercase(s: Seq<char>) -> Seq<char> {
    if all_ascii(s) {
        s.map_values(|c: char| ascii_to_lower(c))
    } else {
        non_ascii_lowercase(s)
    }
}

/// The lowercase form of a string that holds a character outside ASCII.
pub uninterp spec fn non_ascii_lowercase(s: Seq<char>) -> Seq<char>;

/// The uppercase form of a character (what `char::to_uppercase` yields):
/// for an ASCII character, `a` to `z` become `A` to `Z`, others stay.
#[verifier::opaque]
pub open spec fn uppercase_char(c: char) -> Seq<char> {
    if is_ascii(c) {
        if ascii_lower(c) {
            seq![((c as u32) - 32) as char]
        } else {
            seq![c]
        }
    } else {
        non_ascii_uppercase_char(c)
    }
}

/// The uppercase form of a character outside ASCII.
pub uninterp spec fn non_ascii_uppercase_char(c: char) -> Seq<char>;

/// `char::is_alphabetic`: the result is the `Alphabetic` property of `c`.
#[verifier::external_body]
pub(crate) fn char_is_alphabetic(c: char) -> (r: bool)
    ensures
        r == is_alphabetic(c),
        !is_ascii(c) ==> r == non_ascii_alphabetic(c),
{
    c.is_alphabetic()
}

/// `char::is_uppercase`: the result is the `Uppercase` property of `c`.
#[verifier::external_body]
pub(crate) fn char_is_uppercase(c: char) -> (r: bool)
    ensures
        r == is_uppercase(c),
        !is_ascii(c) ==> r == non_ascii_uppercase(c),
{
    c.is_uppercase()
}

/// `char::is_numeric`: the result is the numeric-category test of `c`.
#[verifier::external_body]
pub(crate) fn char_is_numeric(c: char) -> (r: bool)
    ensures
        r == is_numeric(c),
        !is_ascii(c) ==> r == non_ascii_numeric(c),
{
    c.is_numeric()
}

/// `char::is_whitespace`: the result is the `White_Space` property of `c`;
/// for ASCII characters the property is stated in `is_whitespace`.
#[verifier::external_body]
pub(crate) fn char_is_whitespace(c: char) -> (r: bool)
    ensures
        r == is_whitespace(c),
        (c as u32) >= 0x80 ==> r == non_ascii_white_space(c),
{
    c.is_whitespace()
}

/// `str::to_lowercase`: the result is the lowercase form of `s`, a function
/// of `s` alone; ASCII text has its uppercase letters lowered.
#[verifier::external_body]
pub(crate) fn to_lowercase(s: &str) -> (r: String)
    ensures
        r@ == lowercase(s@),
        !all_ascii(s@) ==> r@ == non_ascii_lowercase(s@),
{
    s.to_lowercase()
}

/// `char::to_uppercase`: the characters it yields, collected into a string.
#[verifier::external_body]
pub(crate) fn char_to_uppercase(c: char) -> (r: String)
    ensures
        r@ == uppercase_char(c),
        !is_ascii(c) ==> r@ == non_ascii_uppercase_char(c),
{
    c.to_uppercase().collect::<String>()
}

/// Two sequences that differ at a position are different.
pub proof fn lemma_differ_at(a: Seq<char>, b: Seq<char>, i: int)
    requires
        0 <= i < a.len(),
        i < b.len(),
        a[i] != b[i],
    ensures
        a != b,
{
}

/// Two sequences of different lengths are different.
pub proof fn lemma_differ_len(a: Seq<char>, b: Seq<char>)
    requires
        a.len() != b.len(),
    ensures
        a != b,
{
}

} // verus!

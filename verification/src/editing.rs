//! Editing the compose form: the recipients typed in the `To` field, the
//! spelling or grammar error under the cursor, and the replacement of a
//! marked range by a suggestion.
use vstd::prelude::*;
use vstd::string::StringExecFns;
use crate::text::{
    lemma_differ_at,
    text_width, trimmed_nonempty, chars_of, string_of, sub_chars, trim_chars, str_width, str_eq, owned,
    lemma_text_width_append, lemma_text_width_bounds,
};
use crate::email::{EmailAddress, AddressView, address_views, split_on, split_chars, char_views};
use crate::spellcheck::SpellError;
use crate::grammarcheck::GrammarError;
use crate::display::{char_pos, char_pos_from, byte_to_char_pos};

verus! {

/// The recipients typed in the `To` field: the comma-separated entries,
/// trimmed, the empty ones left out, each an address without a name.
pub open spec fn to_field_recipients(s: Seq<char>) -> Seq<AddressView> {
    trimmed_nonempty(split_on(s, ',')).map_values(|t: Seq<char>| (None::<Seq<char>>, t))
}

/// The recipients typed in the `To` field, computed.
pub fn to_field_addresses(text: &str) -> (r: Vec<EmailAddress>)
    ensures
        address_views(r@) == to_field_recipients(text@),
{
    let cs = chars_of(text);
    let parts = split_chars(cs.as_slice(), ',');
    let ghost ps = split_on(text@, ',');
    let mut r: Vec<EmailAddress> = Vec::new();
    let mut i: usize = 0;
    proof {
        assert(ps.take(0) =~= Seq::<Seq<char>>::empty());
    }
    while i < parts.len()
        invariant
            0 <= i <= parts@.len(),
            char_views(parts@) == ps,
            ps == split_on(text@, ','),
            address_views(r@) == trimmed_nonempty(ps.take(i as int)).map_values(
                |t: Seq<char>| (None::<Seq<char>>, t),
            ),
        decreases parts@.len() - i,
    {
        let ghost next = ps.take(i + 1);
        proof {
            assert(next.drop_last() =~= ps.take(i as int));
            assert(next.last() == parts@[i as int]@);
        }
        let t = trim_chars(parts[i].as_slice());
        if t.len() > 0 {
            let ghost before = r@;
            r.push(EmailAddress { name: None, address: string_of(t.as_slice()) });
            proof {
                assert(address_views(r@) =~= address_views(before).push((None::<Seq<char>>, t@)));
                assert(trimmed_nonempty(next) == trimmed_nonempty(ps.take(i as int)).push(t@));
                assert(trimmed_nonempty(next).map_values(|t: Seq<char>| (None::<Seq<char>>, t)) =~= trimmed_nonempty(
                    ps.take(i as int),
                ).map_values(|t: Seq<char>| (None::<Seq<char>>, t)).push((None::<Seq<char>>, t@)));
            }
        } else {
            proof {
                assert(trimmed_nonempty(next) == trimmed_nonempty(ps.take(i as int)));
            }
        }
        i = i + 1;
    }
    proof {
        assert(ps.take(i as int) =~= ps);
    }
    r
}

/// Whether the cursor at byte `cursor` is on the misspelled word: from its
/// first byte to just after its last.
pub open spec fn on_spell_error(e: SpellError, cursor: int) -> bool {
    e.position <= cursor <= e.position + text_width(e.word@)
}

/// Whether the cursor at byte `cursor` is in the range of a grammar error,
/// both ends included.
pub open spec fn on_grammar_error(e: GrammarError, cursor: int) -> bool {
    e.start <= cursor <= e.end
}

/// The first spelling error under the cursor, by its index.
pub fn spell_error_at(errors: &[SpellError], cursor: usize) -> (r: Option<usize>)
    ensures
        match r {
            Some(i) => i < errors@.len() && on_spell_error(errors@[i as int], cursor as int) && forall|k: int|
                0 <= k < i ==> !on_spell_error(#[trigger] errors@[k], cursor as int),
            None => forall|k: int| 0 <= k < errors@.len() ==> !on_spell_error(#[trigger] errors@[k], cursor as int),
        },
{
    let mut i: usize = 0;
    while i < errors.len()
        invariant
            0 <= i <= errors@.len(),
            forall|k: int| 0 <= k < i ==> !on_spell_error(#[trigger] errors@[k], cursor as int),
        decreases errors@.len() - i,
    {
        let e = &errors[i];
        if e.position <= cursor {
            let w = str_width(e.word.as_str());
            if cursor - e.position <= w {
                return Some(i);
            }
        }
        i = i + 1;
    }
    None
}

/// The first grammar error under the cursor, by its index.
pub fn grammar_error_at(errors: &[GrammarError], cursor: usize) -> (r: Option<usize>)
    ensures
        match r {
            Some(i) => i < errors@.len() && on_grammar_error(errors@[i as int], cursor as int) && forall|k: int|
                0 <= k < i ==> !on_grammar_error(#[trigger] errors@[k], cursor as int),
            None => forall|k: int| 0 <= k < errors@.len() ==> !on_grammar_error(#[trigger] errors@[k], cursor as int),
        },
{
    let mut i: usize = 0;
    while i < errors.len()
        invariant
            0 <= i <= errors@.len(),
            forall|k: int| 0 <= k < i ==> !on_grammar_error(#[trigger] errors@[k], cursor as int),
        decreases errors@.len() - i,
    {
        if errors[i].start <= cursor && cursor <= errors[i].end {
            return Some(i);
        }
        i = i + 1;
    }
    None
}

/// Whether byte offset `b` of `s` falls between two characters (or at an
/// end) of its UTF-8 encoding.
pub open spec fn char_boundary(s: Seq<char>, b: int) -> bool {
    exists|k: int| 0 <= k <= s.len() && #[trigger] text_width(s.take(k)) == b
}

proof fn lemma_width_grows(s: Seq<char>, j: int, k: int)
    requires
        0 <= j < k <= s.len(),
    ensures
        text_width(s.take(j)) < text_width(s.take(k)),
{
    assert(s.take(k) =~= s.take(j) + s.subrange(j, k));
    lemma_text_width_append(s.take(j), s.subrange(j, k));
    lemma_text_width_bounds(s.subrange(j, k));
}

proof fn lemma_char_pos_of_boundary(s: Seq<char>, k: int, j: int)
    requires
        0 <= j <= k <= s.len(),
    ensures
        char_pos_from(s, text_width(s.take(k)) as int, j) == k,
    decreases k - j,
{
    if j < k {
        lemma_width_grows(s, j, k);
        lemma_char_pos_of_boundary(s, k, j + 1);
    }
}

/// `s` with the bytes from `start` to `end` replaced by `replacement`
/// (`String::replace_range`), both offsets being character boundaries.
pub open spec fn replaced(s: Seq<char>, start: int, end: int, replacement: Seq<char>) -> Seq<char> {
    s.take(char_pos(s, start)) + replacement + s.skip(char_pos(s, end))
}

/// Replaces the bytes from `start` to `end` of `text` by `replacement`, and
/// gives the new text with the cursor just after the replacement.
pub fn apply_replacement(text: &str, start: usize, end: usize, replacement: &str) -> (r: (String, usize))
    requires
        start <= end,
        char_boundary(text@, start as int),
        char_boundary(text@, end as int),
        start + text_width(replacement@) <= usize::MAX,
    ensures
        r.0@ == replaced(text@, start as int, end as int, replacement@),
        r.1 == start + text_width(replacement@),
        r.1 == text_width(text@.take(char_pos(text@, start as int)) + replacement@),
{
    let a = byte_to_char_pos(text, start);
    let b = byte_to_char_pos(text, end);
    proof {
        let ka = choose|k: int| 0 <= k <= text@.len() && #[trigger] text_width(text@.take(k)) == start;
        let kb = choose|k: int| 0 <= k <= text@.len() && #[trigger] text_width(text@.take(k)) == end;
        lemma_char_pos_of_boundary(text@, ka, 0);
        lemma_char_pos_of_boundary(text@, kb, 0);
        if kb < ka {
            lemma_width_grows(text@, kb, ka);
        }
        lemma_text_width_append(text@.take(a as int), replacement@);
    }
    let cs = chars_of(text);
    let head = sub_chars(cs.as_slice(), 0, a);
    let tail = sub_chars(cs.as_slice(), b, cs.len());
    let mut r = string_of(head.as_slice());
    r.append(replacement);
    let t = string_of(tail.as_slice());
    r.append(t.as_str());
    let w = str_width(replacement);
    proof {
        assert(head@ =~= text@.take(a as int));
        assert(tail@ =~= text@.skip(b as int));
    }
    (r, start + w)
}

/// The content type an attachment gets from its file extension.
pub open spec fn content_type_of(ext: Option<Seq<char>>) -> Seq<char> {
    match ext {
        Some(e) => if e == "txt"@ {
            "text/plain"@
        } else if e == "pdf"@ {
            "application/pdf"@
        } else if e == "jpg"@ || e == "jpeg"@ {
            "image/jpeg"@
        } else if e == "png"@ {
            "image/png"@
        } else if e == "gif"@ {
            "image/gif"@
        } else if e == "doc"@ {
            "application/msword"@
        } else if e == "docx"@ {
            "application/vnd.openxmlformats-officedocument.wordprocessingml.document"@
        } else if e == "xls"@ {
            "application/vnd.ms-excel"@
        } else if e == "xlsx"@ {
            "application/vnd.openxmlformats-officedocument.spreadsheetml.sheet"@
        } else {
            "application/octet-stream"@
        },
        None => "application/octet-stream"@,
    }
}

/// The content type an attachment gets from its file extension, computed.
pub fn content_type_for(ext: Option<&str>) -> (r: String)
    ensures
        r@ == content_type_of(match ext {
            Some(e) => Some(e@),
            None => None,
        }),
{
    match ext {
        Some(e) => {
            if str_eq(e, "txt") {
                owned("text/plain")
            } else if str_eq(e, "pdf") {
                owned("application/pdf")
            } else if str_eq(e, "jpg") || str_eq(e, "jpeg") {
                owned("image/jpeg")
            } else if str_eq(e, "png") {
                owned("image/png")
            } else if str_eq(e, "gif") {
                owned("image/gif")
            } else if str_eq(e, "doc") {
                owned("application/msword")
            } else if str_eq(e, "docx") {
                owned("application/vnd.openxmlformats-officedocument.wordprocessingml.document")
            } else if str_eq(e, "xls") {
                owned("application/vnd.ms-excel")
            } else if str_eq(e, "xlsx") {
                owned("application/vnd.openxmlformats-officedocument.spreadsheetml.sheet")
            } else {
                owned("application/octet-stream")
            }
        },
        None => owned("application/octet-stream"),
    }
}

/// An entry of a directory listing.
#[derive(Debug, Clone)]
pub struct FileEntry {
    pub name: String,
    pub is_directory: bool,
    /// The size of a file in bytes, when known.
    pub size: Option<u64>,
}

/// Whether name `a` comes before name `b`: character by character, by code
/// point, a proper prefix first.
pub open spec fn name_before(a: Seq<char>, b: Seq<char>) -> bool
    decreases a.len(),
{
    if a.len() == 0 {
        b.len() > 0
    } else if b.len() == 0 {
        false
    } else if a[0] != b[0] {
        (a[0] as u32) < (b[0] as u32)
    } else {
        name_before(a.drop_first(), b.drop_first())
    }
}

/// Whether entry `a` is listed before entry `b`: directories before files,
/// then by name.
pub open spec fn entry_before(a: FileEntry, b: FileEntry) -> bool {
    (a.is_directory && !b.is_directory) || (a.is_directory == b.is_directory && name_before(a.name@, b.name@))
}

/// `l` with `e` inserted after every entry that is not listed after it.
pub open spec fn insert_entry(l: Seq<FileEntry>, e: FileEntry) -> Seq<FileEntry>
    decreases l.len(),
{
    if l.len() == 0 {
        seq![e]
    } else if !entry_before(e, l.last()) {
        l.push(e)
    } else {
        insert_entry(l.drop_last(), e).push(l.last())
    }
}

/// Whether a name is hidden in the browser: it starts with `.` and is not
/// the parent entry `..`.
pub open spec fn hidden_name(n: Seq<char>) -> bool {
    n.len() > 0 && n[0] == '.' && n != seq!['.', '.']
}

/// The entries shown by the file browser: hidden names left out, the others
/// ordered directories first, then by name, equal entries keeping their
/// order.
pub open spec fn browser_order(l: Seq<FileEntry>) -> Seq<FileEntry>
    decreases l.len(),
{
    if l.len() == 0 {
        seq![]
    } else if hidden_name(l.last().name@) {
        browser_order(l.drop_last())
    } else {
        insert_entry(browser_order(l.drop_last()), l.last())
    }
}

/// Whether name `a` comes before name `b`, computed.
fn name_before_exec(a: &[char], b: &[char]) -> (r: bool)
    ensures
        r == name_before(a@, b@),
{
    let mut i: usize = 0;
    proof {
        assert(a@.skip(0) =~= a@);
        assert(b@.skip(0) =~= b@);
    }
    while i < a.len() && i < b.len() && a[i] == b[i]
        invariant
            0 <= i <= a@.len(),
            i <= b@.len(),
            name_before(a@, b@) == name_before(a@.skip(i as int), b@.skip(i as int)),
        decreases a@.len() - i,
    {
        proof {
            let sa = a@.skip(i as int);
            let sb = b@.skip(i as int);
            assert(sa.drop_first() =~= a@.skip(i + 1));
            assert(sb.drop_first() =~= b@.skip(i + 1));
            assert(sa[0] == a@[i as int] && sb[0] == b@[i as int]);
        }
        i = i + 1;
    }
    proof {
        if i < a.len() && i < b.len() {
            assert(a@.skip(i as int)[0] == a@[i as int]);
            assert(b@.skip(i as int)[0] == b@[i as int]);
        }
    }
    if i == a.len() {
        i < b.len()
    } else if i == b.len() {
        false
    } else {
        (a[i] as u32) < (b[i] as u32)
    }
}

/// Whether entry `a` is listed before entry `b`, computed.
fn entry_before_exec(a: &FileEntry, b: &FileEntry) -> (r: bool)
    ensures
        r == entry_before(*a, *b),
{
    if a.is_directory && !b.is_directory {
        true
    } else if a.is_directory == b.is_directory {
        let x = chars_of(a.name.as_str());
        let y = chars_of(b.name.as_str());
        name_before_exec(x.as_slice(), y.as_slice())
    } else {
        false
    }
}

/// Where `insert_entry` puts `e`.
pub open spec fn entry_insert_point(l: Seq<FileEntry>, e: FileEntry) -> int
    decreases l.len(),
{
    if l.len() == 0 {
        0
    } else if !entry_before(e, l.last()) {
        l.len() as int
    } else {
        entry_insert_point(l.drop_last(), e)
    }
}

proof fn lemma_insert_entry(l: Seq<FileEntry>, e: FileEntry)
    ensures
        0 <= entry_insert_point(l, e) <= l.len(),
        insert_entry(l, e) == l.insert(entry_insert_point(l, e), e),
    decreases l.len(),
{
    if l.len() == 0 {
        assert(insert_entry(l, e) =~= l.insert(0, e));
    } else if !entry_before(e, l.last()) {
        assert(insert_entry(l, e) =~= l.insert(l.len() as int, e));
    } else {
        let d = l.drop_last();
        lemma_insert_entry(d, e);
        let p = entry_insert_point(d, e);
        assert(insert_entry(l, e) =~= l.insert(p, e));
    }
}

proof fn lemma_entry_insert_point_prefix(l: Seq<FileEntry>, e: FileEntry, j: int)
    requires
        0 <= j <= l.len(),
        forall|k: int| j <= k < l.len() ==> entry_before(e, #[trigger] l[k]),
    ensures
        entry_insert_point(l, e) == entry_insert_point(l.take(j), e),
    decreases l.len() - j,
{
    if j < l.len() {
        let d = l.drop_last();
        assert forall|k: int| j <= k < d.len() implies entry_before(e, #[trigger] d[k]) by {
            assert(d[k] == l[k]);
        }
        assert(entry_before(e, l[l.len() - 1]));
        lemma_entry_insert_point_prefix(d, e, j);
        assert(d.take(j) =~= l.take(j));
    } else {
        assert(l.take(j) =~= l);
    }
}

/// The entries shown by the file browser, computed: hidden names left out,
/// directories first, then by name, equal entries keeping their order.
pub fn browser_entries(entries: Vec<FileEntry>) -> (r: Vec<FileEntry>)
    ensures
        r@ == browser_order(entries@),
{
    let ghost input = entries@;
    let mut rest = entries;
    let mut out: Vec<FileEntry> = Vec::new();
    let ghost mut taken: int = 0;
    proof {
        assert(input.take(0) =~= Seq::<FileEntry>::empty());
        assert(input.skip(0) =~= input);
    }
    while rest.len() > 0
        invariant
            0 <= taken <= input.len(),
            rest@ == input.skip(taken as int),
            out@ == browser_order(input.take(taken as int)),
        decreases rest@.len(),
    {
        let e = rest.remove(0);
        proof {
            assert(e == input[taken as int]);
            assert(input.take(taken + 1).drop_last() =~= input.take(taken as int));
            assert(input.take(taken + 1).last() == e);
            assert(rest@ =~= input.skip(taken + 1));
        }
        let cs = chars_of(e.name.as_str());
        let hidden = cs.len() > 0 && cs[0] == '.' && !(cs.len() == 2 && cs[1] == '.');
        proof {
            if cs.len() == 2 && cs[1] == '.' && cs[0] == '.' {
                assert(cs@ =~= seq!['.', '.']);
            }
        }
        if !hidden {
            let ghost before = out@;
            let mut j: usize = out.len();
            while j > 0 && entry_before_exec(&e, &out[j - 1])
                invariant
                    out@ == before,
                    0 <= j <= before.len(),
                    forall|k: int| j <= k < before.len() ==> entry_before(e, #[trigger] before[k]),
                decreases j,
            {
                j = j - 1;
            }
            proof {
                lemma_entry_insert_point_prefix(before, e, j as int);
                lemma_insert_entry(before, e);
                if j > 0 {
                    assert(before.take(j as int).last() == before[j - 1]);
                }
                assert(entry_insert_point(before.take(j as int), e) == j);
            }
            out.insert(j, e);
        }
        proof {
            taken = taken + 1;
        }
    }
    proof {
        assert(input.take(taken as int) =~= input);
    }
    out
}

} // verus!

verus! {

/// Attached files get the registered MIME type of their extension: text,
/// PDF, JPEG (either spelling), PNG, GIF, Word and Excel documents (old and
/// new formats); any other extension, or none, gives
/// `application/octet-stream`.
pub proof fn law_attachment_content_types(other: Seq<char>)
    ensures
        content_type_of(Some("txt"@)) == "text/plain"@,
        content_type_of(Some("pdf"@)) == "application/pdf"@,
        content_type_of(Some("jpg"@)) == "image/jpeg"@,
        content_type_of(Some("jpeg"@)) == "image/jpeg"@,
        content_type_of(Some("png"@)) == "image/png"@,
        content_type_of(Some("gif"@)) == "image/gif"@,
        content_type_of(Some("doc"@)) == "application/msword"@,
        content_type_of(Some("docx"@)) == "application/vnd.openxmlformats-officedocument.wordprocessingml.document"@,
        content_type_of(Some("xls"@)) == "application/vnd.ms-excel"@,
        content_type_of(Some("xlsx"@)) == "application/vnd.openxmlformats-officedocument.spreadsheetml.sheet"@,
        content_type_of(None) == "application/octet-stream"@,
        other != "txt"@ && other != "pdf"@ && other != "jpg"@ && other != "jpeg"@ && other != "png"@ && other
            != "gif"@ && other != "doc"@ && other != "docx"@ && other != "xls"@ && other != "xlsx"@
            ==> content_type_of(Some(other)) == "application/octet-stream"@,
{
    reveal_strlit("txt");
    reveal_strlit("pdf");
    reveal_strlit("jpg");
    reveal_strlit("jpeg");
    reveal_strlit("png");
    reveal_strlit("gif");
    reveal_strlit("doc");
    reveal_strlit("docx");
    reveal_strlit("xls");
    reveal_strlit("xlsx");
    lemma_differ_at("pdf"@, "txt"@, 0);
    lemma_differ_at("jpg"@, "txt"@, 0);
    lemma_differ_at("jpg"@, "pdf"@, 0);
    lemma_differ_at("png"@, "txt"@, 0);
    lemma_differ_at("png"@, "pdf"@, 1);
    lemma_differ_at("png"@, "jpg"@, 0);
    lemma_differ_at("gif"@, "txt"@, 0);
    lemma_differ_at("gif"@, "pdf"@, 0);
    lemma_differ_at("gif"@, "jpg"@, 0);
    lemma_differ_at("gif"@, "png"@, 0);
    lemma_differ_at("doc"@, "txt"@, 0);
    lemma_differ_at("doc"@, "pdf"@, 0);
    lemma_differ_at("doc"@, "jpg"@, 0);
    lemma_differ_at("doc"@, "png"@, 0);
    lemma_differ_at("doc"@, "gif"@, 0);
    lemma_differ_at("docx"@, "jpeg"@, 0);
    lemma_differ_at("xls"@, "txt"@, 0);
    lemma_differ_at("xls"@, "pdf"@, 0);
    lemma_differ_at("xls"@, "jpg"@, 0);
    lemma_differ_at("xls"@, "png"@, 0);
    lemma_differ_at("xls"@, "gif"@, 0);
    lemma_differ_at("xls"@, "doc"@, 0);
    lemma_differ_at("xlsx"@, "jpeg"@, 0);
    lemma_differ_at("xlsx"@, "docx"@, 0);
}


} // verus!

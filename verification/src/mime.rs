//! The structure of a parsed MIME message as plain values, and the rules
//! that read header values and attachments out of it.
use vstd::prelude::*;
use vstd::string::StringExecFns;
use crate::text::{
    chars_of, find_exec, find_first, is_prefix, str_eq, string_of, owned, trim, trim_chars,
    sub_chars, lowercase, to_lowercase, starts_with_exec,
};
use crate::email::{split_on, split_chars, char_views, opt_view};

verus! {

/// An address as the MIME parser reads it.
#[derive(Debug, Clone)]
pub struct MimeAddr {
    pub name: Option<String>,
    pub address: Option<String>,
}

/// A `Content-Type` or `Content-Disposition` value.
#[derive(Debug, Clone)]
pub struct MimeContentType {
    pub c_type: String,
    pub c_subtype: Option<String>,
    pub attributes: Vec<(String, String)>,
}

/// A parsed header value. Address groups and empty values are `Other`.
#[derive(Debug, Clone)]
pub enum MimeValue {
    Address(MimeAddr),
    AddressList(Vec<MimeAddr>),
    Text(String),
    TextList(Vec<String>),
    /// A date, as the parser displays it.
    DateTime(String),
    ContentType(MimeContentType),
    Other,
}

/// A header: its name, the parser's debug rendering of the name (such as
/// `Rfc(ContentType)` or `Other("X-Mailer")`), and its value.
#[derive(Debug, Clone)]
pub struct MimeHeader {
    pub name: String,
    pub debug_name: String,
    pub value: MimeValue,
}

/// The body of a MIME part.
#[derive(Debug, Clone)]
pub enum MimeBody {
    Text(String),
    Html(String),
    Binary(Vec<u8>),
    InlineBinary(Vec<u8>),
    Message,
    Multipart,
}

/// A MIME part: its headers and its body.
#[derive(Debug, Clone)]
pub struct MimePart {
    pub headers: Vec<MimeHeader>,
    pub body: MimeBody,
}

/// A parsed message: what the e-mail model reads of it. `headers` and
/// `from` are those of the top-level part; `parts` lists every part, the
/// top-level one first.
#[derive(Debug, Clone)]
pub struct ParsedMessage {
    pub subject: Option<String>,
    /// The `Date` header as seconds since the Unix epoch.
    pub date: Option<i64>,
    pub from: MimeValue,
    pub headers: Vec<MimeHeader>,
    pub body_text: Option<String>,
    pub body_html: Option<String>,
    pub parts: Vec<MimePart>,
}

/// The text of an optional string, empty when absent.
pub open spec fn or_empty(o: Option<String>) -> Seq<char> {
    match o {
        Some(s) => s@,
        None => seq![],
    }
}

/// How an address is shown in a header: `name <address>`, or the address
/// alone when there is no name.
pub open spec fn addr_display(a: MimeAddr) -> Seq<char> {
    let name = or_empty(a.name);
    let email = or_empty(a.address);
    if name.len() == 0 {
        email
    } else {
        name + seq![' ', '<'] + email + seq!['>']
    }
}

/// The items of `l` joined with `", "`.
pub open spec fn join_comma(l: Seq<Seq<char>>) -> Seq<char>
    decreases l.len(),
{
    if l.len() == 0 {
        seq![]
    } else if l.len() == 1 {
        l[0]
    } else {
        join_comma(l.drop_last()) + seq![',', ' '] + l.last()
    }
}

/// The text stored for a header value: a text as it is, the last item of a
/// text list (an empty list gives the empty text), addresses as shown in a
/// header joined with `", "`, a date as displayed; other values have none.
pub open spec fn header_value_text(v: MimeValue) -> Option<Seq<char>> {
    match v {
        MimeValue::Text(t) => Some(t@),
        MimeValue::TextList(l) => if l.len() > 0 {
            Some(l@.last()@)
        } else {
            Some(seq![])
        },
        MimeValue::Address(a) => Some(addr_display(a)),
        MimeValue::AddressList(l) => Some(join_comma(l@.map_values(|a: MimeAddr| addr_display(a)))),
        MimeValue::DateTime(d) => Some(d@),
        MimeValue::ContentType(_) => None,
        MimeValue::Other => None,
    }
}

/// `s` followed by `t`, computed.
fn concat(s: String, t: &str) -> (r: String)
    ensures
        r@ == s@ + t@,
{
    let mut r = s;
    r.append(t);
    r
}

/// How an address is shown in a header, computed.
fn addr_display_of(a: &MimeAddr) -> (r: String)
    ensures
        r@ == addr_display(*a),
{
    let name = match &a.name {
        Some(n) => n.clone(),
        None => String::new(),
    };
    let email = match &a.address {
        Some(e) => e.clone(),
        None => String::new(),
    };
    proof {
        crate::text::lemma_text_width_bounds(name@);
    }
    if crate::text::str_width(name.as_str()) == 0 {
        email
    } else {
        let r = concat(name, " <");
        let r = concat(r, email.as_str());
        let r = concat(r, ">");
        proof {
            reveal_strlit(" <");
            reveal_strlit(">");
            assert(r@ =~= addr_display(*a));
        }
        r
    }
}

/// The items joined with `", "`, computed.
fn join_comma_of(l: &Vec<String>) -> (r: String)
    ensures
        r@ == join_comma(l@.map_values(|s: String| s@)),
{
    let ghost v = l@.map_values(|s: String| s@);
    let mut r = String::new();
    let mut i: usize = 0;
    while i < l.len()
        invariant
            v == l@.map_values(|s: String| s@),
            0 <= i <= l@.len(),
            r@ == join_comma(v.take(i as int)),
        decreases l@.len() - i,
    {
        proof {
            assert(v.take(i + 1).drop_last() =~= v.take(i as int));
            assert(v.take(i + 1).last() == l@[i as int]@);
        }
        if i > 0 {
            r = concat(r, ", ");
            proof {
                reveal_strlit(", ");
            }
        }
        r = concat(r, l[i].as_str());
        proof {
            if i == 0 {
                assert(v.take(1) =~= seq![l@[0]@]);
                assert(r@ =~= l@[0]@);
            } else {
                assert(r@ =~= join_comma(v.take(i as int)) + seq![',', ' '] + l@[i as int]@);
            }
        }
        i = i + 1;
    }
    proof {
        assert(v.take(i as int) =~= v);
    }
    r
}

/// The text stored for a header value, computed.
pub fn header_text(v: &MimeValue) -> (r: Option<String>)
    ensures
        opt_view(r) == header_value_text(*v),
{
    match v {
        MimeValue::Text(t) => Some(t.clone()),
        MimeValue::TextList(l) => {
            if l.len() > 0 {
                Some(l[l.len() - 1].clone())
            } else {
                Some(String::new())
            }
        },
        MimeValue::Address(a) => Some(addr_display_of(a)),
        MimeValue::AddressList(l) => {
            let mut shown: Vec<String> = Vec::new();
            let mut i: usize = 0;
            while i < l.len()
                invariant
                    0 <= i <= l@.len(),
                    shown@.len() == i,
                    forall|k: int| 0 <= k < i ==> #[trigger] shown@[k]@ == addr_display(l@[k]),
                decreases l@.len() - i,
            {
                shown.push(addr_display_of(&l[i]));
                i = i + 1;
            }
            let r = join_comma_of(&shown);
            proof {
                assert(shown@.map_values(|s: String| s@) =~= l@.map_values(|a: MimeAddr| addr_display(a)));
            }
            Some(r)
        },
        MimeValue::DateTime(d) => Some(d.clone()),
        MimeValue::ContentType(_) => None,
        MimeValue::Other => None,
    }
}

} // verus!

verus! {

/// Whether `p` occurs in `s`.
pub open spec fn has(s: Seq<char>, p: Seq<char>) -> bool {
    find_first(p, s) is Some
}

/// The first text of a value: a text, or the first item of a text list.
pub open spec fn first_text(v: MimeValue) -> Option<Seq<char>> {
    match v {
        MimeValue::Text(t) => Some(t@),
        MimeValue::TextList(l) => if l.len() > 0 {
            Some(l@[0]@)
        } else {
            None
        },
        _ => None,
    }
}

/// The value of the first attribute named `name`.
pub open spec fn attribute_of(attrs: Seq<(String, String)>, name: Seq<char>) -> Option<Seq<char>>
    decreases attrs.len(),
{
    if attrs.len() == 0 {
        None
    } else if attrs[0].0@ == name {
        Some(attrs[0].1@)
    } else {
        attribute_of(attrs.drop_first(), name)
    }
}

/// `s` without the leading occurrences of `c`.
pub open spec fn strip_leading(s: Seq<char>, c: char) -> Seq<char>
    decreases s.len(),
{
    if s.len() > 0 && s[0] == c {
        strip_leading(s.drop_first(), c)
    } else {
        s
    }
}

/// The name that follows `pattern` in a header value: after the first
/// occurrence of the pattern and any leading quotes, up to a closing quote,
/// apostrophe or semicolon (the last trimmed), or the trimmed rest; an empty
/// name counts as none.
pub open spec fn name_after(hv: Seq<char>, pattern: Seq<char>) -> Option<Seq<char>> {
    match find_first(pattern, hv) {
        Some(start) => {
            let fp = strip_leading(strip_leading(hv.skip(start + pattern.len()), '"'), '\'');
            let ex = match find_first(seq!['"'], fp) {
                Some(e) => fp.take(e),
                None => match find_first(seq!['\''], fp) {
                    Some(e) => fp.take(e),
                    None => match find_first(seq![';'], fp) {
                        Some(e) => trim(fp.take(e)),
                        None => trim(fp),
                    },
                },
            };
            if ex.len() > 0 {
                Some(ex)
            } else {
                None
            }
        },
        None => None,
    }
}

/// The file name given by a `Content-Disposition` text.
pub open spec fn disposition_name(hv: Seq<char>) -> Option<Seq<char>> {
    match name_after(hv, "filename="@) {
        Some(n) => Some(n),
        None => match name_after(hv, "filename*="@) {
            Some(n) => Some(n),
            None => name_after(hv, "name="@),
        },
    }
}

/// The file name given by a `Content-Type` text.
pub open spec fn content_type_name(hv: Seq<char>) -> Option<Seq<char>> {
    match name_after(hv, "name="@) {
        Some(n) => Some(n),
        None => name_after(hv, "filename="@),
    }
}

/// What is known of a part while its headers are read: the file name, the
/// content type, and whether a disposition marks it as attachment or inline.
pub type PartFacts = (Option<Seq<char>>, Seq<char>, bool);

/// What is known of a part before its headers are read.
pub open spec fn initial_facts() -> PartFacts {
    (None, "application/octet-stream"@, false)
}

/// What one header tells of a part.
pub open spec fn read_part_header(st: PartFacts, h: MimeHeader) -> PartFacts {
    let (fname, ct, att) = st;
    match h.value {
        MimeValue::ContentType(c) => {
            let ct2 = match c.c_subtype {
                Some(sub) => c.c_type@ + seq!['/'] + sub@,
                None => c.c_type@,
            };
            let f1 = match attribute_of(c.attributes@, "name"@) {
                Some(n) => Some(n),
                None => fname,
            };
            let f2 = if f1 is None {
                attribute_of(c.attributes@, "filename"@)
            } else {
                f1
            };
            (f2, ct2, att)
        },
        _ => match first_text(h.value) {
            Some(hv) => {
                let dn = lowercase(h.debug_name@);
                if has(dn, "contentdisposition"@) || has(dn, "content-disposition"@) {
                    if has(hv, "attachment"@) || has(hv, "inline"@) {
                        (if fname is None { disposition_name(hv) } else { fname }, ct, true)
                    } else {
                        st
                    }
                } else if has(dn, "contenttype"@) || has(dn, "content-type"@) {
                    let ct2 = match find_first(seq![';'], hv) {
                        Some(p) => trim(hv.take(p)),
                        None => trim(hv),
                    };
                    (if fname is None { content_type_name(hv) } else { fname }, ct2, att)
                } else {
                    st
                }
            },
            None => st,
        },
    }
}

/// What the headers tell of a part, read in order.
pub open spec fn read_part_headers(hs: Seq<MimeHeader>) -> PartFacts
    decreases hs.len(),
{
    if hs.len() == 0 {
        initial_facts()
    } else {
        read_part_header(read_part_headers(hs.drop_last()), hs.last())
    }
}

/// Whether a part is taken as an attachment: a disposition says so, or it
/// has a file name and is not plain text, or its type is neither text,
/// multipart nor the generic binary type.
pub open spec fn likely_attachment(st: PartFacts) -> bool {
    let (fname, ct, att) = st;
    att || (fname is Some && !is_prefix("text/plain"@, ct)) || (!is_prefix("text/"@, ct)
        && !is_prefix("multipart/"@, ct) && ct != "application/octet-stream"@)
}

/// The file name given to an attachment that names none, by content type.
pub open spec fn fallback_filename(ct: Seq<char>) -> Seq<char> {
    if ct == "application/pdf"@ {
        "document.pdf"@
    } else if ct == "image/jpeg"@ {
        "image.jpg"@
    } else if ct == "image/png"@ {
        "image.png"@
    } else if ct == "image/gif"@ {
        "image.gif"@
    } else if ct == "application/zip"@ {
        "archive.zip"@
    } else if ct == "application/msword"@ {
        "document.doc"@
    } else if ct == "application/vnd.openxmlformats-officedocument.wordprocessingml.document"@ {
        "document.docx"@
    } else if ct == "application/vnd.openxmlformats-officedocument.spreadsheetml.sheet"@ {
        "spreadsheet.xlsx"@
    } else if ct == "application/vnd.ms-excel"@ {
        "spreadsheet.xls"@
    } else if ct == "text/plain"@ {
        "text.txt"@
    } else if ct == "text/csv"@ {
        "data.csv"@
    } else {
        "attachment."@ + split_on(ct, '/').last()
    }
}

/// The bytes of a part's body: the UTF-8 encoding of a text, the data of a
/// binary part, nothing for a nested message or a multipart container.
pub open spec fn body_bytes(b: MimeBody) -> Seq<u8> {
    match b {
        MimeBody::Text(t) => vstd::utf8::encode_utf8(t@),
        MimeBody::Html(t) => vstd::utf8::encode_utf8(t@),
        MimeBody::Binary(d) => d@,
        MimeBody::InlineBinary(d) => d@,
        MimeBody::Message => seq![],
        MimeBody::Multipart => seq![],
    }
}

/// The model of an attachment: file name, content type and data.
pub type AttachmentView = (Seq<char>, Seq<char>, Seq<u8>);

/// The attachment a part holds, if it is taken as one and has data.
pub open spec fn attachment_of(part: MimePart) -> Option<AttachmentView> {
    let st = read_part_headers(part.headers@);
    let data = body_bytes(part.body);
    if likely_attachment(st) && data.len() > 0 {
        Some(
            (
                match st.0 {
                    Some(f) => f,
                    None => fallback_filename(st.1),
                },
                st.1,
                data,
            ),
        )
    } else {
        None
    }
}

/// The attachments of a list of parts, in order.
pub open spec fn attachments_of(parts: Seq<MimePart>) -> Seq<AttachmentView>
    decreases parts.len(),
{
    if parts.len() == 0 {
        seq![]
    } else {
        match attachment_of(parts.last()) {
            Some(a) => attachments_of(parts.drop_last()).push(a),
            None => attachments_of(parts.drop_last()),
        }
    }
}

/// Every part taken as an attachment on its own gives one attachment of
/// the message, in the order of the parts, whatever comes before or after
/// it: the attachments of the parts are those of `filter_map`, their number
/// is the number of parts that hold an attachment, and the attachments of
/// two runs of parts are those of the first followed by those of the
/// second.
pub proof fn law_every_attachment_part_is_kept(parts: Seq<MimePart>, more: Seq<MimePart>)
    ensures
        attachments_of(parts) == parts.filter_map(|p: MimePart| attachment_of(p)),
        attachments_of(parts).len() == parts.filter(|p: MimePart| attachment_of(p) is Some).len(),
        attachments_of(parts + more) == attachments_of(parts) + attachments_of(more),
        forall|i: int| 0 <= i < parts.len() && #[trigger] attachment_of(parts[i]) is Some ==> attachments_of(
            parts,
        ).contains(attachment_of(parts[i])->0),
    decreases parts.len() + more.len(),
{
    if more.len() > 0 {
        assert((parts + more).drop_last() =~= parts + more.drop_last());
        assert((parts + more).last() == more.last());
        law_every_attachment_part_is_kept(parts, more.drop_last());
        match attachment_of(more.last()) {
            Some(a) => {
                assert(attachments_of(parts) + attachments_of(more) =~= (attachments_of(parts) + attachments_of(
                    more.drop_last(),
                )).push(a));
            },
            None => {},
        }
    } else {
        assert(parts + more =~= parts);
        assert(attachments_of(more) =~= Seq::<AttachmentView>::empty());
        assert(attachments_of(parts) + attachments_of(more) =~= attachments_of(parts));
    }
    if parts.len() > 0 {
        let init = parts.drop_last();
        law_every_attachment_part_is_kept(init, seq![]);
        reveal(Seq::filter);
        let pred = |p: MimePart| attachment_of(p) is Some;
        assert(parts.filter(pred) == if pred(parts.last()) {
            init.filter(pred).push(parts.last())
        } else {
            init.filter(pred)
        });
        match attachment_of(parts.last()) {
            Some(a) => {
                assert(parts.filter_map(|p: MimePart| attachment_of(p)) =~= init.filter_map(
                    |p: MimePart| attachment_of(p),
                ) + seq![a]);
            },
            None => {},
        }
        assert forall|i: int| 0 <= i < parts.len() && #[trigger] attachment_of(parts[i]) is Some implies attachments_of(
            parts,
        ).contains(attachment_of(parts[i])->0) by {
            if i < init.len() {
                assert(init[i] == parts[i]);
                let k = choose|k: int| 0 <= k < attachments_of(init).len() && attachments_of(init)[k] == attachment_of(
                    init[i],
                )->0;
                assert(attachments_of(parts)[k] == attachments_of(init)[k]);
            } else {
                assert(attachments_of(parts).last() == attachment_of(parts[i])->0);
            }
        }
    }
}

} // verus!

verus! {

/// Whether `p` occurs in `s`, computed.
fn has_text(s: &[char], p: &str) -> (r: bool)
    ensures
        r == has(s@, p@),
{
    let pc = chars_of(p);
    find_exec(pc.as_slice(), s).is_some()
}

/// The value of the first attribute named `name`, computed.
fn attribute_exec(attrs: &Vec<(String, String)>, name: &str) -> (r: Option<String>)
    ensures
        opt_view(r) == attribute_of(attrs@, name@),
{
    let mut i: usize = 0;
    assert(attrs@.skip(0) =~= attrs@);
    while i < attrs.len()
        invariant
            0 <= i <= attrs@.len(),
            attribute_of(attrs@, name@) == attribute_of(attrs@.skip(i as int), name@),
        decreases attrs@.len() - i,
    {
        let ghost rest = attrs@.skip(i as int);
        proof {
            assert(rest[0] == attrs@[i as int]);
        }
        if str_eq(attrs[i].0.as_str(), name) {
            return Some(attrs[i].1.clone());
        }
        proof {
            assert(rest.drop_first() =~= attrs@.skip(i + 1));
        }
        i = i + 1;
    }
    None
}

/// `s` without its leading occurrences of `c`, computed.
fn strip_leading_exec(s: &[char], c: char) -> (r: Vec<char>)
    ensures
        r@ == strip_leading(s@, c),
{
    let mut i: usize = 0;
    assert(s@.skip(0) =~= s@);
    while i < s.len() && s[i] == c
        invariant
            0 <= i <= s@.len(),
            strip_leading(s@, c) == strip_leading(s@.skip(i as int), c),
        decreases s@.len() - i,
    {
        proof {
            assert(s@.skip(i as int).drop_first() =~= s@.skip(i + 1));
        }
        i = i + 1;
    }
    let r = sub_chars(s, i, s.len());
    proof {
        assert(r@ =~= s@.skip(i as int));
    }
    r
}

/// The name that follows `pattern` in a header value, computed.
fn name_after_exec(hv: &[char], pattern: &str) -> (r: Option<Vec<char>>)
    ensures
        match r {
            Some(n) => name_after(hv@, pattern@) == Some(n@),
            None => name_after(hv@, pattern@) is None,
        },
{
    let pc = chars_of(pattern);
    match find_exec(pc.as_slice(), hv) {
        Some(start) => {
            let plen = pc.len();
            let hlen = hv.len();
            assert(start + plen <= hlen);
            let from = start + plen;
            let rest = sub_chars(hv, from, hlen);
            proof {
                assert(rest@ =~= hv@.skip(start + pattern@.len()));
            }
            let a = strip_leading_exec(rest.as_slice(), '"');
            let fp = strip_leading_exec(a.as_slice(), '\'');
            let dq: Vec<char> = vec!['"'];
            let sq: Vec<char> = vec!['\''];
            let sc: Vec<char> = vec![';'];
            proof {
                assert(dq@ =~= seq!['"']);
                assert(sq@ =~= seq!['\'']);
                assert(sc@ =~= seq![';']);
            }
            let ex = match find_exec(dq.as_slice(), fp.as_slice()) {
                Some(e) => sub_chars(fp.as_slice(), 0, e),
                None => match find_exec(sq.as_slice(), fp.as_slice()) {
                    Some(e) => sub_chars(fp.as_slice(), 0, e),
                    None => match find_exec(sc.as_slice(), fp.as_slice()) {
                        Some(e) => {
                            let head = sub_chars(fp.as_slice(), 0, e);
                            trim_chars(head.as_slice())
                        },
                        None => trim_chars(fp.as_slice()),
                    },
                },
            };
            proof {
                match find_first(seq!['"'], fp@) {
                    Some(e) => assert(ex@ =~= fp@.take(e)),
                    None => match find_first(seq!['\''], fp@) {
                        Some(e) => assert(ex@ =~= fp@.take(e)),
                        None => match find_first(seq![';'], fp@) {
                            Some(e) => assert(fp@.subrange(0, e) =~= fp@.take(e)),
                            None => {},
                        },
                    },
                }
            }
            if ex.len() > 0 {
                Some(ex)
            } else {
                None
            }
        },
        None => None,
    }
}

/// The file name given by a `Content-Disposition` text, computed.
fn disposition_name_exec(hv: &[char]) -> (r: Option<Vec<char>>)
    ensures
        match r {
            Some(n) => disposition_name(hv@) == Some(n@),
            None => disposition_name(hv@) is None,
        },
{
    match name_after_exec(hv, "filename=") {
        Some(n) => Some(n),
        None => match name_after_exec(hv, "filename*=") {
            Some(n) => Some(n),
            None => name_after_exec(hv, "name="),
        },
    }
}

/// The file name given by a `Content-Type` text, computed.
fn content_type_name_exec(hv: &[char]) -> (r: Option<Vec<char>>)
    ensures
        match r {
            Some(n) => content_type_name(hv@) == Some(n@),
            None => content_type_name(hv@) is None,
        },
{
    match name_after_exec(hv, "name=") {
        Some(n) => Some(n),
        None => name_after_exec(hv, "filename="),
    }
}

/// The view of an optional character vector.
pub open spec fn opt_chars(o: Option<Vec<char>>) -> Option<Seq<char>> {
    match o {
        Some(v) => Some(v@),
        None => None,
    }
}

/// What one header tells of a part, computed.
fn read_part_header_exec(
    fname: Option<Vec<char>>,
    ct: Vec<char>,
    att: bool,
    h: &MimeHeader,
) -> (r: (Option<Vec<char>>, Vec<char>, bool))
    ensures
        (opt_chars(r.0), r.1@, r.2) == read_part_header((opt_chars(fname), ct@, att), *h),
{
    match &h.value {
        MimeValue::ContentType(c) => {
            let mut ct2 = chars_of(c.c_type.as_str());
            match &c.c_subtype {
                Some(sub) => {
                    ct2.push('/');
                    let sc = chars_of(sub.as_str());
                    let mut i: usize = 0;
                    let ghost base = ct2@;
                    while i < sc.len()
                        invariant
                            0 <= i <= sc@.len(),
                            ct2@ == base + sc@.take(i as int),
                        decreases sc@.len() - i,
                    {
                        ct2.push(sc[i]);
                        proof {
                            assert(sc@.take(i + 1) =~= sc@.take(i as int).push(sc@[i as int]));
                        }
                        i = i + 1;
                    }
                    proof {
                        assert(sc@.take(i as int) =~= sc@);
                        assert(ct2@ =~= c.c_type@ + seq!['/'] + sub@);
                    }
                },
                None => {},
            }
            let f1 = match attribute_exec(&c.attributes, "name") {
                Some(n) => Some(chars_of(n.as_str())),
                None => fname,
            };
            let f2 = if f1.is_none() {
                match attribute_exec(&c.attributes, "filename") {
                    Some(n) => Some(chars_of(n.as_str())),
                    None => None,
                }
            } else {
                f1
            };
            (f2, ct2, att)
        },
        _ => {
            let text = match &h.value {
                MimeValue::Text(t) => Some(chars_of(t.as_str())),
                MimeValue::TextList(l) => {
                    if l.len() > 0 {
                        Some(chars_of(l[0].as_str()))
                    } else {
                        None
                    }
                },
                _ => None,
            };
            match text {
                Some(hv) => {
                    let dn_string = to_lowercase(h.debug_name.as_str());
                    let dn = chars_of(dn_string.as_str());
                    if has_text(dn.as_slice(), "contentdisposition") || has_text(
                        dn.as_slice(),
                        "content-disposition",
                    ) {
                        if has_text(hv.as_slice(), "attachment") || has_text(hv.as_slice(), "inline") {
                            let f = if fname.is_none() {
                                disposition_name_exec(hv.as_slice())
                            } else {
                                fname
                            };
                            (f, ct, true)
                        } else {
                            (fname, ct, att)
                        }
                    } else if has_text(dn.as_slice(), "contenttype") || has_text(
                        dn.as_slice(),
                        "content-type",
                    ) {
                        let sc: Vec<char> = vec![';'];
                        proof {
                            assert(sc@ =~= seq![';']);
                        }
                        let ct2 = match find_exec(sc.as_slice(), hv.as_slice()) {
                            Some(p) => {
                                let head = sub_chars(hv.as_slice(), 0, p);
                                proof {
                                    assert(head@ =~= hv@.take(p as int));
                                }
                                trim_chars(head.as_slice())
                            },
                            None => trim_chars(hv.as_slice()),
                        };
                        let f = if fname.is_none() {
                            content_type_name_exec(hv.as_slice())
                        } else {
                            fname
                        };
                        (f, ct2, att)
                    } else {
                        (fname, ct, att)
                    }
                },
                None => (fname, ct, att),
            }
        },
    }
}

} // verus!

verus! {

/// The file name given to an attachment that names none, computed.
fn fallback_filename_exec(ct: &str) -> (r: String)
    ensures
        r@ == fallback_filename(ct@),
{
    if str_eq(ct, "application/pdf") {
        return owned("document.pdf");
    }
    if str_eq(ct, "image/jpeg") {
        return owned("image.jpg");
    }
    if str_eq(ct, "image/png") {
        return owned("image.png");
    }
    if str_eq(ct, "image/gif") {
        return owned("image.gif");
    }
    if str_eq(ct, "application/zip") {
        return owned("archive.zip");
    }
    if str_eq(ct, "application/msword") {
        return owned("document.doc");
    }
    if str_eq(ct, "application/vnd.openxmlformats-officedocument.wordprocessingml.document") {
        return owned("document.docx");
    }
    if str_eq(ct, "application/vnd.openxmlformats-officedocument.spreadsheetml.sheet") {
        return owned("spreadsheet.xlsx");
    }
    if str_eq(ct, "application/vnd.ms-excel") {
        return owned("spreadsheet.xls");
    }
    if str_eq(ct, "text/plain") {
        return owned("text.txt");
    }
    if str_eq(ct, "text/csv") {
        return owned("data.csv");
    }
    let cs = chars_of(ct);
    let segments = split_chars(cs.as_slice(), '/');
    proof {
        assert(char_views(segments@).len() > 0);
    }
    let last = string_of(segments[segments.len() - 1].as_slice());
    let r = concat(owned("attachment."), last.as_str());
    proof {
        assert(char_views(segments@).last() == segments@[segments@.len() - 1]@);
    }
    r
}

/// The bytes of a part's body, computed.
fn body_bytes_exec(b: &MimeBody) -> (r: Vec<u8>)
    ensures
        r@ == body_bytes(*b),
{
    match b {
        MimeBody::Text(t) => vstd::slice::slice_to_vec(t.as_str().as_bytes()),
        MimeBody::Html(t) => vstd::slice::slice_to_vec(t.as_str().as_bytes()),
        MimeBody::Binary(d) => vstd::slice::slice_to_vec(d.as_slice()),
        MimeBody::InlineBinary(d) => vstd::slice::slice_to_vec(d.as_slice()),
        MimeBody::Message => Vec::new(),
        MimeBody::Multipart => Vec::new(),
    }
}

/// Whether a part is taken as an attachment, computed.
fn likely_attachment_exec(fname: &Option<Vec<char>>, ct: &Vec<char>, att: bool) -> (r: bool)
    ensures
        r == likely_attachment((opt_chars(*fname), ct@, att)),
{
    let text_plain = chars_of("text/plain");
    let text = chars_of("text/");
    let multipart = chars_of("multipart/");
    let octet = chars_of("application/octet-stream");
    att || (fname.is_some() && !starts_with_exec(ct.as_slice(), text_plain.as_slice())) || (
    !starts_with_exec(ct.as_slice(), text.as_slice()) && !starts_with_exec(
        ct.as_slice(),
        multipart.as_slice(),
    ) && !crate::text::chars_eq(ct.as_slice(), octet.as_slice()))
}

/// The attachment a part holds, if it is taken as one and has data.
pub fn attachment_from_part(part: &MimePart) -> (r: Option<crate::email::EmailAttachment>)
    ensures
        match r {
            Some(a) => attachment_of(*part) == Some(a@),
            None => attachment_of(*part) is None,
        },
{
    let mut fname: Option<Vec<char>> = None;
    let mut ct: Vec<char> = chars_of("application/octet-stream");
    let mut att = false;
    let mut i: usize = 0;
    while i < part.headers.len()
        invariant
            0 <= i <= part.headers@.len(),
            (opt_chars(fname), ct@, att) == read_part_headers(part.headers@.take(i as int)),
        decreases part.headers@.len() - i,
    {
        proof {
            assert(part.headers@.take(i + 1).drop_last() =~= part.headers@.take(i as int));
            assert(part.headers@.take(i + 1).last() == part.headers@[i as int]);
        }
        let (f, c, a) = read_part_header_exec(fname, ct, att, &part.headers[i]);
        fname = f;
        ct = c;
        att = a;
        i = i + 1;
    }
    proof {
        assert(part.headers@.take(i as int) =~= part.headers@);
    }
    if likely_attachment_exec(&fname, &ct, att) {
        let data = body_bytes_exec(&part.body);
        if data.len() > 0 {
            let content_type = string_of(ct.as_slice());
            let filename = match fname {
                Some(f) => string_of(f.as_slice()),
                None => fallback_filename_exec(content_type.as_str()),
            };
            return Some(crate::email::EmailAttachment { filename, content_type, data });
        }
    }
    None
}

} // verus!

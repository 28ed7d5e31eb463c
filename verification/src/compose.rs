//! Drafts made from a received message: the reply, the reply to all and the
//! forward, with their subjects, recipients, threading headers and quoted
//! bodies.
use vstd::prelude::*;
use vstd::string::StringExecFns;
use crate::text::{
    is_prefix, line_state, std_lines, strip_cr, chars_of, string_of, starts_with_exec, owned, str_eq, str_width,
    lemma_text_width_bounds,
};
use crate::email::{
    Email, EmailAddress, EmailAttachment, attachment_views, AddressView, address_views, copy_address, string_views, opt_view, split_whitespace,
    join_spaced, chrono_timestamp_valid,
};

verus! {

/// `s` with `p` in front, unless it already starts with `p`.
pub open spec fn with_prefix(p: Seq<char>, s: Seq<char>) -> Seq<char> {
    if is_prefix(p, s) {
        s
    } else {
        p + s
    }
}

/// `s` with `p` in front, unless it already starts with `p`, computed.
pub fn prefixed(p: &str, s: &str) -> (r: String)
    ensures
        r@ == with_prefix(p@, s@),
{
    let pc = chars_of(p);
    let sc = chars_of(s);
    if starts_with_exec(sc.as_slice(), pc.as_slice()) {
        owned(s)
    } else {
        let mut r = owned(p);
        r.append(s);
        r
    }
}

/// The texts of `l` joined with `sep` between them.
pub open spec fn join_with(sep: Seq<char>, l: Seq<Seq<char>>) -> Seq<char>
    decreases l.len(),
{
    if l.len() == 0 {
        seq![]
    } else if l.len() == 1 {
        l[0]
    } else {
        join_with(sep, l.drop_last()) + sep + l.last()
    }
}

/// The strings joined with `sep` between them, computed.
pub fn join_strings(parts: &[String], sep: &str) -> (r: String)
    ensures
        r@ == join_with(sep@, string_views(parts@)),
{
    let mut r = String::new();
    let mut i: usize = 0;
    while i < parts.len()
        invariant
            0 <= i <= parts@.len(),
            r@ == join_with(sep@, string_views(parts@).take(i as int)),
        decreases parts@.len() - i,
    {
        let ghost prev = string_views(parts@).take(i as int);
        let ghost next = string_views(parts@).take(i + 1);
        proof {
            assert(next.drop_last() =~= prev);
            assert(next.last() == parts@[i as int]@);
        }
        if i > 0 {
            r.append(sep);
        }
        r.append(parts[i].as_str());
        proof {
            if i == 0 {
                assert(next =~= seq![parts@[0]@]);
                assert(r@ =~= next[0]);
            } else {
                assert(r@ =~= join_with(sep@, prev) + sep@ + next.last());
            }
        }
        i = i + 1;
    }
    proof {
        assert(string_views(parts@).take(i as int) =~= string_views(parts@));
    }
    r
}

/// The lines of a text (`str::lines`), computed.
pub fn lines_of(s: &str) -> (r: Vec<String>)
    ensures
        string_views(r@) == std_lines(s@),
{
    let cs = chars_of(s);
    let mut done: Vec<String> = Vec::new();
    let mut cur: Vec<char> = Vec::new();
    let mut i: usize = 0;
    while i < cs.len()
        invariant
            0 <= i <= cs@.len(),
            cs@ == s@,
            line_state(cs@.take(i as int)) == (string_views(done@), cur@),
        decreases cs@.len() - i,
    {
        let c = cs[i];
        proof {
            assert(cs@.take(i + 1).drop_last() =~= cs@.take(i as int));
            assert(cs@.take(i + 1).last() == c);
        }
        if c == '\n' {
            let mut line = cur;
            if line.len() > 0 && line[line.len() - 1] == '\r' {
                line.pop();
            }
            proof {
                assert(line@ == strip_cr(cur@));
            }
            let ghost before = done@;
            done.push(string_of(line.as_slice()));
            proof {
                assert(string_views(done@) =~= string_views(before).push(line@));
            }
            cur = Vec::new();
            proof {
                assert(cur@ =~= Seq::<char>::empty());
            }
        } else {
            cur.push(c);
        }
        i = i + 1;
    }
    proof {
        assert(cs@.take(i as int) =~= s@);
    }
    if cur.len() > 0 {
        let ghost before = done@;
        done.push(string_of(cur.as_slice()));
        proof {
            assert(string_views(done@) =~= string_views(before).push(cur@));
        }
    }
    done
}

/// The lines each with `> ` in front, joined with line feeds.
pub open spec fn quote_lines(ls: Seq<Seq<char>>) -> Seq<char> {
    join_with("\n"@, ls.map_values(|l: Seq<char>| "> "@ + l))
}

/// The text quoted for a reply: each of its lines with `> ` in front.
pub fn quote_text(s: &str) -> (r: String)
    ensures
        r@ == quote_lines(std_lines(s@)),
{
    let lines = lines_of(s);
    let mut quoted: Vec<String> = Vec::new();
    let mut i: usize = 0;
    while i < lines.len()
        invariant
            0 <= i <= lines@.len(),
            string_views(quoted@) == string_views(lines@).take(i as int).map_values(|l: Seq<char>| "> "@ + l),
        decreases lines@.len() - i,
    {
        let mut q = owned("> ");
        q.append(lines[i].as_str());
        let ghost before = quoted@;
        quoted.push(q);
        proof {
            assert(string_views(quoted@) =~= string_views(before).push(q@));
            assert(string_views(lines@).take(i + 1) =~= string_views(lines@).take(i as int).push(lines@[i as int]@));
            assert(string_views(lines@).take(i + 1).map_values(|l: Seq<char>| "> "@ + l) =~= string_views(
                lines@,
            ).take(i as int).map_values(|l: Seq<char>| "> "@ + l).push("> "@ + lines@[i as int]@));
        }
        i = i + 1;
    }
    proof {
        assert(string_views(lines@).take(i as int) =~= string_views(lines@));
    }
    join_strings(quoted.as_slice(), "\n")
}

/// Whether some address of `l` has the address text `a`.
pub open spec fn has_address(l: Seq<AddressView>, a: Seq<char>) -> bool {
    exists|i: int| 0 <= i < l.len() && #[trigger] l[i].1 == a
}

/// The addresses with each run of neighbours that share an address text
/// reduced to its first (`Vec::dedup_by` on the address text).
pub open spec fn dedup_by_address(l: Seq<AddressView>) -> Seq<AddressView>
    decreases l.len(),
{
    if l.len() <= 1 {
        l
    } else if l.last().1 == l[l.len() - 2].1 {
        dedup_by_address(l.drop_last())
    } else {
        dedup_by_address(l.drop_last()).push(l.last())
    }
}

/// The addresses whose address text is not `me`, in order.
pub open spec fn without_address(l: Seq<AddressView>, me: Seq<char>) -> Seq<AddressView>
    decreases l.len(),
{
    if l.len() == 0 {
        seq![]
    } else if l.last().1 != me {
        without_address(l.drop_last(), me).push(l.last())
    } else {
        without_address(l.drop_last(), me)
    }
}

/// `acc` followed by the addresses of `l`, in order, that are not `me` and
/// whose address text is not yet present.
pub open spec fn add_missing(acc: Seq<AddressView>, l: Seq<AddressView>, me: Seq<char>) -> Seq<AddressView>
    decreases l.len(),
{
    if l.len() == 0 {
        acc
    } else {
        let a = add_missing(acc, l.drop_last(), me);
        if l.last().1 != me && !has_address(a, l.last().1) {
            a.push(l.last())
        } else {
            a
        }
    }
}

/// A copy of a list of addresses.
pub fn copy_addresses(v: &[EmailAddress]) -> (r: Vec<EmailAddress>)
    ensures
        address_views(r@) == address_views(v@),
{
    let mut r: Vec<EmailAddress> = Vec::new();
    let mut i: usize = 0;
    while i < v.len()
        invariant
            0 <= i <= v@.len(),
            address_views(r@) == address_views(v@).take(i as int),
        decreases v@.len() - i,
    {
        let ghost before = r@;
        r.push(copy_address(&v[i]));
        proof {
            assert(address_views(r@) =~= address_views(before).push(v@[i as int]@));
            assert(address_views(v@).take(i + 1) =~= address_views(v@).take(i as int).push(v@[i as int]@));
        }
        i = i + 1;
    }
    proof {
        assert(address_views(v@).take(i as int) =~= address_views(v@));
    }
    r
}

/// Whether some address of the list has the address text `a`, computed.
pub fn contains_address(l: &[EmailAddress], a: &str) -> (r: bool)
    ensures
        r == has_address(address_views(l@), a@),
{
    let mut i: usize = 0;
    while i < l.len()
        invariant
            0 <= i <= l@.len(),
            forall|k: int| 0 <= k < i ==> l@[k].address@ != a@,
        decreases l@.len() - i,
    {
        if str_eq(l[i].address.as_str(), a) {
            proof {
                assert(address_views(l@)[i as int].1 == a@);
            }
            return true;
        }
        i = i + 1;
    }
    proof {
        assert forall|k: int| 0 <= k < address_views(l@).len() implies #[trigger] address_views(l@)[k].1 != a@ by {
            assert(address_views(l@)[k] == l@[k]@);
        }
    }
    false
}

/// The addresses with runs of neighbours sharing an address text reduced to
/// their first, computed.
pub fn dedup_addresses(v: &[EmailAddress]) -> (r: Vec<EmailAddress>)
    ensures
        address_views(r@) == dedup_by_address(address_views(v@)),
{
    let mut r: Vec<EmailAddress> = Vec::new();
    let mut i: usize = 0;
    let ghost vs = address_views(v@);
    while i < v.len()
        invariant
            0 <= i <= v@.len(),
            vs == address_views(v@),
            address_views(r@) == dedup_by_address(vs.take(i as int)),
        decreases v@.len() - i,
    {
        let ghost t = vs.take(i + 1);
        proof {
            assert(t.drop_last() =~= vs.take(i as int));
            assert(t.last() == v@[i as int]@);
            if i > 0 {
                assert(t[t.len() - 2] == v@[i - 1]@);
            }
        }
        if i == 0 || !str_eq(v[i].address.as_str(), v[i - 1].address.as_str()) {
            let ghost before = r@;
            r.push(copy_address(&v[i]));
            proof {
                assert(address_views(r@) =~= address_views(before).push(v@[i as int]@));
                if i == 0 {
                    assert(t =~= seq![v@[0]@]);
                }
            }
        }
        i = i + 1;
    }
    proof {
        assert(vs.take(i as int) =~= vs);
    }
    r
}

/// The addresses whose address text is not `me`, computed.
pub fn addresses_without(v: &[EmailAddress], me: &str) -> (r: Vec<EmailAddress>)
    ensures
        address_views(r@) == without_address(address_views(v@), me@),
{
    let mut r: Vec<EmailAddress> = Vec::new();
    let mut i: usize = 0;
    let ghost vs = address_views(v@);
    while i < v.len()
        invariant
            0 <= i <= v@.len(),
            vs == address_views(v@),
            address_views(r@) == without_address(vs.take(i as int), me@),
        decreases v@.len() - i,
    {
        let ghost t = vs.take(i + 1);
        proof {
            assert(t.drop_last() =~= vs.take(i as int));
            assert(t.last() == v@[i as int]@);
        }
        if !str_eq(v[i].address.as_str(), me) {
            let ghost before = r@;
            r.push(copy_address(&v[i]));
            proof {
                assert(address_views(r@) =~= address_views(before).push(v@[i as int]@));
            }
        }
        i = i + 1;
    }
    proof {
        assert(vs.take(i as int) =~= vs);
    }
    r
}

/// `acc` followed by the addresses of `l` that are not `me` and whose
/// address text is not yet present, computed.
pub fn add_missing_addresses(acc: Vec<EmailAddress>, l: &[EmailAddress], me: &str) -> (r: Vec<EmailAddress>)
    ensures
        address_views(r@) == add_missing(address_views(acc@), address_views(l@), me@),
{
    let mut r = acc;
    let ghost start = address_views(r@);
    let ghost ls = address_views(l@);
    let mut i: usize = 0;
    proof {
        assert(ls.take(0) =~= Seq::<AddressView>::empty());
    }
    while i < l.len()
        invariant
            0 <= i <= l@.len(),
            ls == address_views(l@),
            address_views(r@) == add_missing(start, ls.take(i as int), me@),
        decreases l@.len() - i,
    {
        let ghost t = ls.take(i + 1);
        proof {
            assert(t.drop_last() =~= ls.take(i as int));
            assert(t.last() == l@[i as int]@);
        }
        if !str_eq(l[i].address.as_str(), me) && !contains_address(r.as_slice(), l[i].address.as_str()) {
            let ghost before = r@;
            r.push(copy_address(&l[i]));
            proof {
                assert(address_views(r@) =~= address_views(before).push(l@[i as int]@));
            }
        }
        i = i + 1;
    }
    proof {
        assert(ls.take(i as int) =~= ls);
    }
    r
}

/// The addresses a reply goes to: the `Reply-To` address when the message
/// has one, otherwise its senders.
pub open spec fn reply_targets(e: Email) -> Seq<AddressView> {
    if e.headers@.contains_key("Reply-To"@) {
        seq![(None::<Seq<char>>, e.headers@["Reply-To"@])]
    } else {
        address_views(e.from@)
    }
}

/// How a message's first sender is named in a quote: the display name, else
/// the address, and `Unknown` when there is no sender.
pub open spec fn sender_name(e: Email) -> Seq<char> {
    if e.from@.len() > 0 {
        match e.from@[0].name {
            Some(n) => n@,
            None => e.from@[0].address@,
        }
    } else {
        "Unknown"@
    }
}

/// The message id of a message's headers, empty when there is none.
pub open spec fn message_id_of(h: Map<Seq<char>, Seq<char>>) -> Seq<char> {
    if h.contains_key("Message-ID"@) {
        h["Message-ID"@]
    } else {
        seq![]
    }
}

/// The headers that thread an answer under a message with headers `h`:
/// `In-Reply-To` its id and `References` its references followed by its id;
/// none when it has no id.
pub open spec fn threading_headers(h: Map<Seq<char>, Seq<char>>) -> Map<Seq<char>, Seq<char>> {
    let id = message_id_of(h);
    let refs = if h.contains_key("References"@) {
        split_whitespace(h["References"@])
    } else {
        Seq::<Seq<char>>::empty()
    };
    if id.len() > 0 {
        Map::<Seq<char>, Seq<char>>::empty().insert("In-Reply-To"@, id).insert("References"@, join_spaced(refs.push(id)))
    } else {
        Map::<Seq<char>, Seq<char>>::empty()
    }
}

/// The body of a reply: four empty lines to write in, then, when the
/// message has a text body, the attribution line and the quoted text.
pub open spec fn reply_body(e: Email, date_text: Seq<char>) -> Seq<char> {
    match e.body_text {
        Some(b) => "\n\n\n\nOn "@ + date_text + " "@ + sender_name(e) + " wrote:\n"@ + quote_lines(std_lines(b@)),
        None => "\n\n\n\n"@,
    }
}

/// Whether `r` is a new draft from the account `(name, me)` answering
/// `original`, with subject `subject`, recipients `to` and `cc`, and the
/// reply body for the date text.
pub open spec fn is_answer(
    r: Email,
    original: Email,
    name: Seq<char>,
    me: Seq<char>,
    date_text: Seq<char>,
    to: Seq<AddressView>,
    cc: Seq<AddressView>,
) -> bool {
    &&& r.subject@ == with_prefix("Re: "@, original.subject@)
    &&& address_views(r.from@) == seq![(Some(name), me)]
    &&& address_views(r.to@) == to
    &&& address_views(r.cc@) == cc
    &&& r.bcc@.len() == 0
    &&& r.headers.wf()
    &&& r.headers@ == threading_headers(original.headers@)
    &&& opt_view(r.body_text) == Some(reply_body(original, date_text))
    &&& r.body_html is None
    &&& r.attachments@.len() == 0
    &&& r.id@.len() == 0
}

/// Whether `r` is the reply to `original` from the account `(name, me)`: to
/// the reply targets, neighbours with the same address reduced to one.
pub open spec fn is_reply(r: Email, original: Email, name: Seq<char>, me: Seq<char>, date_text: Seq<char>) -> bool {
    is_answer(r, original, name, me, date_text, dedup_by_address(reply_targets(original)), seq![])
}

/// Whether `r` is the reply to all of `original` from the account
/// `(name, me)`: to the reply targets and then the other recipients, and a
/// copy to the copied recipients, the account's own address left out and
/// each address once.
pub open spec fn is_reply_all(r: Email, original: Email, name: Seq<char>, me: Seq<char>, date_text: Seq<char>) -> bool {
    is_answer(
        r,
        original,
        name,
        me,
        date_text,
        dedup_by_address(add_missing(without_address(reply_targets(original), me), address_views(original.to@), me)),
        dedup_by_address(add_missing(seq![], address_views(original.cc@), me)),
    )
}

/// Sets the threading headers of a draft answering `original`.
fn thread_under(draft: &mut Email, original: &Email)
    requires
        old(draft).headers.wf(),
        old(draft).headers@ == Map::<Seq<char>, Seq<char>>::empty(),
        original.headers.wf(),
    ensures
        final(draft).headers.wf(),
        final(draft).headers@ == threading_headers(original.headers@),
        final(draft).subject == old(draft).subject,
        final(draft).from == old(draft).from,
        final(draft).to == old(draft).to,
        final(draft).cc == old(draft).cc,
        final(draft).bcc == old(draft).bcc,
        final(draft).body_text == old(draft).body_text,
        final(draft).body_html == old(draft).body_html,
        final(draft).attachments == old(draft).attachments,
        final(draft).id == old(draft).id,
{
    let id = original.message_id();
    proof {
        lemma_text_width_bounds(id@);
    }
    if str_width(id.as_str()) > 0 {
        let mut refs = original.references();
        let ghost before = refs@;
        refs.push(id.clone());
        proof {
            assert(string_views(refs@) =~= string_views(before).push(id@));
        }
        draft.set_in_reply_to(id);
        draft.set_references(refs);
    }
}

/// The body text of a reply, computed.
fn reply_body_text(original: &Email, date_text: &str) -> (r: String)
    ensures
        r@ == reply_body(*original, date_text@),
{
    match &original.body_text {
        Some(b) => {
            let mut r = owned("\n\n\n\nOn ");
            r.append(date_text);
            r.append(" ");
            if original.from.len() > 0 {
                match &original.from[0].name {
                    Some(n) => r.append(n.as_str()),
                    None => r.append(original.from[0].address.as_str()),
                }
            } else {
                r.append("Unknown");
            }
            r.append(" wrote:\n");
            let q = quote_text(b.as_str());
            r.append(q.as_str());
            proof {
                reveal_strlit("\n\n\n\nOn ");
                reveal_strlit(" ");
                reveal_strlit(" wrote:\n");
                reveal_strlit("Unknown");
            }
            r
        },
        None => owned("\n\n\n\n"),
    }
}

/// A draft from the account, with its subject set; nothing else is filled.
fn draft_from(account_name: &str, account_email: &str, subject: String) -> (r: Email)
    ensures
        r.subject == subject,
        address_views(r.from@) == seq![(Some(account_name@), account_email@)],
        r.to@.len() == 0,
        r.cc@.len() == 0,
        r.bcc@.len() == 0,
        r.headers.wf(),
        r.headers@ == Map::<Seq<char>, Seq<char>>::empty(),
        r.body_text is None,
        r.body_html is None,
        r.attachments@.len() == 0,
        r.id@.len() == 0,
{
    let mut r = Email::new();
    r.subject = subject;
    let me = EmailAddress { name: Some(owned(account_name)), address: owned(account_email) };
    r.from = vec![me];
    proof {
        assert(address_views(r.from@) =~= seq![(Some(account_name@), account_email@)]);
    }
    r
}

/// The reply to a message from the account `(account_name, account_email)`,
/// its date written as `date_text`.
pub fn reply_with_date(original: &Email, account_name: &str, account_email: &str, date_text: &str) -> (r: Email)
    requires
        original.headers.wf(),
    ensures
        is_reply(r, *original, account_name@, account_email@, date_text@),
{
    let mut reply = draft_from(account_name, account_email, prefixed("Re: ", original.subject.as_str()));
    let targets = original.reply_to();
    let targets = if targets.len() > 0 {
        targets
    } else {
        copy_addresses(original.from.as_slice())
    };
    proof {
        assert(address_views(targets@) == reply_targets(*original));
    }
    reply.to = dedup_addresses(targets.as_slice());
    thread_under(&mut reply, original);
    reply.body_text = Some(reply_body_text(original, date_text));
    proof {
        reveal_strlit("Re: ");
        assert(address_views(reply.cc@) =~= Seq::<AddressView>::empty());
    }
    reply
}

/// The reply to all of a message from the account
/// `(account_name, account_email)`, its date written as `date_text`.
pub fn reply_all_with_date(original: &Email, account_name: &str, account_email: &str, date_text: &str) -> (r: Email)
    requires
        original.headers.wf(),
    ensures
        is_reply_all(r, *original, account_name@, account_email@, date_text@),
{
    let mut reply = draft_from(account_name, account_email, prefixed("Re: ", original.subject.as_str()));
    let targets = original.reply_to();
    let targets = if targets.len() > 0 {
        targets
    } else {
        copy_addresses(original.from.as_slice())
    };
    proof {
        assert(address_views(targets@) == reply_targets(*original));
    }
    let to = addresses_without(targets.as_slice(), account_email);
    let to = add_missing_addresses(to, original.to.as_slice(), account_email);
    let no_cc: Vec<EmailAddress> = Vec::new();
    proof {
        assert(address_views(no_cc@) =~= Seq::<AddressView>::empty());
    }
    let cc = add_missing_addresses(no_cc, original.cc.as_slice(), account_email);
    reply.to = dedup_addresses(to.as_slice());
    reply.cc = dedup_addresses(cc.as_slice());
    thread_under(&mut reply, original);
    reply.body_text = Some(reply_body_text(original, date_text));
    proof {
        reveal_strlit("Re: ");
    }
    reply
}

/// How an address is written in a forwarded header: `name <address>`, or
/// the address alone when it has no name.
pub open spec fn address_text(a: AddressView) -> Seq<char> {
    match a.0 {
        Some(n) => n + " <"@ + a.1 + ">"@,
        None => a.1,
    }
}

/// The addresses written out and separated by commas.
pub open spec fn address_list_text(l: Seq<AddressView>) -> Seq<char> {
    join_with(", "@, l.map_values(|a: AddressView| address_text(a)))
}

/// The header block that introduces a forwarded message: four empty lines
/// to write in, the separator line, the sender, date, subject, recipients
/// and, when there are any, the copied recipients, then an empty line.
pub open spec fn forward_header(e: Email, date_text: Seq<char>) -> Seq<char> {
    "\n\n\n\n---------- Forwarded message ----------\nFrom: "@ + address_list_text(address_views(e.from@))
        + "\nDate: "@ + date_text + "\nSubject: "@ + e.subject@ + "\nTo: "@ + address_list_text(
        address_views(e.to@),
    ) + (if e.cc@.len() > 0 {
        "\nCc: "@ + address_list_text(address_views(e.cc@))
    } else {
        seq![]
    }) + "\n\n"@
}

/// Whether `r` is the forward of `original` from the account `(name, me)`:
/// no recipient yet, the forwarded header and the message's text as body,
/// and the message's attachments.
pub open spec fn is_forward(r: Email, original: Email, name: Seq<char>, me: Seq<char>, date_text: Seq<char>) -> bool {
    &&& r.subject@ == with_prefix("Fwd: "@, original.subject@)
    &&& address_views(r.from@) == seq![(Some(name), me)]
    &&& r.to@.len() == 0
    &&& r.cc@.len() == 0
    &&& r.bcc@.len() == 0
    &&& r.headers.wf()
    &&& r.headers@ == Map::<Seq<char>, Seq<char>>::empty()
    &&& opt_view(r.body_text) == Some(
        forward_header(original, date_text) + match original.body_text {
            Some(b) => b@,
            None => Seq::<char>::empty(),
        },
    )
    &&& r.body_html is None
    &&& attachment_views(r.attachments@) == attachment_views(original.attachments@)
    &&& r.id@.len() == 0
}

/// The addresses written out and separated by commas, computed.
pub fn address_list_string(l: &[EmailAddress]) -> (r: String)
    ensures
        r@ == address_list_text(address_views(l@)),
{
    let mut parts: Vec<String> = Vec::new();
    let mut i: usize = 0;
    while i < l.len()
        invariant
            0 <= i <= l@.len(),
            string_views(parts@) == address_views(l@).take(i as int).map_values(|a: AddressView| address_text(a)),
        decreases l@.len() - i,
    {
        let text = match &l[i].name {
            Some(n) => {
                let mut t = n.clone();
                t.append(" <");
                t.append(l[i].address.as_str());
                t.append(">");
                t
            },
            None => l[i].address.clone(),
        };
        proof {
            reveal_strlit(" <");
            reveal_strlit(">");
            assert(text@ == address_text(l@[i as int]@));
        }
        let ghost before = parts@;
        parts.push(text);
        proof {
            assert(string_views(parts@) =~= string_views(before).push(text@));
            assert(address_views(l@).take(i + 1) =~= address_views(l@).take(i as int).push(l@[i as int]@));
            assert(address_views(l@).take(i + 1).map_values(|a: AddressView| address_text(a)) =~= address_views(
                l@,
            ).take(i as int).map_values(|a: AddressView| address_text(a)).push(address_text(l@[i as int]@)));
        }
        i = i + 1;
    }
    proof {
        assert(address_views(l@).take(i as int) =~= address_views(l@));
    }
    join_strings(parts.as_slice(), ", ")
}

/// A copy of a list of attachments.
fn copy_attachments(v: &[EmailAttachment]) -> (r: Vec<EmailAttachment>)
    ensures
        attachment_views(r@) == attachment_views(v@),
{
    let mut r: Vec<EmailAttachment> = Vec::new();
    let mut i: usize = 0;
    while i < v.len()
        invariant
            0 <= i <= v@.len(),
            attachment_views(r@) == attachment_views(v@).take(i as int),
        decreases v@.len() - i,
    {
        let a = &v[i];
        let copy = EmailAttachment {
            filename: a.filename.clone(),
            content_type: a.content_type.clone(),
            data: copy_bytes(a.data.as_slice()),
        };
        let ghost before = r@;
        r.push(copy);
        proof {
            assert(attachment_views(r@) =~= attachment_views(before).push(v@[i as int]@));
            assert(attachment_views(v@).take(i + 1) =~= attachment_views(v@).take(i as int).push(v@[i as int]@));
        }
        i = i + 1;
    }
    proof {
        assert(attachment_views(v@).take(i as int) =~= attachment_views(v@));
    }
    r
}

/// A copy of a byte slice.
fn copy_bytes(b: &[u8]) -> (r: Vec<u8>)
    ensures
        r@ == b@,
{
    let mut r: Vec<u8> = Vec::new();
    let mut i: usize = 0;
    while i < b.len()
        invariant
            0 <= i <= b@.len(),
            r@ == b@.take(i as int),
        decreases b@.len() - i,
    {
        r.push(b[i]);
        proof {
            assert(b@.take(i + 1) =~= b@.take(i as int).push(b@[i as int]));
        }
        i = i + 1;
    }
    proof {
        assert(b@.take(i as int) =~= b@);
    }
    r
}

/// The forward of a message from the account
/// `(account_name, account_email)`, its date written as `date_text`.
pub fn forward_with_date(original: &Email, account_name: &str, account_email: &str, date_text: &str) -> (r: Email)
    ensures
        is_forward(r, *original, account_name@, account_email@, date_text@),
{
    let mut forward = draft_from(account_name, account_email, prefixed("Fwd: ", original.subject.as_str()));
    let mut body = owned("\n\n\n\n---------- Forwarded message ----------\nFrom: ");
    body.append(address_list_string(original.from.as_slice()).as_str());
    body.append("\nDate: ");
    body.append(date_text);
    body.append("\nSubject: ");
    body.append(original.subject.as_str());
    body.append("\nTo: ");
    body.append(address_list_string(original.to.as_slice()).as_str());
    if original.cc.len() > 0 {
        body.append("\nCc: ");
        body.append(address_list_string(original.cc.as_slice()).as_str());
    }
    body.append("\n\n");
    proof {
        reveal_strlit("\n\n\n\n---------- Forwarded message ----------\nFrom: ");
        reveal_strlit("\nDate: ");
        reveal_strlit("\nSubject: ");
        reveal_strlit("\nTo: ");
        reveal_strlit("\nCc: ");
        reveal_strlit("\n\n");
        reveal_strlit("Fwd: ");
        assert(body@ =~= forward_header(*original, date_text@));
    }
    match &original.body_text {
        Some(b) => body.append(b.as_str()),
        None => {
            proof {
                assert(body@ =~= body@ + Seq::<char>::empty());
            }
        },
    }
    forward.body_text = Some(body);
    forward.attachments = copy_attachments(original.attachments.as_slice());
    forward
}

/// The text of the `To` field of a draft: the address texts separated by
/// commas.
pub open spec fn recipients_text(l: Seq<AddressView>) -> Seq<char> {
    join_with(", "@, l.map_values(|a: AddressView| a.1))
}

/// The text of the `To` field of a draft, computed.
pub fn recipients_string(l: &[EmailAddress]) -> (r: String)
    ensures
        r@ == recipients_text(address_views(l@)),
{
    let mut parts: Vec<String> = Vec::new();
    let mut i: usize = 0;
    while i < l.len()
        invariant
            0 <= i <= l@.len(),
            string_views(parts@) == address_views(l@).take(i as int).map_values(|a: AddressView| a.1),
        decreases l@.len() - i,
    {
        let ghost before = parts@;
        parts.push(l[i].address.clone());
        proof {
            assert(string_views(parts@) =~= string_views(before).push(l@[i as int].address@));
            assert(address_views(l@).take(i + 1) =~= address_views(l@).take(i as int).push(l@[i as int]@));
            assert(address_views(l@).take(i + 1).map_values(|a: AddressView| a.1) =~= address_views(l@).take(
                i as int,
            ).map_values(|a: AddressView| a.1).push(l@[i as int]@.1));
        }
        i = i + 1;
    }
    proof {
        assert(address_views(l@).take(i as int) =~= address_views(l@));
    }
    join_strings(parts.as_slice(), ", ")
}

/// How a reply's attribution line writes the date.
pub const REPLY_DATE_FORMAT: &'static str = "%Y-%m-%d %H:%M";

/// How a forwarded header writes the date.
pub const FORWARD_DATE_FORMAT: &'static str = "%a, %d %b %Y %H:%M:%S %z";

/// `chrono::DateTime::from_timestamp(secs, 0)` converted to the local time
/// zone and formatted with `pattern`. `None` exactly when chrono cannot
/// represent the time; the text depends on the machine's time zone, and
/// nothing is stated of it. Only the two date formats above are admitted:
/// chrono's formatting panics on a malformed pattern.
#[verifier::external_body]
fn local_date_text(secs: i64, pattern: &str) -> (r: Option<String>)
    requires
        pattern@ == REPLY_DATE_FORMAT@ || pattern@ == FORWARD_DATE_FORMAT@,
    ensures
        r is Some <==> chrono_timestamp_valid(secs),
{
    match chrono::DateTime::from_timestamp(secs, 0) {
        Some(d) => Some(d.with_timezone(&chrono::Local).format(pattern).to_string()),
        None => None,
    }
}

/// The reply to a message from the account `(account_name, account_email)`,
/// its date written in the local time zone (an empty date when chrono
/// cannot represent it).
pub fn reply_to_email(original: &Email, account_name: &str, account_email: &str) -> (r: Email)
    requires
        original.headers.wf(),
    ensures
        exists|d: Seq<char>| is_reply(r, *original, account_name@, account_email@, d),
        !chrono_timestamp_valid(original.date) ==> is_reply(r, *original, account_name@, account_email@, seq![]),
{
    let date_text = match local_date_text(original.date, REPLY_DATE_FORMAT) {
        Some(d) => d,
        None => String::new(),
    };
    let r = reply_with_date(original, account_name, account_email, date_text.as_str());
    proof {
        assert(is_reply(r, *original, account_name@, account_email@, date_text@));
    }
    r
}

/// The reply to all of a message from the account
/// `(account_name, account_email)`, its date written in the local time zone
/// (an empty date when chrono cannot represent it).
pub fn reply_all_to_email(original: &Email, account_name: &str, account_email: &str) -> (r: Email)
    requires
        original.headers.wf(),
    ensures
        exists|d: Seq<char>| is_reply_all(r, *original, account_name@, account_email@, d),
        !chrono_timestamp_valid(original.date) ==> is_reply_all(r, *original, account_name@, account_email@, seq![]),
{
    let date_text = match local_date_text(original.date, REPLY_DATE_FORMAT) {
        Some(d) => d,
        None => String::new(),
    };
    let r = reply_all_with_date(original, account_name, account_email, date_text.as_str());
    proof {
        assert(is_reply_all(r, *original, account_name@, account_email@, date_text@));
    }
    r
}

/// The forward of a message from the account
/// `(account_name, account_email)`, its date written in the local time zone
/// (an empty date when chrono cannot represent it).
pub fn forward_email(original: &Email, account_name: &str, account_email: &str) -> (r: Email)
    ensures
        exists|d: Seq<char>| is_forward(r, *original, account_name@, account_email@, d),
        !chrono_timestamp_valid(original.date) ==> is_forward(r, *original, account_name@, account_email@, seq![]),
{
    let date_text = match local_date_text(original.date, FORWARD_DATE_FORMAT) {
        Some(d) => d,
        None => String::new(),
    };
    let r = forward_with_date(original, account_name, account_email, date_text.as_str());
    proof {
        assert(is_forward(r, *original, account_name@, account_email@, date_text@));
    }
    r
}

/// Whether no two of the addresses share an address text.
pub open spec fn unique_addresses(l: Seq<AddressView>) -> bool {
    forall|i: int, j: int| 0 <= i < l.len() && 0 <= j < l.len() && i != j ==> #[trigger] l[i].1 != #[trigger] l[j].1
}

proof fn lemma_dedup_keeps_members(l: Seq<AddressView>)
    ensures
        forall|x: AddressView| #[trigger] dedup_by_address(l).contains(x) ==> l.contains(x),
        unique_addresses(l) ==> dedup_by_address(l) == l,
    decreases l.len(),
{
    if l.len() > 1 {
        let d = l.drop_last();
        lemma_dedup_keeps_members(d);
        assert forall|x: AddressView| #[trigger] dedup_by_address(l).contains(x) implies l.contains(x) by {
            if x != l.last() {
                assert(dedup_by_address(d).contains(x));
                let k = choose|k: int| 0 <= k < d.len() && d[k] == x;
                assert(l[k] == x);
            } else {
                assert(l[l.len() - 1] == x);
            }
        }
        if unique_addresses(l) {
            assert(unique_addresses(d)) by {
                assert forall|i: int, j: int| 0 <= i < d.len() && 0 <= j < d.len() && i != j implies #[trigger] d[i].1
                    != #[trigger] d[j].1 by {
                    assert(d[i] == l[i] && d[j] == l[j]);
                }
            }
            assert(l[l.len() - 1].1 != l[l.len() - 2].1);
            assert(l =~= d.push(l.last()));
        }
    }
}

proof fn lemma_without_address(l: Seq<AddressView>, me: Seq<char>)
    ensures
        forall|x: AddressView| #[trigger] without_address(l, me).contains(x) ==> x.1 != me,
    decreases l.len(),
{
    if l.len() > 0 {
        lemma_without_address(l.drop_last(), me);
        let w = without_address(l.drop_last(), me);
        assert forall|x: AddressView| #[trigger] without_address(l, me).contains(x) implies x.1 != me by {
            if x != l.last() {
                assert(w.contains(x));
            }
        }
    }
}

proof fn lemma_add_missing(acc: Seq<AddressView>, l: Seq<AddressView>, me: Seq<char>)
    ensures
        (forall|x: AddressView| #[trigger] acc.contains(x) ==> x.1 != me) ==> (forall|x: AddressView|
            #[trigger] add_missing(acc, l, me).contains(x) ==> x.1 != me),
        unique_addresses(acc) ==> unique_addresses(add_missing(acc, l, me)),
    decreases l.len(),
{
    if l.len() > 0 {
        lemma_add_missing(acc, l.drop_last(), me);
        let a = add_missing(acc, l.drop_last(), me);
        let x = l.last();
        if x.1 != me && !has_address(a, x.1) {
            let r = a.push(x);
            if forall|y: AddressView| #[trigger] acc.contains(y) ==> y.1 != me {
                assert forall|y: AddressView| #[trigger] r.contains(y) implies y.1 != me by {
                    if y != x {
                        assert(a.contains(y));
                    }
                }
            }
            if unique_addresses(acc) {
                assert forall|i: int, j: int| 0 <= i < r.len() && 0 <= j < r.len() && i != j implies #[trigger] r[i].1
                    != #[trigger] r[j].1 by {
                    if i < a.len() && j < a.len() {
                        assert(r[i] == a[i] && r[j] == a[j]);
                    } else if i < a.len() {
                        assert(r[i] == a[i]);
                    } else {
                        assert(r[j] == a[j]);
                    }
                }
            }
        }
    }
}

/// A subject that already starts with the prefix keeps it once: answering
/// an answer, or forwarding a forward, does not repeat `Re: ` or `Fwd: `.
pub proof fn law_prefix_not_repeated(p: Seq<char>, s: Seq<char>)
    ensures
        with_prefix(p, with_prefix(p, s)) == with_prefix(p, s),
{
    if !is_prefix(p, s) {
        assert((p + s).subrange(0, p.len() as int) =~= p);
    }
}

/// A reply to all never goes to the account's own address, and names each
/// copied recipient once.
pub proof fn law_reply_all_leaves_out_own_address(
    r: Email,
    original: Email,
    name: Seq<char>,
    me: Seq<char>,
    date_text: Seq<char>,
)
    requires
        is_reply_all(r, original, name, me, date_text),
    ensures
        forall|i: int| 0 <= i < r.to@.len() ==> (#[trigger] r.to@[i]).address@ != me,
        forall|i: int| 0 <= i < r.cc@.len() ==> (#[trigger] r.cc@[i]).address@ != me,
        forall|i: int, j: int|
            0 <= i < r.cc@.len() && 0 <= j < r.cc@.len() && i != j ==> (#[trigger] r.cc@[i]).address@
                != (#[trigger] r.cc@[j]).address@,
{
    let senders = without_address(reply_targets(original), me);
    lemma_without_address(reply_targets(original), me);
    let to_all = add_missing(senders, address_views(original.to@), me);
    lemma_add_missing(senders, address_views(original.to@), me);
    lemma_dedup_keeps_members(to_all);
    let empty = Seq::<AddressView>::empty();
    let cc_all = add_missing(empty, address_views(original.cc@), me);
    assert(unique_addresses(empty));
    lemma_add_missing(empty, address_views(original.cc@), me);
    lemma_dedup_keeps_members(cc_all);
    assert(address_views(r.cc@) == cc_all);
    assert forall|i: int| 0 <= i < r.to@.len() implies (#[trigger] r.to@[i]).address@ != me by {
        assert(address_views(r.to@)[i] == r.to@[i]@);
        assert(dedup_by_address(to_all).contains(r.to@[i]@));
    }
    assert forall|i: int| 0 <= i < r.cc@.len() implies (#[trigger] r.cc@[i]).address@ != me by {
        assert(address_views(r.cc@)[i] == r.cc@[i]@);
        assert(dedup_by_address(cc_all).contains(r.cc@[i]@));
    }
    assert forall|i: int, j: int|
        0 <= i < r.cc@.len() && 0 <= j < r.cc@.len() && i != j implies (#[trigger] r.cc@[i]).address@
            != (#[trigger] r.cc@[j]).address@ by {
        assert(address_views(r.cc@)[i] == r.cc@[i]@);
        assert(address_views(r.cc@)[j] == r.cc@[j]@);
        assert(cc_all[i].1 != cc_all[j].1);
    }
}

/// A reply (to the sender or to all) to a message with a text body quotes
/// it under the line `On <date> <who> wrote:`, where `<who>` is the
/// display name of the message's first sender, else that sender's address;
/// `Unknown` stands there only when the message names no sender.
pub proof fn law_reply_names_first_sender(
    r: Email,
    original: Email,
    name: Seq<char>,
    me: Seq<char>,
    date_text: Seq<char>,
)
    requires
        is_reply(r, original, name, me, date_text) || is_reply_all(r, original, name, me, date_text),
        original.body_text is Some,
    ensures
        ({
            let who = if original.from@.len() == 0 {
                "Unknown"@
            } else if original.from@[0].name is Some {
                original.from@[0].name->0@
            } else {
                original.from@[0].address@
            };
            opt_view(r.body_text) == Some(
                "\n\n\n\nOn "@ + date_text + " "@ + who + " wrote:\n"@ + quote_lines(
                    std_lines(original.body_text->0@),
                ),
            )
        }),
{
}

} // verus!

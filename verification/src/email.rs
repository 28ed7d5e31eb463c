//! E-mail messages: addresses and their parsing from header text, the
//! header table, threading headers, and the construction of a message from
//! a parsed MIME structure, attachments included.
use vstd::prelude::*;
use crate::text::{
    chars_of, find_exec, find_first, is_whitespace, char_is_whitespace, str_eq, string_of, owned,
    trim, trim_chars, contains_char, push_char, sub_chars, lowercase,
};

verus! {

/// An e-mail address with an optional display name.
#[derive(Debug, Clone)]
pub struct EmailAddress {
    pub name: Option<String>,
    pub address: String,
}

/// The model of an address: its display name and its address text.
pub type AddressView = (Option<Seq<char>>, Seq<char>);

/// The view of an optional string.
pub open spec fn opt_view(o: Option<String>) -> Option<Seq<char>> {
    match o {
        Some(s) => Some(s@),
        None => None,
    }
}

impl View for EmailAddress {
    type V = AddressView;

    open spec fn view(&self) -> AddressView {
        (opt_view(self.name), self.address@)
    }
}

/// The views of a list of addresses.
pub open spec fn address_views(l: Seq<EmailAddress>) -> Seq<AddressView> {
    l.map_values(|a: EmailAddress| a@)
}

/// A file attached to a message.
#[derive(Debug, Clone)]
pub struct EmailAttachment {
    pub filename: String,
    pub content_type: String,
    pub data: Vec<u8>,
}

impl View for EmailAttachment {
    type V = crate::mime::AttachmentView;

    open spec fn view(&self) -> crate::mime::AttachmentView {
        (self.filename@, self.content_type@, self.data@)
    }
}

/// The views of a list of attachments.
pub open spec fn attachment_views(l: Seq<EmailAttachment>) -> Seq<crate::mime::AttachmentView> {
    l.map_values(|a: EmailAttachment| a@)
}

/// The segments of `s` between occurrences of `c` that are finished, and
/// the segment being read.
pub open spec fn split_state(s: Seq<char>, c: char) -> (Seq<Seq<char>>, Seq<char>)
    decreases s.len(),
{
    if s.len() == 0 {
        (seq![], seq![])
    } else {
        let (done, cur) = split_state(s.drop_last(), c);
        if s.last() == c {
            (done.push(cur), seq![])
        } else {
            (done, cur.push(s.last()))
        }
    }
}

/// The segments of `s` separated by `c` (`str::split` with a character):
/// always one more than the occurrences of `c`, empty ones included.
pub open spec fn split_on(s: Seq<char>, c: char) -> Seq<Seq<char>> {
    let (done, cur) = split_state(s, c);
    done.push(cur)
}

/// The views of a list of character vectors.
pub open spec fn char_views(l: Seq<Vec<char>>) -> Seq<Seq<char>> {
    l.map_values(|v: Vec<char>| v@)
}

/// The segments of `s` separated by `c`.
pub fn split_chars(s: &[char], c: char) -> (r: Vec<Vec<char>>)
    ensures
        char_views(r@) == split_on(s@, c),
{
    let mut done: Vec<Vec<char>> = Vec::new();
    let mut cur: Vec<char> = Vec::new();
    let mut i: usize = 0;
    while i < s.len()
        invariant
            0 <= i <= s@.len(),
            split_state(s@.take(i as int), c) == (char_views(done@), cur@),
        decreases s@.len() - i,
    {
        proof {
            assert(s@.take(i + 1).drop_last() =~= s@.take(i as int));
        }
        if s[i] == c {
            let ghost before = done@;
            done.push(cur);
            proof {
                assert(char_views(done@) =~= char_views(before).push(cur@));
            }
            cur = Vec::new();
        } else {
            cur.push(s[i]);
        }
        i = i + 1;
    }
    proof {
        assert(s@.take(i as int) =~= s@);
    }
    let ghost before = done@;
    done.push(cur);
    proof {
        assert(char_views(done@) =~= char_views(before).push(cur@));
    }
    done
}

/// A name part without the double quotes around it.
pub open spec fn unquoted(np: Seq<char>) -> Seq<char> {
    if np.len() > 0 && np[0] == '"' && np.last() == '"' {
        np.subrange(1, np.len() - 1)
    } else {
        np
    }
}

/// The address read from one trimmed, non-empty part of an address list:
/// `Name <address>` (the name may be quoted or absent), or a bare address
/// containing `@`; anything else gives no address.
pub open spec fn address_of_part(t: Seq<char>) -> Option<AddressView> {
    match find_first(seq!['<'], t) {
        Some(s) => match find_first(seq!['>'], t) {
            Some(e) => {
                let clean = unquoted(trim(t.take(s)));
                Some((if clean.len() == 0 { None } else { Some(clean) }, t.subrange(s + 1, e)))
            },
            None => None,
        },
        None => if t.contains('@') {
            Some((None, t))
        } else {
            None
        },
    }
}

/// The parts whose reading would slice out of order: a `>` before the first
/// `<`, or a name part that is a lone double quote.
pub open spec fn part_is_malformed(t: Seq<char>) -> bool {
    match find_first(seq!['<'], t) {
        Some(s) => match find_first(seq!['>'], t) {
            Some(e) => e < s || trim(t.take(s)) == seq!['"'],
            None => false,
        },
        None => false,
    }
}

/// The addresses read from the given parts of a list, in order.
pub open spec fn addresses_in(parts: Seq<Seq<char>>) -> Seq<AddressView>
    decreases parts.len(),
{
    if parts.len() == 0 {
        seq![]
    } else {
        let prev = addresses_in(parts.drop_last());
        let t = trim(parts.last());
        if t.len() == 0 {
            prev
        } else {
            match address_of_part(t) {
                Some(a) => prev.push(a),
                None => prev,
            }
        }
    }
}

/// The addresses of a comma-separated address list.
pub open spec fn parsed_addresses(v: Seq<char>) -> Seq<AddressView> {
    addresses_in(split_on(v, ','))
}

/// Whether address `a` is what part `t` of a list reads as: its name, when
/// it has one, is not empty; with a `<` in the part, the address is the
/// text between the first `<` and the first `>`; without one, the part
/// holds `@` and is the address, unnamed.
pub open spec fn read_from_part(a: AddressView, t: Seq<char>) -> bool {
    &&& (a.0 matches Some(n) ==> n.len() > 0)
    &&& match find_first(seq!['<'], t) {
        Some(s) => find_first(seq!['>'], t) matches Some(e) && a.1 == t.subrange(s + 1, e),
        None => t.contains('@') && a.1 == t && a.0 is None,
    }
}

proof fn lemma_addresses_in(parts: Seq<Seq<char>>)
    ensures
        forall|i: int|
            0 <= i < addresses_in(parts).len() ==> exists|k: int|
                0 <= k < parts.len() && read_from_part(#[trigger] addresses_in(parts)[i], trim(parts[k])),
    decreases parts.len(),
{
    if parts.len() > 0 {
        let d = parts.drop_last();
        lemma_addresses_in(d);
        let prev = addresses_in(d);
        let t = trim(parts.last());
        let r = addresses_in(parts);
        assert forall|i: int| 0 <= i < r.len() implies exists|k: int|
            0 <= k < parts.len() && read_from_part(#[trigger] r[i], trim(parts[k])) by {
            if i < prev.len() {
                assert(r[i] == prev[i]);
                let k = choose|k: int| 0 <= k < d.len() && read_from_part(prev[i], trim(d[k]));
                assert(parts[k] == d[k]);
            } else {
                assert(parts[parts.len() - 1] == parts.last());
                assert(read_from_part(r[i], trim(parts[parts.len() - 1])));
            }
        }
    }
}

/// Every address read from a comma-separated list comes from one of its
/// parts: a name is never empty, and the address is the text between the
/// part's first `<` and first `>`, or the whole trimmed part when it has
/// no `<` and contains `@`.
pub proof fn law_addresses_come_from_parts(v: Seq<char>)
    ensures
        forall|i: int|
            0 <= i < parsed_addresses(v).len() ==> exists|k: int|
                0 <= k < split_on(v, ',').len() && read_from_part(
                    #[trigger] parsed_addresses(v)[i],
                    trim(split_on(v, ',')[k]),
                ),
{
    lemma_addresses_in(split_on(v, ','));
}

/// Whether every part of a comma-separated address list can be read.
pub open spec fn address_list_ok(v: Seq<char>) -> bool {
    forall|k: int| 0 <= k < split_on(v, ',').len() ==> !#[trigger] part_is_malformed(trim(split_on(v, ',')[k]))
}

/// A name part without the double quotes around it, computed.
fn unquote(np: &[char]) -> (r: Vec<char>)
    requires
        np@ != seq!['"'],
    ensures
        r@ == unquoted(np@),
{
    if np.len() > 0 && np[0] == '"' && np[np.len() - 1] == '"' {
        proof {
            if np@.len() == 1 {
                assert(np@ =~= seq!['"']);
            }
        }
        sub_chars(np, 1, np.len() - 1)
    } else {
        sub_chars(np, 0, np.len())
    }
}

/// The address read from one trimmed, non-empty part, computed.
fn address_from_part(t: &[char]) -> (r: Option<EmailAddress>)
    requires
        !part_is_malformed(t@),
    ensures
        match r {
            Some(a) => address_of_part(t@) == Some(a@),
            None => address_of_part(t@) is None,
        },
{
    let lt: Vec<char> = vec!['<'];
    let gt: Vec<char> = vec!['>'];
    proof {
        assert(lt@ =~= seq!['<']);
        assert(gt@ =~= seq!['>']);
    }
    match find_exec(lt.as_slice(), t) {
        Some(s) => match find_exec(gt.as_slice(), t) {
            Some(e) => {
                proof {
                    assert(t@[s as int] == t@.subrange(s as int, s + 1)[0]);
                    assert(t@[e as int] == t@.subrange(e as int, e + 1)[0]);
                }
                let name_part = sub_chars(t, 0, s);
                proof {
                    assert(name_part@ =~= t@.take(s as int));
                }
                let np = trim_chars(name_part.as_slice());
                let clean = unquote(np.as_slice());
                let addr = sub_chars(t, s + 1, e);
                let name = if clean.len() == 0 {
                    None
                } else {
                    Some(string_of(clean.as_slice()))
                };
                Some(EmailAddress { name, address: string_of(addr.as_slice()) })
            },
            None => None,
        },
        None => {
            if contains_char(t, '@') {
                Some(EmailAddress { name: None, address: string_of(t) })
            } else {
                None
            }
        },
    }
}

/// Parses a comma-separated address list: each part is trimmed, empty parts
/// are skipped, `Name <address>` and `"Name" <address>` give a named
/// address, `<address>` and a bare text containing `@` an unnamed one, and
/// any other part is ignored.
pub fn parse_email_addresses(value: &str) -> (r: Vec<EmailAddress>)
    requires
        address_list_ok(value@),
    ensures
        address_views(r@) == parsed_addresses(value@),
{
    let cs = chars_of(value);
    let parts = split_chars(cs.as_slice(), ',');
    let ghost ps = split_on(value@, ',');
    let mut addresses: Vec<EmailAddress> = Vec::new();
    let mut i: usize = 0;
    proof {
        assert(ps.take(0) =~= Seq::<Seq<char>>::empty());
    }
    while i < parts.len()
        invariant
            char_views(parts@) == ps,
            ps == split_on(value@, ','),
            address_list_ok(value@),
            0 <= i <= ps.len(),
            address_views(addresses@) == addresses_in(ps.take(i as int)),
        decreases ps.len() - i,
    {
        proof {
            assert(ps.take(i + 1).drop_last() =~= ps.take(i as int));
            assert(ps.take(i + 1).last() == ps[i as int]);
            assert(parts@[i as int]@ == ps[i as int]);
            assert(!part_is_malformed(trim(ps[i as int])));
        }
        let t = trim_chars(parts[i].as_slice());
        if t.len() > 0 {
            match address_from_part(t.as_slice()) {
                Some(a) => {
                    let ghost before = addresses@;
                    addresses.push(a);
                    proof {
                        assert(address_views(addresses@) =~= address_views(before).push(a@));
                    }
                },
                None => {},
            }
        }
        i = i + 1;
    }
    proof {
        assert(ps.take(i as int) =~= ps);
    }
    addresses
}

} // verus!

verus! {

/// The keys of a list of header entries.
pub open spec fn entry_keys(s: Seq<(String, String)>) -> Seq<Seq<char>> {
    s.map_values(|e: (String, String)| e.0@)
}

/// A table of header fields: at most one value per name.
#[derive(Debug, Clone)]
pub struct HeaderMap {
    entries: Vec<(String, String)>,
}

impl View for HeaderMap {
    type V = Map<Seq<char>, Seq<char>>;

    closed spec fn view(&self) -> Map<Seq<char>, Seq<char>> {
        Map::new(
            |k: Seq<char>| entry_keys(self.entries@).contains(k),
            |k: Seq<char>| self.entries@[entry_keys(self.entries@).index_of(k)].1@,
        )
    }
}

proof fn lemma_index_of_unique(keys: Seq<Seq<char>>, i: int)
    requires
        keys.no_duplicates(),
        0 <= i < keys.len(),
    ensures
        keys.index_of(keys[i]) == i,
{
    assert(keys.contains(keys[i]));
    let j = keys.index_of(keys[i]);
    assert(0 <= j < keys.len() && keys[j] == keys[i]);
}

impl HeaderMap {
    /// Well-formedness: no name occurs twice.
    pub closed spec fn wf(&self) -> bool {
        entry_keys(self.entries@).no_duplicates()
    }

    /// The number of fields.
    pub closed spec fn count(&self) -> nat {
        self.entries@.len()
    }

    /// The field at position `i`, in the order in which the names were first
    /// set.
    pub closed spec fn entry_at(&self, i: int) -> (Seq<char>, Seq<char>) {
        (self.entries@[i].0@, self.entries@[i].1@)
    }

    /// An empty table.
    pub fn new() -> (r: HeaderMap)
        ensures
            r.wf(),
            r@ == Map::<Seq<char>, Seq<char>>::empty(),
            r.count() == 0,
    {
        let r = HeaderMap { entries: Vec::new() };
        assert(entry_keys(r.entries@) =~= Seq::<Seq<char>>::empty());
        assert(r@ =~= Map::<Seq<char>, Seq<char>>::empty());
        r
    }

    /// The value of the field named `key`, if any.
    pub fn get(&self, key: &str) -> (r: Option<&String>)
        requires
            self.wf(),
        ensures
            match r {
                Some(v) => self@.contains_key(key@) && v@ == self@[key@],
                None => !self@.contains_key(key@),
            },
    {
        let ghost keys = entry_keys(self.entries@);
        let mut i: usize = 0;
        while i < self.entries.len()
            invariant
                keys == entry_keys(self.entries@),
                keys.no_duplicates(),
                0 <= i <= self.entries@.len(),
                forall|j: int| 0 <= j < i ==> keys[j] != key@,
            decreases self.entries@.len() - i,
        {
            if str_eq(self.entries[i].0.as_str(), key) {
                proof {
                    assert(keys[i as int] == key@);
                    lemma_index_of_unique(keys, i as int);
                }
                return Some(&self.entries[i].1);
            }
            i = i + 1;
        }
        proof {
            if keys.contains(key@) {
                let j = choose|j: int| 0 <= j < keys.len() && keys[j] == key@;
                assert(keys[j] != key@);
            }
        }
        None
    }

    /// Sets the field named `key` to `value`, replacing an earlier value.
    pub fn insert(&mut self, key: String, value: String)
        requires
            old(self).wf(),
        ensures
            final(self).wf(),
            final(self)@ == old(self)@.insert(key@, value@),
    {
        let ghost keys = entry_keys(self.entries@);
        let ghost old_entries = self.entries@;
        let mut i: usize = 0;
        while i < self.entries.len()
            invariant
                self.entries@ == old_entries,
                old(self).entries@ == old_entries,
                keys == entry_keys(old_entries),
                keys.no_duplicates(),
                0 <= i <= self.entries@.len(),
                forall|j: int| 0 <= j < i ==> keys[j] != key@,
            decreases self.entries@.len() - i,
        {
            if str_eq(self.entries[i].0.as_str(), key.as_str()) {
                let ghost kv = key@;
                let ghost vv = value@;
                proof {
                    assert(keys[i as int] == kv);
                }
                self.entries.set(i, (key, value));
                proof {
                    let nk = entry_keys(self.entries@);
                    assert(nk =~= keys);
                    lemma_index_of_unique(keys, i as int);
                    assert(self.entries@[i as int].1@ == vv);
                    assert forall|k: Seq<char>| #[trigger] self@.contains_key(k) == old(self)@.insert(kv, vv).contains_key(k) by {
                        assert(keys.contains(kv));
                        assert(self@.contains_key(k) == nk.contains(k));
                        assert(old(self)@.contains_key(k) == keys.contains(k));
                    }
                    assert forall|k: Seq<char>| self@.contains_key(k) implies #[trigger] self@[k] == old(self)@.insert(kv, vv)[k] by {
                        if k != kv {
                            let j = keys.index_of(k);
                            assert(0 <= j < keys.len() && keys[j] == k);
                            assert(j != i);
                        }
                    }
                    assert(self@ =~= old(self)@.insert(kv, vv));
                }
                return;
            }
            i = i + 1;
        }
        let ghost kv = key@;
        let ghost vv = value@;
        proof {
            assert(!keys.contains(kv)) by {
                if keys.contains(kv) {
                    let j = choose|j: int| 0 <= j < keys.len() && keys[j] == kv;
                    assert(keys[j] != kv);
                }
            }
        }
        self.entries.push((key, value));
        proof {
            let nk = entry_keys(self.entries@);
            assert(nk =~= keys.push(kv));
            assert forall|a: int, b: int| 0 <= a < b < nk.len() implies nk[a] != nk[b] by {
                if b == keys.len() {
                    assert(keys.contains(keys[a]));
                } else {
                    assert(keys[a] != keys[b]);
                }
            }
            lemma_index_of_unique(nk, keys.len() as int);
            assert forall|k: Seq<char>| #[trigger] self@.contains_key(k) == old(self)@.insert(kv, vv).contains_key(k) by {
                if keys.contains(k) {
                    let j = choose|j: int| 0 <= j < keys.len() && keys[j] == k;
                    assert(nk[j] == k);
                }
                if nk.contains(k) && k != kv {
                    let j = choose|j: int| 0 <= j < nk.len() && nk[j] == k;
                    assert(j < keys.len());
                    assert(keys[j] == k);
                }
            }
            assert forall|k: Seq<char>| self@.contains_key(k) implies #[trigger] self@[k] == old(self)@.insert(kv, vv)[k] by {
                if k != kv {
                    let j = keys.index_of(k);
                    assert(keys.contains(k));
                    assert(0 <= j < keys.len() && keys[j] == k);
                    assert(nk[j] == k);
                    lemma_index_of_unique(nk, j);
                    lemma_index_of_unique(keys, j);
                }
            }
            assert(self@ =~= old(self)@.insert(kv, vv));
        }
    }

    /// The number of fields.
    pub fn len(&self) -> (r: usize)
        ensures
            r == self.count(),
    {
        self.entries.len()
    }

    /// The name and value of the field at position `i`.
    pub fn entry(&self, i: usize) -> (r: (&String, &String))
        requires
            i < self.count(),
        ensures
            (r.0@, r.1@) == self.entry_at(i as int),
    {
        (&self.entries[i].0, &self.entries[i].1)
    }
}

} // verus!

verus! {

/// The whitespace-separated words of `s` that are finished, and the word
/// being read.
pub open spec fn ws_state(s: Seq<char>) -> (Seq<Seq<char>>, Seq<char>)
    decreases s.len(),
{
    if s.len() == 0 {
        (seq![], seq![])
    } else {
        let (done, cur) = ws_state(s.drop_last());
        if is_whitespace(s.last()) {
            (if cur.len() > 0 { done.push(cur) } else { done }, seq![])
        } else {
            (done, cur.push(s.last()))
        }
    }
}

/// The words of `s` separated by whitespace (`str::split_whitespace`).
pub open spec fn split_whitespace(s: Seq<char>) -> Seq<Seq<char>> {
    let (done, cur) = ws_state(s);
    if cur.len() > 0 {
        done.push(cur)
    } else {
        done
    }
}

/// The items of `l` joined with single spaces (`[..].join(" ")`).
pub open spec fn join_spaced(l: Seq<Seq<char>>) -> Seq<char>
    decreases l.len(),
{
    if l.len() == 0 {
        seq![]
    } else if l.len() == 1 {
        l[0]
    } else {
        join_spaced(l.drop_last()) + seq![' '] + l.last()
    }
}

/// Whether `w` is a non-empty word without whitespace.
pub open spec fn is_token(w: Seq<char>) -> bool {
    w.len() > 0 && forall|j: int| 0 <= j < w.len() ==> !is_whitespace(#[trigger] w[j])
}

proof fn lemma_ws_state_token(a: Seq<char>, b: Seq<char>)
    requires
        forall|j: int| 0 <= j < b.len() ==> !is_whitespace(#[trigger] b[j]),
    ensures
        ws_state(a + b) == (ws_state(a).0, ws_state(a).1 + b),
    decreases b.len(),
{
    if b.len() == 0 {
        assert(a + b =~= a);
        assert(ws_state(a).1 + b =~= ws_state(a).1);
    } else {
        let b0 = b.drop_last();
        assert forall|j: int| 0 <= j < b0.len() implies !is_whitespace(#[trigger] b0[j]) by {
            assert(b0[j] == b[j]);
        }
        lemma_ws_state_token(a, b0);
        assert((a + b).drop_last() =~= a + b0);
        assert((a + b).last() == b[b.len() - 1]);
        assert(ws_state(a).1 + b0 + seq![b.last()] =~= ws_state(a).1 + b);
        assert((ws_state(a).1 + b0).push(b.last()) =~= ws_state(a).1 + b);
    }
}

/// Splitting a space-joined list of tokens at whitespace gives the list
/// back.
pub proof fn law_split_join_roundtrip(refs: Seq<Seq<char>>)
    requires
        forall|k: int| 0 <= k < refs.len() ==> is_token(#[trigger] refs[k]),
    ensures
        split_whitespace(join_spaced(refs)) == refs,
    decreases refs.len(),
{
    if refs.len() == 0 {
        assert(split_whitespace(join_spaced(refs)) =~= refs);
    } else if refs.len() == 1 {
        let x = refs[0];
        assert(is_token(refs[0]));
        lemma_ws_state_token(seq![], x);
        assert(Seq::<char>::empty() + x =~= x);
        assert(Seq::<char>::empty() + x =~= x);
        assert(split_whitespace(x) =~= seq![x]);
        assert(refs =~= seq![x]);
    } else {
        let init = refs.drop_last();
        let x = refs.last();
        assert forall|k: int| 0 <= k < init.len() implies is_token(#[trigger] init[k]) by {
            assert(init[k] == refs[k]);
        }
        assert(is_token(refs[refs.len() - 1]));
        law_split_join_roundtrip(init);
        let j = join_spaced(init);
        let js = j + seq![' '];
        assert(js.drop_last() =~= j);
        assert(js.last() == ' ');
        assert(ws_state(js).1 =~= Seq::<char>::empty());
        assert(ws_state(js).0 == split_whitespace(j));
        lemma_ws_state_token(js, x);
        assert(join_spaced(refs) == js + x);
        assert(split_whitespace(join_spaced(refs)) =~= init.push(x));
        assert(refs =~= init.push(x));
    }
}

/// The views of a list of strings.
pub open spec fn string_views(l: Seq<String>) -> Seq<Seq<char>> {
    l.map_values(|w: String| w@)
}

/// The whitespace-separated words of `s`, computed.
pub fn split_whitespace_of(s: &str) -> (r: Vec<String>)
    ensures
        string_views(r@) == split_whitespace(s@),
{
    let cs = chars_of(s);
    let mut done: Vec<String> = Vec::new();
    let mut cur: Vec<char> = Vec::new();
    let mut i: usize = 0;
    while i < cs.len()
        invariant
            cs@ == s@,
            0 <= i <= cs@.len(),
            ws_state(cs@.take(i as int)) == (string_views(done@), cur@),
        decreases cs@.len() - i,
    {
        proof {
            assert(cs@.take(i + 1).drop_last() =~= cs@.take(i as int));
        }
        if char_is_whitespace(cs[i]) {
            if cur.len() > 0 {
                let w = string_of(cur.as_slice());
                let ghost before = done@;
                done.push(w);
                proof {
                    assert(string_views(done@) =~= string_views(before).push(cur@));
                }
            }
            cur = Vec::new();
        } else {
            cur.push(cs[i]);
        }
        i = i + 1;
    }
    proof {
        assert(cs@.take(i as int) =~= s@);
    }
    if cur.len() > 0 {
        let w = string_of(cur.as_slice());
        let ghost before = done@;
        done.push(w);
        proof {
            assert(string_views(done@) =~= string_views(before).push(cur@));
        }
    }
    done
}

/// The items of `l` joined with single spaces, computed.
pub fn join_with_spaces(l: &Vec<String>) -> (r: String)
    ensures
        r@ == join_spaced(string_views(l@)),
{
    let mut r = String::new();
    let mut i: usize = 0;
    while i < l.len()
        invariant
            0 <= i <= l@.len(),
            r@ == join_spaced(string_views(l@).take(i as int)),
        decreases l@.len() - i,
    {
        let ghost prev = string_views(l@).take(i as int);
        let ghost next = string_views(l@).take(i + 1);
        proof {
            assert(next.drop_last() =~= prev);
            assert(next.last() == l@[i as int]@);
        }
        if i > 0 {
            push_char(&mut r, ' ');
        }
        let cs = chars_of(l[i].as_str());
        let mut k: usize = 0;
        let ghost base = r@;
        while k < cs.len()
            invariant
                0 <= k <= cs@.len(),
                r@ == base + cs@.take(k as int),
            decreases cs@.len() - k,
        {
            push_char(&mut r, cs[k]);
            proof {
                assert(cs@.take(k + 1) =~= cs@.take(k as int).push(cs@[k as int]));
            }
            k = k + 1;
        }
        proof {
            assert(cs@.take(k as int) =~= cs@);
            if i == 0 {
                assert(next =~= seq![l@[0]@]);
                assert(r@ =~= next[0]);
            } else {
                assert(r@ =~= join_spaced(prev) + seq![' '] + next.last());
            }
        }
        i = i + 1;
    }
    proof {
        assert(string_views(l@).take(i as int) =~= string_views(l@));
    }
    r
}

/// The current time, in seconds since the Unix epoch (`chrono::Local::now`).
/// Nothing is stated of the value: it depends on the clock.
#[verifier::external_body]
pub(crate) fn current_timestamp() -> (r: i64) {
    chrono::Local::now().timestamp()
}

/// An e-mail message.
#[derive(Debug, Clone)]
pub struct Email {
    pub id: String,
    pub subject: String,
    pub from: Vec<EmailAddress>,
    pub to: Vec<EmailAddress>,
    pub cc: Vec<EmailAddress>,
    pub bcc: Vec<EmailAddress>,
    /// Seconds since the Unix epoch.
    pub date: i64,
    pub body_text: Option<String>,
    pub body_html: Option<String>,
    pub attachments: Vec<EmailAttachment>,
    pub flags: Vec<String>,
    pub headers: HeaderMap,
    pub seen: bool,
    pub folder: String,
}

impl Email {
    /// An empty message in `INBOX`, dated now.
    pub fn new() -> (r: Email)
        ensures
            r.id@.len() == 0,
            r.subject@.len() == 0,
            r.from@.len() == 0,
            r.to@.len() == 0,
            r.cc@.len() == 0,
            r.bcc@.len() == 0,
            r.body_text is None,
            r.body_html is None,
            r.attachments@.len() == 0,
            r.flags@.len() == 0,
            r.headers.wf(),
            r.headers@ == Map::<Seq<char>, Seq<char>>::empty(),
            !r.seen,
            r.folder@ == "INBOX"@,
    {
        Email {
            id: String::new(),
            subject: String::new(),
            from: Vec::new(),
            to: Vec::new(),
            cc: Vec::new(),
            bcc: Vec::new(),
            date: current_timestamp(),
            body_text: None,
            body_html: None,
            attachments: Vec::new(),
            flags: Vec::new(),
            headers: HeaderMap::new(),
            seen: false,
            folder: owned("INBOX"),
        }
    }

    /// The `Reply-To` header as one address without a name, or nothing.
    pub fn reply_to(&self) -> (r: Vec<EmailAddress>)
        requires
            self.headers.wf(),
        ensures
            address_views(r@) == (if self.headers@.contains_key("Reply-To"@) {
                seq![(None::<Seq<char>>, self.headers@["Reply-To"@])]
            } else {
                Seq::<AddressView>::empty()
            }),
    {
        let mut r: Vec<EmailAddress> = Vec::new();
        match self.headers.get("Reply-To") {
            Some(v) => {
                r.push(EmailAddress { name: None, address: v.clone() });
                proof {
                    assert(address_views(r@) =~= seq![(None::<Seq<char>>, self.headers@["Reply-To"@])]);
                }
            },
            None => {
                proof {
                    assert(address_views(r@) =~= Seq::<AddressView>::empty());
                }
            },
        }
        r
    }

    /// The `Message-ID` header, or the empty string.
    pub fn message_id(&self) -> (r: String)
        requires
            self.headers.wf(),
        ensures
            r@ == (if self.headers@.contains_key("Message-ID"@) {
                self.headers@["Message-ID"@]
            } else {
                Seq::<char>::empty()
            }),
    {
        match self.headers.get("Message-ID") {
            Some(v) => v.clone(),
            None => String::new(),
        }
    }

    /// The message ids of the `References` header, split at whitespace.
    pub fn references(&self) -> (r: Vec<String>)
        requires
            self.headers.wf(),
        ensures
            string_views(r@) == (if self.headers@.contains_key("References"@) {
                split_whitespace(self.headers@["References"@])
            } else {
                Seq::<Seq<char>>::empty()
            }),
    {
        match self.headers.get("References") {
            Some(v) => split_whitespace_of(v.as_str()),
            None => {
                let r: Vec<String> = Vec::new();
                assert(string_views(r@) =~= Seq::<Seq<char>>::empty());
                r
            },
        }
    }

    /// Sets the `In-Reply-To` header.
    pub fn set_in_reply_to(&mut self, message_id: String)
        requires
            old(self).headers.wf(),
        ensures
            final(self).headers.wf(),
            final(self).headers@ == old(self).headers@.insert("In-Reply-To"@, message_id@),
            *final(self) == (Email { headers: final(self).headers, ..*old(self) }),
    {
        self.headers.insert(owned("In-Reply-To"), message_id);
    }

    /// Sets the `References` header to the ids joined with spaces; an empty
    /// list leaves the headers unchanged.
    pub fn set_references(&mut self, references: Vec<String>)
        requires
            old(self).headers.wf(),
        ensures
            final(self).headers.wf(),
            final(self).headers@ == (if references@.len() > 0 {
                old(self).headers@.insert("References"@, join_spaced(string_views(references@)))
            } else {
                old(self).headers@
            }),
            *final(self) == (Email { headers: final(self).headers, ..*old(self) }),
    {
        if references.len() > 0 {
            let joined = join_with_spaces(&references);
            self.headers.insert(owned("References"), joined);
        }
    }
}

/// What `references` reads back after `set_references` with a non-empty list
/// of ids that hold no whitespace is that list.
pub proof fn law_references_read_back(headers: Map<Seq<char>, Seq<char>>, refs: Seq<Seq<char>>)
    requires
        refs.len() > 0,
        forall|k: int| 0 <= k < refs.len() ==> is_token(#[trigger] refs[k]),
    ensures
        headers.insert("References"@, join_spaced(refs)).contains_key("References"@),
        split_whitespace(headers.insert("References"@, join_spaced(refs))["References"@]) == refs,
{
    law_split_join_roundtrip(refs);
}

} // verus!

verus! {

use crate::mime::{MimeAddr, MimeValue, MimeHeader, ParsedMessage, header_value_text, or_empty, attachments_of, attachment_from_part, header_text};

/// The addresses the parser's `From` value gives: each with a non-empty
/// address.
pub open spec fn api_addr(a: MimeAddr) -> Seq<AddressView> {
    let addr = or_empty(a.address);
    if addr.len() > 0 {
        seq![(opt_view(a.name), addr)]
    } else {
        seq![]
    }
}

/// The addresses of a list of parser addresses, each with a non-empty
/// address.
pub open spec fn api_addrs(l: Seq<MimeAddr>) -> Seq<AddressView>
    decreases l.len(),
{
    if l.len() == 0 {
        seq![]
    } else {
        api_addrs(l.drop_last()) + api_addr(l.last())
    }
}

/// The addresses of the parser's `From` value.
pub open spec fn from_value_addresses(v: MimeValue) -> Seq<AddressView> {
    match v {
        MimeValue::Address(a) => api_addr(a),
        MimeValue::AddressList(l) => api_addrs(l@),
        _ => seq![],
    }
}

/// The header table and the `From`, `To` and `Cc` addresses gathered while
/// the headers of a message are read.
pub type HeaderFacts = (Map<Seq<char>, Seq<char>>, Seq<AddressView>, Seq<AddressView>, Seq<AddressView>);

/// What one header adds: its text under its name, and the addresses of a
/// `From`, `To` or `Cc` header (names compared in lowercase).
pub open spec fn read_header(st: HeaderFacts, h: MimeHeader) -> HeaderFacts {
    match header_value_text(h.value) {
        Some(v) => {
            let m = st.0.insert(h.name@, v);
            let ln = lowercase(h.name@);
            if ln == "from"@ {
                (m, st.1 + parsed_addresses(v), st.2, st.3)
            } else if ln == "to"@ {
                (m, st.1, st.2 + parsed_addresses(v), st.3)
            } else if ln == "cc"@ {
                (m, st.1, st.2, st.3 + parsed_addresses(v))
            } else {
                (m, st.1, st.2, st.3)
            }
        },
        None => st,
    }
}

/// What the headers add, read in order.
pub open spec fn read_headers(init: HeaderFacts, hs: Seq<MimeHeader>) -> HeaderFacts
    decreases hs.len(),
{
    if hs.len() == 0 {
        init
    } else {
        read_header(read_headers(init, hs.drop_last()), hs.last())
    }
}

/// The headers whose text is read as an address list.
pub open spec fn header_needs_addresses(h: MimeHeader) -> bool {
    let ln = lowercase(h.name@);
    ln == "from"@ || ln == "to"@ || ln == "cc"@ || h.name@ == "From"@ || h.name@ == "from"@
}

/// Whether every address header of a message can be read.
pub open spec fn message_addresses_ok(p: ParsedMessage) -> bool {
    forall|k: int|
        0 <= k < p.headers@.len() && header_needs_addresses(#[trigger] p.headers@[k])
            && header_value_text(p.headers@[k].value) is Some ==> address_list_ok(
            header_value_text(p.headers@[k].value)->0,
        )
}

/// `chrono::DateTime::from_timestamp(secs, 0)` gives a date: `secs` is within
/// the range of dates chrono represents, from January 1 of the year -262143
/// to the last second of December 31, 262142.
pub open spec fn chrono_timestamp_valid(secs: i64) -> bool {
    -8334601228800 <= secs <= 8210266876799
}

/// `chrono::DateTime::from_timestamp(secs, 0)`: whether it gives a date. The
/// answer is a function of `secs` alone.
#[verifier::external_body]
pub(crate) fn timestamp_in_range(secs: i64) -> (r: bool)
    ensures
        r == chrono_timestamp_valid(secs),
{
    chrono::DateTime::from_timestamp(secs, 0).is_some()
}

/// The date of a message: its `Date` header when chrono can represent it,
/// otherwise `now`.
pub open spec fn email_date(p: ParsedMessage, now: i64) -> i64 {
    match p.date {
        Some(ts) => if chrono_timestamp_valid(ts) {
            ts
        } else {
            now
        },
        None => now,
    }
}

/// Whether an e-mail carries the message's date, when the message has one
/// that chrono can represent; another date is the time of reading.
pub open spec fn dated_as_parsed(e: Email, p: ParsedMessage) -> bool {
    match p.date {
        Some(ts) => chrono_timestamp_valid(ts) ==> e.date == ts,
        None => true,
    }
}

/// The sender addresses of a message: those of the parser's `From` value and
/// of the `From` headers; when there are none, those of the `From` (or
/// `from`) entry of the header table.
pub open spec fn final_from(facts: HeaderFacts) -> Seq<AddressView> {
    if facts.1.len() > 0 {
        facts.1
    } else if facts.0.contains_key("From"@) {
        parsed_addresses(facts.0["From"@])
    } else if facts.0.contains_key("from"@) {
        parsed_addresses(facts.0["from"@])
    } else {
        seq![]
    }
}

/// The facts a parsed message yields.
pub open spec fn message_facts(p: ParsedMessage) -> HeaderFacts {
    read_headers((Map::empty(), from_value_addresses(p.from), seq![], seq![]), p.headers@)
}

/// Whether an e-mail is what a parsed message gives, with the given id,
/// folder and flags, all but its date.
pub open spec fn email_matches_parsed(
    e: Email,
    p: ParsedMessage,
    id: Seq<char>,
    folder: Seq<char>,
    flags: Seq<Seq<char>>,
) -> bool {
    let facts = message_facts(p);
    &&& e.id@ == id
    &&& e.folder@ == folder
    &&& string_views(e.flags@) == flags
    &&& e.seen == flags.contains("\\Seen"@)
    &&& e.subject@ == or_empty(p.subject)
    &&& e.headers.wf()
    &&& e.headers@ == facts.0
    &&& address_views(e.from@) == final_from(facts)
    &&& address_views(e.to@) == facts.2
    &&& address_views(e.cc@) == facts.3
    &&& e.bcc@.len() == 0
    &&& opt_view(e.body_text) == opt_view(p.body_text)
    &&& opt_view(e.body_html) == opt_view(p.body_html)
    &&& attachment_views(e.attachments@) == attachments_of(p.parts@)
}

/// The addresses of the parser's `From` value, computed.
fn from_value_addresses_exec(v: &MimeValue) -> (r: Vec<EmailAddress>)
    ensures
        address_views(r@) == from_value_addresses(*v),
{
    let mut r: Vec<EmailAddress> = Vec::new();
    match v {
        MimeValue::Address(a) => {
            push_api_addr(&mut r, a);
            proof {
                assert(address_views(r@) =~= api_addr(*a));
            }
        },
        MimeValue::AddressList(l) => {
            let mut i: usize = 0;
            proof {
                assert(l@.take(0) =~= Seq::<MimeAddr>::empty());
                assert(address_views(r@) =~= Seq::<AddressView>::empty());
            }
            while i < l.len()
                invariant
                    0 <= i <= l@.len(),
                    address_views(r@) == api_addrs(l@.take(i as int)),
                decreases l@.len() - i,
            {
                proof {
                    assert(l@.take(i + 1).drop_last() =~= l@.take(i as int));
                }
                push_api_addr(&mut r, &l[i]);
                i = i + 1;
            }
            proof {
                assert(l@.take(i as int) =~= l@);
            }
        },
        _ => {
            proof {
                assert(address_views(r@) =~= Seq::<AddressView>::empty());
            }
        },
    }
    r
}

/// Appends the address of a parser address when it is not empty.
fn push_api_addr(r: &mut Vec<EmailAddress>, a: &MimeAddr)
    ensures
        address_views(final(r)@) == address_views(old(r)@) + api_addr(*a),
{
    let address = match &a.address {
        Some(s) => s.clone(),
        None => String::new(),
    };
    proof {
        crate::text::lemma_text_width_bounds(address@);
    }
    if crate::text::str_width(address.as_str()) > 0 {
        let ghost before = r@;
        r.push(EmailAddress { name: a.name.clone(), address });
        proof {
            assert(address_views(r@) =~= address_views(before) + api_addr(*a));
        }
    } else {
        assert(address_views(r@) =~= address_views(r@) + api_addr(*a));
    }
}

/// Appends the addresses of an address list.
fn extend_addresses(r: &mut Vec<EmailAddress>, value: &str)
    requires
        address_list_ok(value@),
    ensures
        address_views(final(r)@) == address_views(old(r)@) + parsed_addresses(value@),
{
    let more = parse_email_addresses(value);
    let ghost base = r@;
    let mut i: usize = 0;
    while i < more.len()
        invariant
            0 <= i <= more@.len(),
            address_views(r@) == address_views(base) + address_views(more@).take(i as int),
        decreases more@.len() - i,
    {
        let ghost before = r@;
        r.push(copy_address(&more[i]));
        proof {
            assert(address_views(r@) =~= address_views(before).push(more@[i as int]@));
            assert(address_views(more@).take(i + 1) =~= address_views(more@).take(i as int).push(more@[i as int]@));
        }
        i = i + 1;
    }
    proof {
        assert(address_views(more@).take(i as int) =~= address_views(more@));
    }
}

impl Email {
    /// The e-mail a parsed message gives, with the given id, folder and flags,
    /// dated by the message's `Date` header when chrono can represent it and
    /// by `now` otherwise. Marked seen when the flags hold `\Seen`.
    pub fn email_from_parsed(
        parsed: &ParsedMessage,
        id: &str,
        folder: &str,
        flags: Vec<String>,
        now: i64,
    ) -> (r: Email)
        requires
            message_addresses_ok(*parsed),
        ensures
            email_matches_parsed(r, *parsed, id@, folder@, string_views(flags@)),
            r.date == email_date(*parsed, now),
    {
        let ghost flag_views = string_views(flags@);
        let mut seen = false;
        let mut k: usize = 0;
        while k < flags.len()
            invariant
                0 <= k <= flags@.len(),
                flag_views == string_views(flags@),
                seen == flag_views.take(k as int).contains("\\Seen"@),
            decreases flags@.len() - k,
        {
            proof {
                assert(flag_views.take(k + 1) =~= flag_views.take(k as int).push(flags@[k as int]@));
                if flag_views.take(k as int).contains("\\Seen"@) {
                    let j = choose|j: int| 0 <= j < k && flag_views.take(k as int)[j] == "\\Seen"@;
                    assert(flag_views.take(k + 1)[j] == "\\Seen"@);
                }
                if flags@[k as int]@ == "\\Seen"@ {
                    assert(flag_views.take(k + 1)[k as int] == "\\Seen"@);
                }
            }
            if str_eq(flags[k].as_str(), "\\Seen") {
                seen = true;
            }
            k = k + 1;
        }
        proof {
            assert(flag_views.take(k as int) =~= flag_views);
        }
        let subject = match &parsed.subject {
            Some(s) => s.clone(),
            None => String::new(),
        };
        let date = match parsed.date {
            Some(ts) => if timestamp_in_range(ts) {
                ts
            } else {
                now
            },
            None => now,
        };
        let mut from = from_value_addresses_exec(&parsed.from);
        let mut to: Vec<EmailAddress> = Vec::new();
        let mut cc: Vec<EmailAddress> = Vec::new();
        let mut headers = HeaderMap::new();
        let ghost hs = parsed.headers@;
        let ghost init: HeaderFacts = (Map::empty(), from_value_addresses(parsed.from), seq![], seq![]);
        proof {
            assert(address_views(to@) =~= Seq::<AddressView>::empty());
            assert(address_views(cc@) =~= Seq::<AddressView>::empty());
            assert(hs.take(0) =~= Seq::<MimeHeader>::empty());
        }
        let mut i: usize = 0;
        while i < parsed.headers.len()
            invariant
                hs == parsed.headers@,
                message_addresses_ok(*parsed),
                0 <= i <= hs.len(),
                headers.wf(),
                read_headers(init, hs.take(i as int)) == (headers@, address_views(from@), address_views(to@), address_views(cc@)),
                forall|key: Seq<char>|
                    #[trigger] headers@.contains_key(key) ==> exists|j: int|
                        0 <= j < i && hs[j].name@ == key && header_value_text(hs[j].value) == Some(headers@[key]),
            decreases hs.len() - i,
        {
            let h = &parsed.headers[i];
            proof {
                assert(hs.take(i + 1).drop_last() =~= hs.take(i as int));
                assert(hs.take(i + 1).last() == hs[i as int]);
            }
            let ghost old_map = headers@;
            match header_text(&h.value) {
                Some(v) => {
                    let lower = to_lowercase_name(h.name.as_str());
                    let ghost vv = v@;
                    proof {
                        if header_needs_addresses(hs[i as int]) {
                            assert(address_list_ok(vv));
                        }
                    }
                    if str_eq(lower.as_str(), "from") {
                        extend_addresses(&mut from, v.as_str());
                    } else if str_eq(lower.as_str(), "to") {
                        extend_addresses(&mut to, v.as_str());
                    } else if str_eq(lower.as_str(), "cc") {
                        extend_addresses(&mut cc, v.as_str());
                    }
                    headers.insert(h.name.clone(), v);
                    proof {
                        assert forall|key: Seq<char>| #[trigger] headers@.contains_key(key) implies exists|j: int|
                            0 <= j < i + 1 && hs[j].name@ == key && header_value_text(hs[j].value) == Some(headers@[key]) by {
                            if key == hs[i as int].name@ {
                                assert(hs[i as int].name@ == key && header_value_text(hs[i as int].value) == Some(headers@[key]));
                            } else {
                                assert(old_map.contains_key(key));
                                let j = choose|j: int| 0 <= j < i && hs[j].name@ == key && header_value_text(hs[j].value) == Some(old_map[key]);
                                assert(headers@[key] == old_map[key]);
                            }
                        }
                    }
                },
                None => {},
            }
            i = i + 1;
        }
        proof {
            assert(hs.take(i as int) =~= hs);
        }
        if from.len() == 0 {
            let fallback = match headers.get("From") {
                Some(v) => Some(v),
                None => headers.get("from"),
            };
            match fallback {
                Some(v) => {
                    proof {
                        let key = if headers@.contains_key("From"@) { "From"@ } else { "from"@ };
                        assert(headers@.contains_key(key));
                        let j = choose|j: int| 0 <= j < hs.len() && hs[j].name@ == key && header_value_text(hs[j].value) == Some(headers@[key]);
                        assert(header_needs_addresses(hs[j]));
                    }
                    let owned_value = v.clone();
                    extend_addresses(&mut from, owned_value.as_str());
                },
                None => {},
            }
        }
        let body_text = match &parsed.body_text {
            Some(t) => Some(t.clone()),
            None => None,
        };
        let body_html = match &parsed.body_html {
            Some(t) => Some(t.clone()),
            None => None,
        };
        let attachments = Self::extract_attachments(parsed);
        proof {
            let facts = message_facts(*parsed);
            assert(address_views(to@) == facts.2);
            assert(address_views(cc@) == facts.3);
            assert(headers@ == facts.0);
            assert(address_views(from@) == final_from(facts));
            assert(subject@ == or_empty(parsed.subject));
            assert(opt_view(body_text) == opt_view(parsed.body_text));
            assert(opt_view(body_html) == opt_view(parsed.body_html));
        }
        Email {
            id: owned(id),
            subject,
            from,
            to,
            cc,
            bcc: Vec::new(),
            date,
            body_text,
            body_html,
            attachments,
            flags,
            headers,
            seen,
            folder: owned(folder),
        }
    }

    /// The attachments of the parts of a message, in order.
    fn extract_attachments(parsed: &ParsedMessage) -> (r: Vec<EmailAttachment>)
        ensures
            attachment_views(r@) == attachments_of(parsed.parts@),
    {
        let mut attachments: Vec<EmailAttachment> = Vec::new();
        let ghost ps = parsed.parts@;
        let mut i: usize = 0;
        proof {
            assert(attachment_views(attachments@) =~= attachments_of(ps.take(0)));
        }
        while i < parsed.parts.len()
            invariant
                ps == parsed.parts@,
                0 <= i <= ps.len(),
                attachment_views(attachments@) == attachments_of(ps.take(i as int)),
            decreases ps.len() - i,
        {
            proof {
                assert(ps.take(i + 1).drop_last() =~= ps.take(i as int));
                assert(ps.take(i + 1).last() == ps[i as int]);
            }
            match Self::extract_attachment_from_part(&parsed.parts[i]) {
                Some(a) => {
                    let ghost before = attachments@;
                    attachments.push(a);
                    proof {
                        assert(attachment_views(attachments@) =~= attachment_views(before).push(a@));
                    }
                },
                None => {},
            }
            i = i + 1;
        }
        proof {
            assert(ps.take(i as int) =~= ps);
        }
        attachments
    }

    /// The attachment a part holds, if it is taken as one and has data.
    fn extract_attachment_from_part(part: &crate::mime::MimePart) -> (r: Option<EmailAttachment>)
        ensures
            match r {
                Some(a) => crate::mime::attachment_of(*part) == Some(a@),
                None => crate::mime::attachment_of(*part) is None,
            },
    {
        attachment_from_part(part)
    }
}

/// A copy of an address.
pub fn copy_address(a: &EmailAddress) -> (r: EmailAddress)
    ensures
        r@ == a@,
{
    EmailAddress {
        name: match &a.name {
            Some(n) => Some(n.clone()),
            None => None,
        },
        address: a.address.clone(),
    }
}

/// The lowercase form of a header name.
fn to_lowercase_name(name: &str) -> (r: String)
    ensures
        r@ == lowercase(name@),
{
    crate::text::to_lowercase(name)
}

} // verus!

verus! {

/// Why an e-mail operation failed.
#[derive(Debug, Clone)]
pub enum EmailError {
    ImapError(String),
    SmtpError(String),
    TlsError(String),
    IoError(String),
    ConnectionError(String),
}

impl Email {
    /// The e-mail a parsed message gives, with the given id, folder and flags;
    /// a message without a usable `Date` header is dated now. Always
    /// succeeds.
    pub fn from_parsed_email(parsed: &ParsedMessage, id: &str, folder: &str, flags: Vec<String>) -> (r: Result<Email, EmailError>)
        requires
            message_addresses_ok(*parsed),
        ensures
            r is Ok,
            email_matches_parsed(r->Ok_0, *parsed, id@, folder@, string_views(flags@)),
            dated_as_parsed(r->Ok_0, *parsed),
    {
        let now = current_timestamp();
        Ok(Self::email_from_parsed(parsed, id, folder, flags, now))
    }
}

/// Whether a trimmed part of an address list would be read out of order,
/// computed.
fn part_is_malformed_exec(t: &[char]) -> (r: bool)
    ensures
        r == part_is_malformed(t@),
{
    let lt: Vec<char> = vec!['<'];
    let gt: Vec<char> = vec!['>'];
    proof {
        assert(lt@ =~= seq!['<']);
        assert(gt@ =~= seq!['>']);
    }
    match find_exec(lt.as_slice(), t) {
        Some(s) => match find_exec(gt.as_slice(), t) {
            Some(e) => {
                if e < s {
                    return true;
                }
                let name_part = sub_chars(t, 0, s);
                proof {
                    assert(name_part@ =~= t@.take(s as int));
                }
                let np = trim_chars(name_part.as_slice());
                let r = np.len() == 1 && np[0] == '"';
                proof {
                    if np@.len() == 1 {
                        assert(np@ == seq![np@[0]]);
                    }
                    if np@ == seq!['"'] {
                        assert(np@.len() == 1);
                    }
                }
                r
            },
            None => false,
        },
        None => false,
    }
}

/// Whether every part of an address list can be read, computed.
pub fn address_list_ok_exec(value: &str) -> (r: bool)
    ensures
        r == address_list_ok(value@),
{
    let cs = chars_of(value);
    let parts = split_chars(cs.as_slice(), ',');
    let ghost ps = split_on(value@, ',');
    let mut i: usize = 0;
    while i < parts.len()
        invariant
            char_views(parts@) == ps,
            ps == split_on(value@, ','),
            0 <= i <= ps.len(),
            forall|k: int| 0 <= k < i ==> !#[trigger] part_is_malformed(trim(ps[k])),
        decreases ps.len() - i,
    {
        proof {
            assert(parts@[i as int]@ == ps[i as int]);
        }
        let t = trim_chars(parts[i].as_slice());
        if part_is_malformed_exec(t.as_slice()) {
            return false;
        }
        i = i + 1;
    }
    true
}

/// Whether every address header of a message can be read, computed.
pub fn message_addresses_ok_exec(p: &ParsedMessage) -> (r: bool)
    ensures
        r == message_addresses_ok(*p),
{
    let mut i: usize = 0;
    while i < p.headers.len()
        invariant
            0 <= i <= p.headers@.len(),
            forall|k: int|
                0 <= k < i && header_needs_addresses(#[trigger] p.headers@[k])
                    && header_value_text(p.headers@[k].value) is Some ==> address_list_ok(
                    header_value_text(p.headers@[k].value)->0,
                ),
        decreases p.headers@.len() - i,
    {
        let h = &p.headers[i];
        match header_text(&h.value) {
            Some(v) => {
                let lower = to_lowercase_name(h.name.as_str());
                let needs = str_eq(lower.as_str(), "from") || str_eq(lower.as_str(), "to") || str_eq(
                    lower.as_str(),
                    "cc",
                ) || str_eq(h.name.as_str(), "From") || str_eq(h.name.as_str(), "from");
                if needs && !address_list_ok_exec(v.as_str()) {
                    return false;
                }
            },
            None => {},
        }
        i = i + 1;
    }
    true
}

} // verus!

verus! {

impl Email {
    /// Reads a raw message with the MIME parser and builds the e-mail it
    /// gives, with the given id, folder and flags. Gives nothing when the bytes
    /// are not a message, or when an address header cannot be read.
    pub fn from_raw_message(raw: &[u8], id: &str, folder: &str, flags: Vec<String>) -> (r: Option<Email>)
        ensures
            match crate::mime_parser::mime_structure(raw@) {
                None => r is None,
                Some(p) => {
                    &&& (r is Some <==> message_addresses_ok(p))
                    &&& (r is Some ==> email_matches_parsed(r->0, p, id@, folder@, string_views(flags@)))
                    &&& (r is Some ==> dated_as_parsed(r->0, p))
                },
            },
    {
        match crate::mime_parser::parse_mime(raw) {
            Some(p) => {
                if message_addresses_ok_exec(&p) {
                    match Self::from_parsed_email(&p, id, folder, flags) {
                        Ok(e) => Some(e),
                        Err(_) => None,
                    }
                } else {
                    None
                }
            },
            None => None,
        }
    }
}

} // verus!

verus! {

/// The parts of an address as a mailbox: the name, and the text before and
/// after its `@` when it has exactly one; otherwise `unknown@example.com`.
pub open spec fn mailbox_parts_of(a: AddressView) -> (Option<Seq<char>>, Seq<char>, Seq<char>) {
    let parts = split_on(a.1, '@');
    if parts.len() == 2 {
        (a.0, parts[0], parts[1])
    } else {
        (a.0, "unknown"@, "example.com"@)
    }
}

impl EmailAddress {
    /// The name, user and domain of this address as a mailbox: the text
    /// before and after its `@` when it has exactly one, otherwise
    /// `unknown` at `example.com`.
    pub fn mailbox_parts(&self) -> (r: (Option<String>, String, String))
        ensures
            (opt_view(r.0), r.1@, r.2@) == mailbox_parts_of(self@),
    {
        let cs = chars_of(self.address.as_str());
        let parts = split_chars(cs.as_slice(), '@');
        let name = match &self.name {
            Some(n) => Some(n.clone()),
            None => None,
        };
        if parts.len() == 2 {
            proof {
                assert(char_views(parts@)[0] == parts@[0]@);
                assert(char_views(parts@)[1] == parts@[1]@);
            }
            (name, string_of(parts[0].as_slice()), string_of(parts[1].as_slice()))
        } else {
            (name, owned("unknown"), owned("example.com"))
        }
    }
}

impl Email {
    /// The sender of an outgoing message: its first `From` address, or the
    /// account's name and address when it has none.
    pub fn sender(&self, account_name: &str, account_email: &str) -> (r: EmailAddress)
        ensures
            self.from@.len() > 0 ==> r@ == self.from@[0]@,
            self.from@.len() == 0 ==> r@ == (Some(account_name@), account_email@),
    {
        if self.from.len() > 0 {
            copy_address(&self.from[0])
        } else {
            EmailAddress { name: Some(owned(account_name)), address: owned(account_email) }
        }
    }
}

} // verus!

//! Mailbox synchronisation: the decisions of the IMAP client. Which
//! messages to fetch, how fetched messages become e-mails, how a fetch is
//! merged into the cache, what is shown, and when an IDLE session
//! reconnects or gives up. The network operations themselves are performed
//! by the caller.
use vstd::prelude::*;
use vstd::string::StringExecFns;
use crate::text::{owned, str_eq, str_width};
use crate::config::{EmailAccount, ImapSecurity};
use crate::credentials::SecureCredentials;
use crate::email::{Email, EmailError, string_views, email_matches_parsed, dated_as_parsed, message_addresses_ok};
use crate::display::{decimal, decimal_string};

verus! {

/// `s` with each occurrence of `c` replaced by `with`.
pub open spec fn replace_char(s: Seq<char>, c: char, with: Seq<char>) -> Seq<char>
    decreases s.len(),
{
    if s.len() == 0 {
        seq![]
    } else {
        replace_char(s.drop_last(), c, with) + (if s.last() == c { with } else { seq![s.last()] })
    }
}

/// `s` with each occurrence of `c` replaced by `with`, computed.
pub fn replace_char_exec(s: &str, c: char, with: &str) -> (r: String)
    ensures
        r@ == replace_char(s@, c, with@),
{
    let cs = crate::text::chars_of(s);
    let mut r = String::new();
    let mut i: usize = 0;
    while i < cs.len()
        invariant
            cs@ == s@,
            0 <= i <= cs@.len(),
            r@ == replace_char(cs@.take(i as int), c, with@),
        decreases cs@.len() - i,
    {
        proof {
            assert(cs@.take(i + 1).drop_last() =~= cs@.take(i as int));
        }
        if cs[i] == c {
            r.append(with);
        } else {
            crate::text::push_char(&mut r, cs[i]);
        }
        i = i + 1;
    }
    proof {
        assert(cs@.take(i as int) =~= s@);
    }
    r
}

/// The cache directory of an account under a home directory:
/// `<home>/.cache/tuimail/<email>` with `@` written `_at_` and `.` written
/// `_`.
pub open spec fn cache_dir_of(home: Seq<char>, email: Seq<char>) -> Seq<char> {
    home + "/.cache/tuimail/"@ + replace_char(replace_char(email, '@', "_at_"@), '.', "_"@)
}

/// The client of one account's mailbox: the account, where its passwords
/// are kept, and the path of its message database.
#[derive(Debug, Clone)]
pub struct EmailClient {
    pub account: EmailAccount,
    pub credentials: SecureCredentials,
    pub db_path: String,
}

impl EmailClient {
    /// The cache directory of an account under a home directory.
    pub fn cache_dir_for(account: &EmailAccount, home: &str) -> (r: String)
        ensures
            r@ == cache_dir_of(home@, account.email@),
    {
        let at = replace_char_exec(account.email.as_str(), '@', "_at_");
        let name = replace_char_exec(at.as_str(), '.', "_");
        owned(home).concat("/.cache/tuimail/").concat(name.as_str())
    }

    /// A client whose database is `emails.db` in the account's cache
    /// directory under `home`.
    pub fn new(account: EmailAccount, credentials: SecureCredentials, home: &str) -> (r: EmailClient)
        ensures
            r.account == account,
            r.credentials == credentials,
            r.db_path@ == cache_dir_of(home@, account.email@) + "/emails.db"@,
    {
        let dir = Self::cache_dir_for(&account, home);
        let db_path = dir.concat("/emails.db");
        EmailClient { account, credentials, db_path }
    }

    /// Whether the IMAP connection uses TLS (SSL or STARTTLS).
    pub fn uses_tls(&self) -> (r: bool)
        ensures
            r == (self.account.imap_security != ImapSecurity::Plain),
    {
        match self.account.imap_security {
            ImapSecurity::Plain => false,
            _ => true,
        }
    }

    /// Whether the server supports IDLE, from what its capabilities said of
    /// IDLE (nothing when connecting or asking failed).
    pub fn supports_idle(&self, has_idle: Option<bool>) -> (r: bool)
        ensures
            r == (has_idle == Some(true)),
    {
        match has_idle {
            Some(b) => b,
            None => false,
        }
    }

    /// The latest UID of a folder: the largest UID a search for all messages
    /// returned, or 0 when it returned none.
    pub fn get_latest_uid(&self, search_result: &[u32]) -> (r: u32)
        ensures
            search_result@.len() == 0 ==> r == 0,
            search_result@.len() > 0 ==> search_result@.contains(r),
            forall|k: int| 0 <= k < search_result@.len() ==> search_result@[k] <= r,
    {
        let mut best: u32 = 0;
        let mut i: usize = 0;
        while i < search_result.len()
            invariant
                0 <= i <= search_result@.len(),
                forall|k: int| 0 <= k < i ==> search_result@[k] <= best,
                i > 0 ==> search_result@.take(i as int).contains(best),
                i == 0 ==> best == 0,
            decreases search_result@.len() - i,
        {
            proof {
                assert(search_result@.take(i + 1)[i as int] == search_result@[i as int]);
                if i > 0 {
                    let j = choose|j: int| 0 <= j < i && search_result@.take(i as int)[j] == best;
                    assert(search_result@.take(i + 1)[j] == best);
                }
            }
            if search_result[i] > best || i == 0 {
                best = search_result[i];
            }
            i = i + 1;
        }
        proof {
            if i > 0 {
                assert(search_result@.take(i as int) =~= search_result@);
            }
        }
        best
    }

    /// The supervision of an IDLE session on a folder, before its first
    /// connection.
    pub fn run_idle_session(&self, folder: &str) -> (r: IdleSupervisor)
        ensures
            r.folder@ == folder@,
            r.tls == (self.account.imap_security != ImapSecurity::Plain),
            r.reconnect_attempts == 0,
            r.health_failures == 0,
            r.last_known_count == 0,
    {
        IdleSupervisor {
            folder: owned(folder),
            tls: self.uses_tls(),
            reconnect_attempts: 0,
            health_failures: 0,
            last_known_count: 0,
        }
    }
}

/// How many IDLE session errors end the session.
pub const MAX_RECONNECT_ATTEMPTS: u32 = 10;

/// How many failed health checks in a row force a reconnection.
pub const MAX_HEALTH_CHECK_FAILURES: u32 = 3;

/// The state of an IDLE session across reconnections.
#[derive(Debug, Clone)]
pub struct IdleSupervisor {
    pub folder: String,
    pub tls: bool,
    pub reconnect_attempts: u32,
    pub health_failures: u32,
    pub last_known_count: usize,
}

/// What to do after a session ended with an error.
#[derive(Debug, Clone, Copy, PartialEq, Eq, Structural)]
pub enum ReconnectDecision {
    /// Wait this many seconds, then connect again.
    RetryAfter(u32),
    /// Stop and report the error.
    GiveUp,
}

/// The wait before reconnection attempt `n`: five seconds per attempt, at
/// most a minute.
pub open spec fn backoff_seconds(n: int) -> int {
    if 5 * n < 60 {
        5 * n
    } else {
        60
    }
}

impl IdleSupervisor {
    /// A session ended with an error: count the attempt, and give up at the
    /// tenth, or wait before reconnecting.
    pub fn on_session_error(&mut self) -> (r: ReconnectDecision)
        requires
            old(self).reconnect_attempts < MAX_RECONNECT_ATTEMPTS,
        ensures
            final(self).reconnect_attempts == old(self).reconnect_attempts + 1,
            final(self).last_known_count == old(self).last_known_count,
            final(self).reconnect_attempts >= MAX_RECONNECT_ATTEMPTS ==> r == ReconnectDecision::GiveUp,
            final(self).reconnect_attempts < MAX_RECONNECT_ATTEMPTS ==> r == ReconnectDecision::RetryAfter(
                backoff_seconds(final(self).reconnect_attempts as int) as u32,
            ),
    {
        self.reconnect_attempts = self.reconnect_attempts + 1;
        if self.reconnect_attempts >= MAX_RECONNECT_ATTEMPTS {
            ReconnectDecision::GiveUp
        } else {
            let b = if 5 * self.reconnect_attempts < 60 {
                5 * self.reconnect_attempts
            } else {
                60
            };
            ReconnectDecision::RetryAfter(b)
        }
    }

    /// A new connection started its IDLE loop: no health check has failed.
    pub fn on_connected(&mut self)
        ensures
            final(self).health_failures == 0,
            final(self).reconnect_attempts == old(self).reconnect_attempts,
            final(self).last_known_count == old(self).last_known_count,
    {
        self.health_failures = 0;
    }

    /// The server notified a change and the folder now holds `current_count`
    /// messages: fetch new messages when the count changed.
    pub fn on_notification(&mut self, current_count: usize) -> (fetch: bool)
        ensures
            fetch == (current_count != old(self).last_known_count),
            final(self).last_known_count == current_count,
            final(self).health_failures == 0,
            final(self).reconnect_attempts == old(self).reconnect_attempts,
    {
        let fetch = current_count != self.last_known_count;
        self.last_known_count = current_count;
        self.health_failures = 0;
        fetch
    }

    /// The IDLE wait timed out and a health check gave `healthy`: reconnect
    /// after the third failure in a row.
    pub fn on_timeout(&mut self, healthy: bool) -> (reconnect: bool)
        requires
            old(self).health_failures < MAX_HEALTH_CHECK_FAILURES,
        ensures
            healthy ==> final(self).health_failures == 0 && !reconnect,
            !healthy ==> final(self).health_failures == old(self).health_failures + 1 && reconnect == (
            final(self).health_failures >= MAX_HEALTH_CHECK_FAILURES),
            final(self).reconnect_attempts == old(self).reconnect_attempts,
            final(self).last_known_count == old(self).last_known_count,
    {
        if healthy {
            self.health_failures = 0;
            false
        } else {
            self.health_failures = self.health_failures + 1;
            self.health_failures >= MAX_HEALTH_CHECK_FAILURES
        }
    }
}

/// The wait between reconnection attempts never exceeds a minute and never
/// shrinks from one attempt to the next.
pub proof fn law_backoff_bounded_and_growing(n: int, m: int)
    requires
        1 <= n <= m,
    ensures
        5 <= backoff_seconds(n) <= 60,
        backoff_seconds(n) <= backoff_seconds(m),
{
}

} // verus!

verus! {

/// `l` with `e` inserted after every e-mail dated no earlier than `e`.
pub open spec fn insert_by_date(l: Seq<Email>, e: Email) -> Seq<Email>
    decreases l.len(),
{
    if l.len() == 0 {
        seq![e]
    } else if l.last().date >= e.date {
        l.push(e)
    } else {
        insert_by_date(l.drop_last(), e).push(l.last())
    }
}

/// The e-mails newest first, e-mails with the same date keeping their order
/// (a stable sort by descending date).
pub open spec fn newest_first(l: Seq<Email>) -> Seq<Email>
    decreases l.len(),
{
    if l.len() == 0 {
        seq![]
    } else {
        insert_by_date(newest_first(l.drop_last()), l.last())
    }
}

/// Where `insert_by_date` puts `e`.
pub open spec fn date_insert_point(l: Seq<Email>, e: Email) -> int
    decreases l.len(),
{
    if l.len() == 0 {
        0
    } else if l.last().date >= e.date {
        l.len() as int
    } else {
        date_insert_point(l.drop_last(), e)
    }
}

proof fn lemma_insert_by_date(l: Seq<Email>, e: Email)
    ensures
        0 <= date_insert_point(l, e) <= l.len(),
        insert_by_date(l, e) == l.insert(date_insert_point(l, e), e),
    decreases l.len(),
{
    if l.len() == 0 {
        assert(insert_by_date(l, e) =~= l.insert(0, e));
    } else if l.last().date >= e.date {
        assert(insert_by_date(l, e) =~= l.insert(l.len() as int, e));
    } else {
        let d = l.drop_last();
        lemma_insert_by_date(d, e);
        let p = date_insert_point(d, e);
        assert(insert_by_date(l, e) =~= l.insert(p, e));
    }
}

proof fn lemma_date_insert_point_prefix(l: Seq<Email>, e: Email, j: int)
    requires
        0 <= j <= l.len(),
        forall|k: int| j <= k < l.len() ==> l[k].date < e.date,
    ensures
        date_insert_point(l, e) == date_insert_point(l.take(j), e),
    decreases l.len() - j,
{
    if j < l.len() {
        let d = l.drop_last();
        assert forall|k: int| j <= k < d.len() implies d[k].date < e.date by {
            assert(d[k] == l[k]);
        }
        lemma_date_insert_point_prefix(d, e, j);
        assert(d.take(j) =~= l.take(j));
    } else {
        assert(l.take(j) =~= l);
    }
}

/// The e-mails newest first, computed (a stable insertion sort).
pub fn sort_newest_first(emails: Vec<Email>) -> (r: Vec<Email>)
    ensures
        r@ == newest_first(emails@),
{
    let ghost input = emails@;
    let mut rest = emails;
    let mut out: Vec<Email> = Vec::new();
    let ghost mut taken: int = 0;
    proof {
        assert(input.take(0) =~= Seq::<Email>::empty());
        assert(input.skip(0) =~= input);
    }
    while rest.len() > 0
        invariant
            0 <= taken <= input.len(),
            rest@ == input.skip(taken as int),
            out@ == newest_first(input.take(taken as int)),
        decreases rest@.len(),
    {
        let e = rest.remove(0);
        proof {
            assert(e == input[taken as int]);
            assert(input.take(taken + 1).drop_last() =~= input.take(taken as int));
            assert(input.take(taken + 1).last() == e);
            assert(rest@ =~= input.skip(taken + 1));
        }
        let ghost before = out@;
        let mut j: usize = out.len();
        while j > 0 && out[j - 1].date < e.date
            invariant
                out@ == before,
                0 <= j <= before.len(),
                forall|k: int| j <= k < before.len() ==> before[k].date < e.date,
            decreases j,
        {
            j = j - 1;
        }
        proof {
            lemma_date_insert_point_prefix(before, e, j as int);
            lemma_insert_by_date(before, e);
            if j > 0 {
                assert(before.take(j as int).last() == before[j - 1]);
            }
            assert(date_insert_point(before.take(j as int), e) == j);
        }
        out.insert(j, e);
        proof {
            taken = taken + 1;
        }
    }
    proof {
        assert(input.take(taken as int) =~= input);
    }
    out
}

/// The position of the last e-mail of `l` with id `id`, if any.
pub open spec fn find_id(l: Seq<Email>, id: Seq<char>) -> Option<int>
    decreases l.len(),
{
    if l.len() == 0 {
        None
    } else if l.last().id@ == id {
        Some(l.len() - 1)
    } else {
        find_id(l.drop_last(), id)
    }
}

/// `l` with `e` in place of the e-mail with the same id, or added at the end.
pub open spec fn upsert(l: Seq<Email>, e: Email) -> Seq<Email> {
    match find_id(l, e.id@) {
        Some(k) => l.update(k, e),
        None => l.push(e),
    }
}

/// The e-mails of `l` added in order, each replacing an earlier one with the
/// same id.
pub open spec fn upsert_all(acc: Seq<Email>, l: Seq<Email>) -> Seq<Email>
    decreases l.len(),
{
    if l.len() == 0 {
        acc
    } else {
        upsert(upsert_all(acc, l.drop_last()), l.last())
    }
}

/// The cached e-mails and the fetched ones merged by id, a fetched e-mail
/// replacing a cached one, newest first.
pub open spec fn merged(cached: Seq<Email>, new: Seq<Email>) -> Seq<Email> {
    newest_first(upsert_all(seq![], cached + new))
}

proof fn lemma_find_id(l: Seq<Email>, id: Seq<char>)
    ensures
        match find_id(l, id) {
            Some(k) => 0 <= k < l.len() && l[k].id@ == id && forall|j: int| k < j < l.len() ==> l[j].id@ != id,
            None => forall|j: int| 0 <= j < l.len() ==> l[j].id@ != id,
        },
    decreases l.len(),
{
    if l.len() > 0 && l.last().id@ != id {
        let d = l.drop_last();
        lemma_find_id(d, id);
        assert forall|j: int| 0 <= j < d.len() implies l[j] == d[j] by {}
        assert(l[l.len() - 1] == l.last());
    }
}

/// Adds `e`, replacing the e-mail with the same id.
fn upsert_exec(l: &mut Vec<Email>, e: Email)
    ensures
        final(l)@ == upsert(old(l)@, e),
{
    let ghost before = l@;
    let mut j: usize = l.len();
    assert(before.take(j as int) =~= before);
    while j > 0 && !str_eq(l[j - 1].id.as_str(), e.id.as_str())
        invariant
            l@ == before,
            0 <= j <= before.len(),
            find_id(before, e.id@) == find_id(before.take(j as int), e.id@),
        decreases j,
    {
        proof {
            assert(before.take(j as int).drop_last() =~= before.take(j - 1));
        }
        j = j - 1;
    }
    if j > 0 {
        proof {
            assert(before.take(j as int).last() == before[j - 1]);
        }
        l.set(j - 1, e);
    } else {
        proof {
            assert(before.take(0) =~= Seq::<Email>::empty());
        }
        l.push(e);
    }
}

/// The cached e-mails and the fetched ones merged by id, newest first.
pub fn merge_emails(cached: Vec<Email>, new: Vec<Email>) -> (r: Vec<Email>)
    ensures
        r@ == merged(cached@, new@),
{
    let ghost all = cached@ + new@;
    let mut acc: Vec<Email> = Vec::new();
    let mut rest = cached;
    let mut fresh = new;
    let ghost mut n: int = 0;
    proof {
        assert(all.take(0) =~= Seq::<Email>::empty());
        assert(all.skip(0) =~= rest@ + fresh@);
    }
    while rest.len() > 0 || fresh.len() > 0
        invariant
            0 <= n <= all.len(),
            rest@ + fresh@ == all.skip(n as int),
            acc@ == upsert_all(seq![], all.take(n as int)),
        decreases rest@.len() + fresh@.len(),
    {
        let ghost joined = rest@ + fresh@;
        let e = if rest.len() > 0 {
            rest.remove(0)
        } else {
            fresh.remove(0)
        };
        proof {
            assert(joined[0] == e);
            assert(rest@ + fresh@ =~= joined.skip(1));
            assert(all.skip(n as int).skip(1) =~= all.skip(n + 1));
            assert(all.skip(n as int)[0] == e);
            assert(all.take(n + 1).drop_last() =~= all.take(n as int));
            assert(all.take(n + 1).last() == e);
            assert(rest@ + fresh@ =~= all.skip(n + 1));
        }
        upsert_exec(&mut acc, e);
        proof {
            n = n + 1;
        }
    }
    proof {
        assert(all.take(n as int) =~= all);
    }
    sort_newest_first(acc)
}

/// Whether the e-mails are ordered newest first.
pub open spec fn dated_newest_first(l: Seq<Email>) -> bool {
    forall|i: int, j: int| 0 <= i <= j < l.len() ==> #[trigger] l[i].date >= #[trigger] l[j].date
}

/// Whether no two e-mails have the same id.
pub open spec fn ids_unique(l: Seq<Email>) -> bool {
    forall|i: int, j: int| 0 <= i < l.len() && 0 <= j < l.len() && i != j ==> #[trigger] l[i].id@ != #[trigger] l[j].id@
}

proof fn lemma_insert_by_date_sorted(l: Seq<Email>, e: Email)
    requires
        dated_newest_first(l),
    ensures
        dated_newest_first(insert_by_date(l, e)),
    decreases l.len(),
{
    let r = insert_by_date(l, e);
    if l.len() == 0 {
    } else if l.last().date >= e.date {
        assert forall|i: int, j: int| 0 <= i <= j < r.len() implies #[trigger] r[i].date >= #[trigger] r[j].date by {
            if j == l.len() {
                if i < l.len() {
                    assert(l[i].date >= l[l.len() - 1].date);
                }
            } else {
                assert(r[i] == l[i] && r[j] == l[j]);
            }
        }
    } else {
        let d = l.drop_last();
        assert(dated_newest_first(d)) by {
            assert forall|i: int, j: int| 0 <= i <= j < d.len() implies #[trigger] d[i].date >= #[trigger] d[j].date by {
                assert(d[i] == l[i] && d[j] == l[j]);
            }
        }
        lemma_insert_by_date_sorted(d, e);
        lemma_insert_by_date(d, e);
        let m = insert_by_date(d, e);
        let p = date_insert_point(d, e);
        assert forall|i: int| 0 <= i < m.len() implies #[trigger] m[i].date >= l.last().date by {
            if i < p {
                assert(m[i] == d[i] && d[i] == l[i]);
            } else if i > p {
                assert(m[i] == d[i - 1] && d[i - 1] == l[i - 1]);
            }
        }
        assert forall|i: int, j: int| 0 <= i <= j < r.len() implies #[trigger] r[i].date >= #[trigger] r[j].date by {
            if j == m.len() {
                if i < m.len() {
                    assert(r[i] == m[i]);
                }
            } else {
                assert(r[i] == m[i] && r[j] == m[j]);
            }
        }
    }
}

/// `newest_first` is sorted and holds exactly the e-mails it was given.
proof fn lemma_newest_first(l: Seq<Email>)
    ensures
        dated_newest_first(newest_first(l)),
        newest_first(l).len() == l.len(),
        forall|x: Email| newest_first(l).contains(x) <==> l.contains(x),
        ids_unique(l) ==> ids_unique(newest_first(l)),
    decreases l.len(),
{
    if l.len() > 0 {
        let d = l.drop_last();
        let e = l.last();
        lemma_newest_first(d);
        let s = newest_first(d);
        lemma_insert_by_date_sorted(s, e);
        lemma_insert_by_date(s, e);
        let p = date_insert_point(s, e);
        let r = newest_first(l);
        assert(r == s.insert(p, e));
        assert forall|x: Email| r.contains(x) <==> l.contains(x) by {
            if r.contains(x) {
                let i = choose|i: int| 0 <= i < r.len() && r[i] == x;
                if i < p {
                    assert(s.contains(s[i]));
                } else if i > p {
                    assert(s.contains(s[i - 1]));
                } else {
                    assert(l[l.len() - 1] == e);
                }
                if x != e {
                    assert(d.contains(x));
                    let k = choose|k: int| 0 <= k < d.len() && d[k] == x;
                    assert(l[k] == x);
                }
            }
            if l.contains(x) {
                let k = choose|k: int| 0 <= k < l.len() && l[k] == x;
                if k == l.len() - 1 {
                    assert(r[p] == e);
                } else {
                    assert(d[k] == x);
                    assert(d.contains(x));
                    let i = choose|i: int| 0 <= i < s.len() && s[i] == x;
                    if i < p {
                        assert(r[i] == x);
                    } else {
                        assert(r[i + 1] == x);
                    }
                }
            }
        }
        if ids_unique(l) {
            assert(ids_unique(d)) by {
                assert forall|i: int, j: int| 0 <= i < d.len() && 0 <= j < d.len() && i != j implies #[trigger] d[i].id@
                    != #[trigger] d[j].id@ by {
                    assert(d[i] == l[i] && d[j] == l[j]);
                }
            }
            assert forall|i: int| 0 <= i < s.len() implies #[trigger] s[i].id@ != e.id@ by {
                assert(s.contains(s[i]));
                assert(d.contains(s[i]));
                let k = choose|k: int| 0 <= k < d.len() && d[k] == s[i];
                assert(l[k] == d[k]);
                assert(l[l.len() - 1] == e);
            }
            assert(ids_unique(s));
            assert forall|i: int, j: int| 0 <= i < r.len() && 0 <= j < r.len() && i != j implies #[trigger] r[i].id@
                != #[trigger] r[j].id@ by {
                let si = if i < p { i } else { i - 1 };
                let sj = if j < p { j } else { j - 1 };
                if i != p && j != p {
                    assert(r[i] == s[si] && r[j] == s[sj]);
                    assert(s[si].id@ != s[sj].id@);
                } else if i == p {
                    assert(r[i] == e);
                    assert(r[j] == s[sj]);
                    assert(s[sj].id@ != e.id@);
                } else {
                    assert(r[j] == e);
                    assert(r[i] == s[si]);
                    assert(s[si].id@ != e.id@);
                }
            }
        }
    }
}

/// `upsert_all` keeps ids unique, keeps every e-mail of `l` that no later
/// e-mail of `l` replaces, and adds nothing that was not given.
proof fn lemma_upsert_all(acc: Seq<Email>, l: Seq<Email>)
    requires
        ids_unique(acc),
    ensures
        ids_unique(upsert_all(acc, l)),
        forall|j: int|
            0 <= j < l.len() && (forall|k: int| j < k < l.len() ==> l[k].id@ != l[j].id@) ==> upsert_all(
                acc,
                l,
            ).contains(#[trigger] l[j]),
        forall|x: Email| #[trigger] upsert_all(acc, l).contains(x) ==> acc.contains(x) || l.contains(x),
        forall|j: int|
            #![trigger l[j]]
            0 <= j < l.len() ==> exists|i: int|
                #![trigger upsert_all(acc, l)[i]]
                0 <= i < upsert_all(acc, l).len() && upsert_all(acc, l)[i].id@ == l[j].id@,
    decreases l.len(),
{
    if l.len() > 0 {
        let d = l.drop_last();
        let e = l.last();
        lemma_upsert_all(acc, d);
        let m = upsert_all(acc, d);
        let r = upsert_all(acc, l);
        lemma_find_id(m, e.id@);
        assert(r == upsert(m, e));
        assert(l[l.len() - 1] == e);
        match find_id(m, e.id@) {
            Some(k) => {
                assert(r == m.update(k, e));
                assert(r[k] == e);
                assert forall|i: int, j: int| 0 <= i < r.len() && 0 <= j < r.len() && i != j implies #[trigger] r[i].id@
                    != #[trigger] r[j].id@ by {
                    if i == k {
                        assert(r[j] == m[j]);
                    } else if j == k {
                        assert(r[i] == m[i]);
                    } else {
                        assert(r[i] == m[i] && r[j] == m[j]);
                    }
                }
                assert forall|j: int|
                    0 <= j < l.len() && (forall|q: int| j < q < l.len() ==> l[q].id@ != l[j].id@) implies r.contains(
                    #[trigger] l[j],
                ) by {
                    if j == l.len() - 1 {
                        assert(r[k] == l[j]);
                    } else {
                        assert(d[j] == l[j]);
                        assert forall|q: int| j < q < d.len() implies d[q].id@ != d[j].id@ by {
                            assert(d[q] == l[q]);
                        }
                        assert(m.contains(d[j]));
                        let i = choose|i: int| 0 <= i < m.len() && m[i] == d[j];
                        assert(l[l.len() - 1].id@ != l[j].id@);
                        assert(i != k);
                        assert(r[i] == l[j]);
                    }
                }
                assert forall|x: Email| #[trigger] r.contains(x) implies acc.contains(x) || l.contains(x) by {
                    let i = choose|i: int| 0 <= i < r.len() && r[i] == x;
                    if i == k {
                        assert(l[l.len() - 1] == x);
                    } else {
                        assert(m[i] == x);
                        assert(m.contains(x));
                        if d.contains(x) {
                            let q = choose|q: int| 0 <= q < d.len() && d[q] == x;
                            assert(l[q] == x);
                        }
                    }
                }
                assert forall|j: int| #![trigger l[j]] 0 <= j < l.len() implies exists|i: int|
                    #![trigger r[i]]
                    0 <= i < r.len() && r[i].id@ == l[j].id@ by {
                    if j == l.len() - 1 {
                        assert(r[k].id@ == l[j].id@);
                    } else {
                        assert(d[j] == l[j]);
                        let i = choose|i: int| #![trigger m[i]] 0 <= i < m.len() && m[i].id@ == d[j].id@;
                        if i == k {
                            assert(r[k].id@ == l[j].id@);
                        } else {
                            assert(r[i] == m[i]);
                        }
                    }
                }
            },
            None => {
                assert(r == m.push(e));
                assert forall|i: int, j: int| 0 <= i < r.len() && 0 <= j < r.len() && i != j implies #[trigger] r[i].id@
                    != #[trigger] r[j].id@ by {
                    if i < m.len() && j < m.len() {
                        assert(r[i] == m[i] && r[j] == m[j]);
                    } else if i < m.len() {
                        assert(r[i] == m[i]);
                    } else {
                        assert(r[j] == m[j]);
                    }
                }
                assert forall|j: int|
                    0 <= j < l.len() && (forall|q: int| j < q < l.len() ==> l[q].id@ != l[j].id@) implies r.contains(
                    #[trigger] l[j],
                ) by {
                    if j == l.len() - 1 {
                        assert(r[m.len() as int] == l[j]);
                    } else {
                        assert(d[j] == l[j]);
                        assert forall|q: int| j < q < d.len() implies d[q].id@ != d[j].id@ by {
                            assert(d[q] == l[q]);
                        }
                        assert(m.contains(d[j]));
                        let i = choose|i: int| 0 <= i < m.len() && m[i] == d[j];
                        assert(r[i] == l[j]);
                    }
                }
                assert forall|x: Email| #[trigger] r.contains(x) implies acc.contains(x) || l.contains(x) by {
                    let i = choose|i: int| 0 <= i < r.len() && r[i] == x;
                    if i == m.len() {
                        assert(l[l.len() - 1] == x);
                    } else {
                        assert(m[i] == x);
                        assert(m.contains(x));
                        if d.contains(x) {
                            let q = choose|q: int| 0 <= q < d.len() && d[q] == x;
                            assert(l[q] == x);
                        }
                    }
                }
                assert forall|j: int| #![trigger l[j]] 0 <= j < l.len() implies exists|i: int|
                    #![trigger r[i]]
                    0 <= i < r.len() && r[i].id@ == l[j].id@ by {
                    if j == l.len() - 1 {
                        assert(r[m.len() as int].id@ == l[j].id@);
                    } else {
                        assert(d[j] == l[j]);
                        let i = choose|i: int| #![trigger m[i]] 0 <= i < m.len() && m[i].id@ == d[j].id@;
                        assert(r[i] == m[i]);
                    }
                }
            },
        }
    }
}

/// A merge of cached and fetched e-mails is ordered newest first and holds
/// each id once: every cached id is there, every e-mail in it was cached or
/// fetched, each fetched e-mail is there unless a later fetched e-mail has
/// its id, and a cached e-mail whose id nothing fetched has is there unless
/// a later cached e-mail has its id.
pub proof fn law_merge_newest_first_unique(cached: Seq<Email>, new: Seq<Email>)
    ensures
        dated_newest_first(merged(cached, new)),
        ids_unique(merged(cached, new)),
        forall|x: Email| #[trigger] merged(cached, new).contains(x) ==> cached.contains(x) || new.contains(x),
        forall|j: int|
            0 <= j < new.len() && (forall|k: int| j < k < new.len() ==> new[k].id@ != new[j].id@) ==> merged(
                cached,
                new,
            ).contains(#[trigger] new[j]),
        forall|j: int|
            #![trigger cached[j]]
            0 <= j < cached.len() ==> exists|i: int|
                #![trigger merged(cached, new)[i]]
                0 <= i < merged(cached, new).len() && merged(cached, new)[i].id@ == cached[j].id@,
        forall|j: int|
            0 <= j < cached.len() && (forall|k: int| j < k < cached.len() ==> cached[k].id@ != cached[j].id@) && (
            forall|k: int| 0 <= k < new.len() ==> new[k].id@ != cached[j].id@) ==> merged(cached, new).contains(
                #[trigger] cached[j],
            ),
{
    let all = cached + new;
    let e = Seq::<Email>::empty();
    lemma_upsert_all(e, all);
    let u = upsert_all(e, all);
    lemma_newest_first(u);
    assert forall|j: int|
        0 <= j < cached.len() && (forall|k: int| j < k < cached.len() ==> cached[k].id@ != cached[j].id@) && (
        forall|k: int| 0 <= k < new.len() ==> new[k].id@ != cached[j].id@) implies merged(cached, new).contains(
            #[trigger] cached[j],
        ) by {
        assert(all[j] == cached[j]);
        assert forall|k: int| j < k < all.len() implies all[k].id@ != all[j].id@ by {
            if k < cached.len() {
                assert(all[k] == cached[k]);
            } else {
                assert(all[k] == new[k - cached.len()]);
            }
        }
        assert(u.contains(all[j]));
    }
    let r = merged(cached, new);
    assert forall|x: Email| #[trigger] r.contains(x) implies cached.contains(x) || new.contains(x) by {
        assert(u.contains(x));
        assert(all.contains(x));
        let q = choose|q: int| 0 <= q < all.len() && all[q] == x;
        if q < cached.len() {
            assert(cached[q] == x);
        } else {
            assert(new[q - cached.len()] == x);
        }
    }
    assert forall|j: int|
        0 <= j < new.len() && (forall|k: int| j < k < new.len() ==> new[k].id@ != new[j].id@) implies r.contains(
        #[trigger] new[j],
    ) by {
        let q = j + cached.len();
        assert(all[q] == new[j]);
        assert forall|k: int| q < k < all.len() implies all[k].id@ != all[q].id@ by {
            assert(all[k] == new[k - cached.len()]);
        }
        assert(u.contains(all[q]));
    }
    assert forall|j: int| #![trigger cached[j]] 0 <= j < cached.len() implies exists|i: int|
        #![trigger r[i]]
        0 <= i < r.len() && r[i].id@ == cached[j].id@ by {
        assert(all[j] == cached[j]);
        let i = choose|i: int| #![trigger u[i]] 0 <= i < u.len() && u[i].id@ == all[j].id@;
        assert(u.contains(u[i]));
        assert(r.contains(u[i]));
        let i2 = choose|i2: int| 0 <= i2 < r.len() && r[i2] == u[i];
        assert(r[i2].id@ == cached[j].id@);
    }
}

/// How many e-mails are shown of `total`: all when the limit is 0,
/// otherwise the limit raised to at least 100, at most `total`.
pub open spec fn shown_count(limit: int, total: int) -> int {
    let cap = if limit == 0 {
        total
    } else if limit > 100 {
        limit
    } else {
        100
    };
    if cap < total {
        cap
    } else {
        total
    }
}

/// What a folder fetch returns: the merged e-mails, as many as shown, when
/// the server answered; otherwise the cached e-mails, or the server's error
/// when there are none.
pub fn finish_fetch(cached: Vec<Email>, fetched: Result<Vec<Email>, EmailError>, limit: usize) -> (r: Result<Vec<Email>, EmailError>)
    ensures
        match fetched {
            Ok(new) => r matches Ok(v) && v@ == merged(cached@, new@).take(
                shown_count(limit as int, merged(cached@, new@).len() as int),
            ),
            Err(e) => if cached@.len() > 0 {
                r matches Ok(v) && v@ == cached@
            } else {
                r matches Err(f) && f == e
            },
        },
{
    match fetched {
        Ok(new) => {
            let mut all = merge_emails(cached, new);
            let total = all.len();
            let cap = if limit == 0 {
                total
            } else if limit > 100 {
                limit
            } else {
                100
            };
            let count = if cap < total {
                cap
            } else {
                total
            };
            all.truncate(count);
            Ok(all)
        },
        Err(e) => {
            if cached.len() > 0 {
                Ok(cached)
            } else {
                Err(e)
            }
        },
    }
}

/// A message as the IMAP server returned it: its UID, its flags and its raw
/// body, when present.
#[derive(Debug, Clone)]
pub struct FetchedMessage {
    pub uid: Option<u32>,
    pub flags: Vec<String>,
    pub body: Option<Vec<u8>>,
}

/// A copy of a list of strings.
fn copy_strings(v: &Vec<String>) -> (r: Vec<String>)
    ensures
        string_views(r@) == string_views(v@),
{
    let mut r: Vec<String> = Vec::new();
    let mut i: usize = 0;
    while i < v.len()
        invariant
            0 <= i <= v@.len(),
            string_views(r@) == string_views(v@).take(i as int),
        decreases v@.len() - i,
    {
        let ghost before = r@;
        r.push(v[i].clone());
        proof {
            assert(string_views(r@) =~= string_views(before).push(v@[i as int]@));
            assert(string_views(v@).take(i + 1) =~= string_views(v@).take(i as int).push(v@[i as int]@));
        }
        i = i + 1;
    }
    proof {
        assert(string_views(v@).take(i as int) =~= string_views(v@));
    }
    r
}

/// Whether an e-mail is what a fetched message gives in a folder: a
/// message with a body and a non-zero UID, read by the MIME parser, with the
/// UID in decimal as its id.
pub open spec fn email_of_fetched(e: Email, m: FetchedMessage, folder: Seq<char>) -> bool {
    &&& m.body is Some
    &&& m.uid matches Some(u) && u > 0
    &&& crate::mime_parser::mime_structure(m.body->0@) matches Some(p)
    &&& message_addresses_ok(p)
    &&& email_matches_parsed(e, p, decimal(m.uid->0 as nat), folder, string_views(m.flags@))
    &&& dated_as_parsed(e, p)
}

/// Whether a fetched message gives an e-mail: it has a body and a non-zero
/// UID, and the MIME parser reads the body into a message whose addresses
/// can be read.
pub open spec fn gives_email(m: FetchedMessage) -> bool {
    &&& m.body is Some
    &&& m.uid matches Some(u) && u > 0
    &&& crate::mime_parser::mime_structure(m.body->0@) matches Some(p)
    &&& message_addresses_ok(p)
}

/// The fetched messages that give e-mails, in order.
pub open spec fn readable_messages(ms: Seq<FetchedMessage>) -> Seq<FetchedMessage>
    decreases ms.len(),
{
    if ms.len() == 0 {
        seq![]
    } else if gives_email(ms.last()) {
        readable_messages(ms.drop_last()).push(ms.last())
    } else {
        readable_messages(ms.drop_last())
    }
}

/// The e-mails of fetched messages, newest first: one for each message that
/// gives one; messages without a body, without a UID or with UID 0, or that
/// cannot be read, are skipped.
pub fn parse_messages(messages: &[FetchedMessage], folder: &str) -> (r: Vec<Email>)
    ensures
        exists|parsed: Seq<Email>|
            #![trigger newest_first(parsed)]
            r@ == newest_first(parsed) && parsed.len() == readable_messages(messages@).len() && (forall|k: int|
                0 <= k < parsed.len() ==> #[trigger] email_of_fetched(
                    parsed[k],
                    readable_messages(messages@)[k],
                    folder@,
                )),
{
    let mut emails: Vec<Email> = Vec::new();
    let mut i: usize = 0;
    proof {
        assert(messages@.take(0) =~= Seq::<FetchedMessage>::empty());
    }
    while i < messages.len()
        invariant
            0 <= i <= messages@.len(),
            emails@.len() == readable_messages(messages@.take(i as int)).len(),
            forall|k: int|
                0 <= k < emails@.len() ==> #[trigger] email_of_fetched(
                    emails@[k],
                    readable_messages(messages@.take(i as int))[k],
                    folder@,
                ),
        decreases messages@.len() - i,
    {
        let m = &messages[i];
        let ghost prefix = messages@.take(i as int);
        let ghost next = messages@.take(i + 1);
        proof {
            assert(next.drop_last() =~= prefix);
            assert(next.last() == messages@[i as int]);
        }
        match (&m.body, m.uid) {
            (Some(body), Some(uid)) => {
                if uid > 0 {
                    let id = decimal_string(uid as u128);
                    let flags = copy_strings(&m.flags);
                    match Email::from_raw_message(body.as_slice(), id.as_str(), folder, flags) {
                        Some(e) => {
                            proof {
                                assert(gives_email(messages@[i as int]));
                                assert(email_of_fetched(e, messages@[i as int], folder@));
                            }
                            let ghost before = emails@;
                            emails.push(e);
                            proof {
                                assert forall|k: int| 0 <= k < emails@.len() implies #[trigger] email_of_fetched(
                                    emails@[k],
                                    readable_messages(next)[k],
                                    folder@,
                                ) by {
                                    if k < before.len() {
                                        assert(emails@[k] == before[k]);
                                    }
                                }
                            }
                        },
                        None => {
                            proof {
                                assert(!gives_email(messages@[i as int]));
                            }
                        },
                    }
                }
            },
            _ => {},
        }
        i = i + 1;
    }
    proof {
        assert(messages@.take(i as int) =~= messages@);
    }
    let ghost parsed = emails@;
    let r = sort_newest_first(emails);
    proof {
        assert(r@ == newest_first(parsed));
    }
    r
}


/// The id a message fetched after a UID gets: its UID in decimal, `0` when
/// the server sent none.
pub open spec fn since_uid_id(m: FetchedMessage) -> Seq<char> {
    match m.uid {
        Some(u) => decimal(u as nat),
        None => decimal(0),
    }
}

/// Whether a message fetched after a UID gives an e-mail: it has a body
/// that the MIME parser reads into a message whose addresses can be read.
pub open spec fn gives_email_since_uid(m: FetchedMessage) -> bool {
    &&& m.body is Some
    &&& crate::mime_parser::mime_structure(m.body->0@) matches Some(p)
    &&& message_addresses_ok(p)
}

/// Whether `e` is what a message fetched after a UID gives in `folder`.
pub open spec fn email_of_since_uid(e: Email, m: FetchedMessage, folder: Seq<char>) -> bool {
    &&& gives_email_since_uid(m)
    &&& email_matches_parsed(
        e,
        crate::mime_parser::mime_structure(m.body->0@)->0,
        since_uid_id(m),
        folder,
        string_views(m.flags@),
    )
    &&& dated_as_parsed(e, crate::mime_parser::mime_structure(m.body->0@)->0)
}

/// The messages fetched after a UID that give e-mails, in order.
pub open spec fn readable_since_uid(ms: Seq<FetchedMessage>) -> Seq<FetchedMessage>
    decreases ms.len(),
{
    if ms.len() == 0 {
        seq![]
    } else if gives_email_since_uid(ms.last()) {
        readable_since_uid(ms.drop_last()).push(ms.last())
    } else {
        readable_since_uid(ms.drop_last())
    }
}

/// The e-mails of messages fetched after a UID, in the order the server
/// sent them: one for each message with a readable body, its id the UID
/// (`0` when the server sent none).
pub fn parse_messages_since_uid(messages: &[FetchedMessage], folder: &str) -> (r: Vec<Email>)
    ensures
        r@.len() == readable_since_uid(messages@).len(),
        forall|k: int|
            0 <= k < r@.len() ==> #[trigger] email_of_since_uid(r@[k], readable_since_uid(messages@)[k], folder@),
{
    let mut emails: Vec<Email> = Vec::new();
    let mut i: usize = 0;
    proof {
        assert(messages@.take(0) =~= Seq::<FetchedMessage>::empty());
    }
    while i < messages.len()
        invariant
            0 <= i <= messages@.len(),
            emails@.len() == readable_since_uid(messages@.take(i as int)).len(),
            forall|k: int|
                0 <= k < emails@.len() ==> #[trigger] email_of_since_uid(
                    emails@[k],
                    readable_since_uid(messages@.take(i as int))[k],
                    folder@,
                ),
        decreases messages@.len() - i,
    {
        let m = &messages[i];
        let ghost prefix = messages@.take(i as int);
        let ghost next = messages@.take(i + 1);
        proof {
            assert(next.drop_last() =~= prefix);
            assert(next.last() == messages@[i as int]);
        }
        match &m.body {
            Some(body) => {
                let uid: u32 = match m.uid {
                    Some(u) => u,
                    None => 0,
                };
                let id = decimal_string(uid as u128);
                let flags = copy_strings(&m.flags);
                match Email::from_raw_message(body.as_slice(), id.as_str(), folder, flags) {
                    Some(e) => {
                        proof {
                            assert(gives_email_since_uid(messages@[i as int]));
                            assert(email_of_since_uid(e, messages@[i as int], folder@));
                        }
                        let ghost before = emails@;
                        emails.push(e);
                        proof {
                            assert forall|k: int| 0 <= k < emails@.len() implies #[trigger] email_of_since_uid(
                                emails@[k],
                                readable_since_uid(next)[k],
                                folder@,
                            ) by {
                                if k < before.len() {
                                    assert(emails@[k] == before[k]);
                                }
                            }
                        }
                    },
                    None => {
                        proof {
                            assert(!gives_email_since_uid(messages@[i as int]));
                        }
                    },
                }
            },
            None => {},
        }
        i = i + 1;
    }
    proof {
        assert(messages@.take(i as int) =~= messages@);
    }
    emails
}

} // verus!

verus! {

/// What is known of a folder between synchronisations.
#[derive(Debug, Clone)]
pub struct FolderMetadata {
    pub last_uid: u32,
    pub total_messages: u32,
    /// Seconds since the Unix epoch.
    pub last_sync: i64,
    /// The UIDs downloaded so far, each once.
    pub downloaded_uids: Vec<u32>,
}

/// How many messages a batch of the first synchronisation fetches.
pub const BATCH_SIZE: u32 = 500;

/// What a synchronisation of a folder fetches.
#[derive(Debug, Clone)]
pub enum SyncPlan {
    /// The folder was never synchronised and is empty: nothing.
    EmptyFolder,
    /// The folder was never synchronised: all messages, by these ranges of
    /// sequence numbers.
    Initial(Vec<(u32, u32)>),
    /// The folder holds no more messages than last time: nothing.
    UpToDate,
    /// The messages from this UID on.
    SinceUid(u32),
}

/// The batches that cover sequence numbers `from` to `total`: ranges of at
/// most 500, in order.
pub open spec fn batches_from(from: int, total: int) -> Seq<(u32, u32)>
    decreases total - from + 1,
{
    if from > total || from < 1 {
        seq![]
    } else {
        let end = if from + 499 < total { from + 499 } else { total };
        seq![(from as u32, end as u32)] + batches_from(end + 1, total)
    }
}

impl FolderMetadata {
    /// A folder never synchronised, as of `now`.
    pub fn new(now: i64) -> (r: FolderMetadata)
        ensures
            r.last_uid == 0,
            r.total_messages == 0,
            r.last_sync == now,
            r.downloaded_uids@.len() == 0,
    {
        FolderMetadata { last_uid: 0, total_messages: 0, last_sync: now, downloaded_uids: Vec::new() }
    }

    /// Metadata read back from storage: the downloaded UIDs are kept once
    /// each, in the order of their first occurrence.
    pub fn restore(last_uid: u32, total_messages: u32, last_sync: i64, uids: &[u32]) -> (r: FolderMetadata)
        ensures
            r.last_uid == last_uid,
            r.total_messages == total_messages,
            r.last_sync == last_sync,
            r.downloaded_uids@.no_duplicates(),
            forall|u: u32| r.downloaded_uids@.contains(u) <==> uids@.contains(u),
    {
        let mut kept: Vec<u32> = Vec::new();
        let mut i: usize = 0;
        while i < uids.len()
            invariant
                0 <= i <= uids@.len(),
                kept@.no_duplicates(),
                forall|u: u32| kept@.contains(u) <==> uids@.take(i as int).contains(u),
            decreases uids@.len() - i,
        {
            let u = uids[i];
            let mut seen = false;
            let mut k: usize = 0;
            while k < kept.len()
                invariant
                    0 <= k <= kept@.len(),
                    seen <==> exists|j: int| 0 <= j < k && kept@[j] == u,
                decreases kept@.len() - k,
            {
                if kept[k] == u {
                    seen = true;
                }
                k = k + 1;
            }
            let ghost prev = uids@.take(i as int);
            let ghost next = uids@.take(i + 1);
            proof {
                assert(next =~= prev.push(u));
                assert forall|a: u32| next.contains(a) <==> (prev.contains(a) || a == u) by {
                    if next.contains(a) {
                        let j = choose|j: int| 0 <= j < next.len() && next[j] == a;
                        if j < prev.len() {
                            assert(prev[j] == a);
                        }
                    }
                    if prev.contains(a) {
                        let j = choose|j: int| 0 <= j < prev.len() && prev[j] == a;
                        assert(next[j] == a);
                    }
                    if a == u {
                        assert(next[i as int] == a);
                    }
                }
                assert(seen <==> kept@.contains(u));
                assert forall|a: u32| kept@.contains(a) <==> prev.contains(a) by {}
            }
            if !seen {
                let ghost before = kept@;
                kept.push(u);
                proof {
                    assert forall|a: u32| kept@.contains(a) <==> (before.contains(a) || a == u) by {
                        if kept@.contains(a) {
                            let j = choose|j: int| 0 <= j < kept@.len() && kept@[j] == a;
                            if j < before.len() {
                                assert(before[j] == a);
                            }
                        }
                        if before.contains(a) {
                            let j = choose|j: int| 0 <= j < before.len() && before[j] == a;
                            assert(kept@[j] == a);
                        }
                        if a == u {
                            assert(kept@[before.len() as int] == a);
                        }
                    }
                    assert(kept@.no_duplicates()) by {
                        assert forall|a: int, b: int| 0 <= a < kept@.len() && 0 <= b < kept@.len() && a != b implies kept@[a]
                            != kept@[b] by {
                            if a < before.len() && b < before.len() {
                                assert(kept@[a] == before[a] && kept@[b] == before[b]);
                            } else if a < before.len() {
                                assert(kept@[a] == before[a]);
                                assert(before.contains(before[a]));
                            } else {
                                assert(kept@[b] == before[b]);
                                assert(before.contains(before[b]));
                            }
                        }
                    }
                    assert forall|a: u32| kept@.contains(a) <==> next.contains(a) by {
                        assert(before.contains(a) <==> prev.contains(a));
                    }
                }
            } else {
                proof {
                    assert forall|a: u32| kept@.contains(a) <==> next.contains(a) by {
                        assert(kept@.contains(a) <==> prev.contains(a));
                    }
                }
            }
            i = i + 1;
        }
        proof {
            assert(uids@.take(i as int) =~= uids@);
        }
        FolderMetadata { last_uid, total_messages, last_sync, downloaded_uids: kept }
    }

    /// What to fetch from a folder that now holds `current_total` messages:
    /// everything, in batches, the first time; afterwards nothing unless the
    /// folder grew, and then the messages after the last UID seen.
    pub fn plan_sync(&self, current_total: u32) -> (r: SyncPlan)
        requires
            self.last_uid < u32::MAX,
            current_total <= u32::MAX - BATCH_SIZE,
        ensures
            self.last_uid == 0 && current_total == 0 ==> r is EmptyFolder,
            self.last_uid == 0 && current_total > 0 ==> (r matches SyncPlan::Initial(b) && b@ == batches_from(
                1,
                current_total as int,
            )),
            self.last_uid > 0 && current_total <= self.total_messages ==> r is UpToDate,
            self.last_uid > 0 && current_total > self.total_messages ==> r == SyncPlan::SinceUid(
                (self.last_uid + 1) as u32,
            ),
            (r is EmptyFolder || r is UpToDate) <==> ((self.last_uid == 0 && current_total == 0) || (self.last_uid
                != 0 && current_total <= self.total_messages)),
    {
        if self.last_uid == 0 {
            if current_total == 0 {
                return SyncPlan::EmptyFolder;
            }
            let mut batches: Vec<(u32, u32)> = Vec::new();
            let mut seq_no: u32 = 1;
            proof {
                assert(batches@ + batches_from(1, current_total as int) =~= batches_from(1, current_total as int));
            }
            while seq_no <= current_total
                invariant
                    1 <= seq_no <= current_total + 1,
                    current_total <= u32::MAX - BATCH_SIZE,
                    batches@ + batches_from(seq_no as int, current_total as int) == batches_from(1, current_total as int),
                decreases current_total + 1 - seq_no,
            {
                let end = if seq_no + BATCH_SIZE - 1 < current_total {
                    seq_no + BATCH_SIZE - 1
                } else {
                    current_total
                };
                let ghost before = batches@;
                batches.push((seq_no, end));
                proof {
                    assert(batches_from(seq_no as int, current_total as int) == seq![(seq_no, end)] + batches_from(end + 1, current_total as int));
                    assert(batches@ + batches_from(end + 1, current_total as int) =~= before + batches_from(seq_no as int, current_total as int));
                }
                seq_no = end + 1;
            }
            proof {
                assert(batches_from(seq_no as int, current_total as int) =~= Seq::<(u32, u32)>::empty());
                assert(batches@ + Seq::<(u32, u32)>::empty() =~= batches@);
            }
            return SyncPlan::Initial(batches);
        }
        if current_total <= self.total_messages {
            SyncPlan::UpToDate
        } else {
            SyncPlan::SinceUid(self.last_uid + 1)
        }
    }

    /// Notes the UIDs of fetched messages and the folder's message count: each
    /// UID is remembered once, and the last UID is the largest seen.
    pub fn record_fetched(&mut self, uids: &[Option<u32>], current_total: u32)
        requires
            old(self).downloaded_uids@.no_duplicates(),
        ensures
            final(self).downloaded_uids@.no_duplicates(),
            final(self).total_messages == current_total,
            final(self).last_sync == old(self).last_sync,
            forall|u: u32| #[trigger] uids@.contains(Some(u)) ==> final(self).downloaded_uids@.contains(u) && u <= final(self).last_uid,
            forall|u: u32| #[trigger] final(self).downloaded_uids@.contains(u) ==> old(self).downloaded_uids@.contains(u) || uids@.contains(Some(u)),
            final(self).last_uid >= old(self).last_uid,
            final(self).last_uid == old(self).last_uid || uids@.contains(Some(final(self).last_uid)),
            forall|u: u32| #[trigger] old(self).downloaded_uids@.contains(u) ==> final(self).downloaded_uids@.contains(u),
    {
        let mut i: usize = 0;
        while i < uids.len()
            invariant
                0 <= i <= uids@.len(),
                self.downloaded_uids@.no_duplicates(),
                self.last_sync == old(self).last_sync,
                forall|u: u32| #[trigger] uids@.take(i as int).contains(Some(u)) ==> self.downloaded_uids@.contains(u) && u <= self.last_uid,
                forall|u: u32| #[trigger] self.downloaded_uids@.contains(u) ==> old(self).downloaded_uids@.contains(u) || uids@.contains(Some(u)),
                self.last_uid >= old(self).last_uid,
                self.last_uid == old(self).last_uid || uids@.contains(Some(self.last_uid)),
                forall|u: u32| #[trigger] old(self).downloaded_uids@.contains(u) ==> self.downloaded_uids@.contains(u),
            decreases uids@.len() - i,
        {
            let ghost dl0 = self.downloaded_uids@;
            let ghost last0 = self.last_uid;
            match uids[i] {
                Some(uid) => {
                    proof {
                        assert(uids@[i as int] == Some(uid));
                    }
                    let mut present = false;
                    let mut k: usize = 0;
                    while k < self.downloaded_uids.len()
                        invariant
                            0 <= k <= self.downloaded_uids@.len(),
                            present == self.downloaded_uids@.take(k as int).contains(uid),
                        decreases self.downloaded_uids@.len() - k,
                    {
                        proof {
                            let t = self.downloaded_uids@.take(k + 1);
                            assert(t =~= self.downloaded_uids@.take(k as int).push(self.downloaded_uids@[k as int]));
                            if self.downloaded_uids@.take(k as int).contains(uid) {
                                let j = choose|j: int| 0 <= j < k && self.downloaded_uids@.take(k as int)[j] == uid;
                                assert(t[j] == uid);
                            }
                            if self.downloaded_uids@[k as int] == uid {
                                assert(t[k as int] == uid);
                            }
                        }
                        if self.downloaded_uids[k] == uid {
                            present = true;
                        }
                        k = k + 1;
                    }
                    proof {
                        assert(self.downloaded_uids@.take(k as int) =~= self.downloaded_uids@);
                    }
                    if !present {
                        let ghost before = self.downloaded_uids@;
                        self.downloaded_uids.push(uid);
                        proof {
                            assert forall|a: int, b: int| 0 <= a < b < self.downloaded_uids@.len() implies self.downloaded_uids@[a] != self.downloaded_uids@[b] by {
                                if b == before.len() {
                                    assert(before.contains(before[a]));
                                } else {
                                    assert(before[a] != before[b]);
                                }
                            }
                            assert(self.downloaded_uids@[before.len() as int] == uid);
                            assert forall|u: u32| #[trigger] self.downloaded_uids@.contains(u) implies before.contains(u) || u == uid by {
                                let j = choose|j: int| 0 <= j < self.downloaded_uids@.len() && self.downloaded_uids@[j] == u;
                                if j < before.len() {
                                    assert(before[j] == u);
                                }
                            }
                            assert forall|q: int| 0 <= q < before.len() implies #[trigger] self.downloaded_uids@.contains(before[q]) by {
                                assert(self.downloaded_uids@[q] == before[q]);
                            }
                        }
                    }
                    if uid > self.last_uid {
                        self.last_uid = uid;
                    }
                    proof {
                        assert(self.downloaded_uids@.contains(uid));
                        assert forall|x: u32| dl0.contains(x) implies #[trigger] self.downloaded_uids@.contains(x) by {
                            let q = choose|q: int| 0 <= q < dl0.len() && dl0[q] == x;
                            if !present {
                                assert(self.downloaded_uids@[q] == x);
                            }
                        }
                        assert forall|u: u32| #[trigger] uids@.take(i + 1).contains(Some(u)) implies self.downloaded_uids@.contains(u) && u <= self.last_uid by {
                            let k = choose|k: int| 0 <= k < i + 1 && #[trigger] uids@.take(i + 1)[k] == Some(u);
                            if k < i {
                                assert(uids@.take(i as int)[k] == Some(u));
                                assert(uids@.take(i as int).contains(Some(u)));
                                assert(dl0.contains(u));
                                assert(u <= last0);
                            } else {
                                assert(uids@[i as int] == Some(u));
                                assert(u == uid);
                            }
                        }
                    }
                },
                None => {
                    proof {
                        assert(uids@[i as int] is None);
                        assert forall|u: u32| #[trigger] uids@.take(i + 1).contains(Some(u)) implies self.downloaded_uids@.contains(u) && u <= self.last_uid by {
                            let k = choose|k: int| 0 <= k < i + 1 && #[trigger] uids@.take(i + 1)[k] == Some(u);
                            if k < i {
                                assert(uids@.take(i as int)[k] == Some(u));
                                assert(uids@.take(i as int).contains(Some(u)));
                            } else {
                                assert(uids@[i as int] == Some(u));
                            }
                        }
                    }
                },
            }
            i = i + 1;
        }
        proof {
            assert(uids@.take(i as int) =~= uids@);
        }
        self.total_messages = current_total;
    }
}

/// The text of a range of sequence numbers or UIDs, `a:b`.
pub fn sequence_set(a: u32, b: u32) -> (r: String)
    ensures
        r@ == decimal(a as nat) + ":"@ + decimal(b as nat),
{
    let mut r = decimal_string(a as u128);
    r.append(":");
    let t = decimal_string(b as u128);
    r.append(t.as_str());
    r
}

/// The text of the UIDs from `a` on, `a:*`.
pub fn open_sequence_set(a: u32) -> (r: String)
    ensures
        r@ == decimal(a as nat) + ":*"@,
{
    let mut r = decimal_string(a as u128);
    r.append(":*");
    r
}

/// The UIDs written out and separated by commas.
pub open spec fn uid_list(uids: Seq<u32>) -> Seq<char>
    decreases uids.len(),
{
    if uids.len() == 0 {
        seq![]
    } else if uids.len() == 1 {
        decimal(uids[0] as nat)
    } else {
        uid_list(uids.drop_last()) + ","@ + decimal(uids.last() as nat)
    }
}

/// The text of a list of UIDs, `a,b,c`, in the order given.
pub fn uid_list_exec(uids: &[u32]) -> (r: String)
    ensures
        r@ == uid_list(uids@),
{
    let mut r = String::new();
    let mut i: usize = 0;
    proof {
        reveal_strlit(",");
        assert(uids@.take(0) =~= Seq::<u32>::empty());
    }
    while i < uids.len()
        invariant
            0 <= i <= uids@.len(),
            r@ == uid_list(uids@.take(i as int)),
        decreases uids@.len() - i,
    {
        if i > 0 {
            r.append(",");
        }
        let d = decimal_string(uids[i] as u128);
        r.append(d.as_str());
        proof {
            let t = uids@.take(i + 1);
            assert(t.drop_last() =~= uids@.take(i as int));
            assert(t.last() == uids@[i as int]);
            if i == 0 {
                assert(uids@.take(0) =~= Seq::<u32>::empty());
                assert(r@ =~= decimal(uids@[0] as nat));
            } else {
                assert(r@ =~= uid_list(uids@.take(i as int)) + ","@ + decimal(uids@[i as int] as nat));
            }
        }
        i = i + 1;
    }
    proof {
        assert(uids@.take(i as int) =~= uids@);
    }
    r
}

/// How many times marking a message read is attempted.
pub const MARK_READ_ATTEMPTS: u32 = 3;

/// The wait between two such attempts, in milliseconds.
pub const MARK_READ_RETRY_MS: u64 = 500;

/// Whether an e-mail id can name a message in a STORE command: it is
/// neither empty nor `0`.
pub open spec fn valid_store_id(id: Seq<char>) -> bool {
    id.len() > 0 && id != "0"@
}

/// Checks an e-mail id before a STORE command: an empty id or `0` is an
/// IMAP error.
pub fn check_store_id(id: &str) -> (r: Result<(), EmailError>)
    ensures
        valid_store_id(id@) <==> r is Ok,
        r matches Err(e) ==> e matches EmailError::ImapError(m) && m@ == "Invalid email ID for STORE operation"@,
{
    proof {
        reveal_strlit("0");
    }
    if str_width(id) == 0 || str_eq(id, "0") {
        proof {
            crate::text::lemma_text_width_bounds(id@);
        }
        Err(EmailError::ImapError(owned("Invalid email ID for STORE operation")))
    } else {
        proof {
            crate::text::lemma_text_width_bounds(id@);
        }
        Ok(())
    }
}

/// The batches of a first synchronisation cover the sequence numbers from
/// `from` to `total` one after another: each batch starts right after the
/// previous one ends, holds at most 500 numbers, and the last ends at
/// `total`.
pub proof fn law_batches_cover(from: int, total: int)
    requires
        1 <= from <= total,
        total <= u32::MAX,
    ensures
        batches_from(from, total).len() > 0,
        batches_from(from, total)[0].0 == from,
        batches_from(from, total).last().1 == total,
        forall|k: int|
            0 <= k < batches_from(from, total).len() ==> #[trigger] batches_from(from, total)[k].0
                <= batches_from(from, total)[k].1 && batches_from(from, total)[k].1 - batches_from(from, total)[k].0 < 500,
        forall|k: int|
            0 < k < batches_from(from, total).len() ==> #[trigger] batches_from(from, total)[k].0 == batches_from(from, total)[k - 1].1 + 1,
    decreases total - from + 1,
{
    let end = if from + 499 < total { from + 499 } else { total };
    let rest = batches_from(end + 1, total);
    let b = batches_from(from, total);
    assert(b == seq![(from as u32, end as u32)] + rest);
    if end < total {
        law_batches_cover(end + 1, total);
        assert forall|k: int| 0 <= k < b.len() implies #[trigger] b[k].0 <= b[k].1 && b[k].1 - b[k].0 < 500 by {
            if k > 0 {
                assert(b[k] == rest[k - 1]);
            }
        }
        assert forall|k: int| 0 < k < b.len() implies #[trigger] b[k].0 == b[k - 1].1 + 1 by {
            assert(b[k] == rest[k - 1]);
            if k > 1 {
                assert(b[k - 1] == rest[k - 2]);
            }
        }
        assert(b.last() == rest.last());
    } else {
        assert(rest =~= Seq::<(u32, u32)>::empty());
        assert(b =~= seq![(from as u32, end as u32)]);
    }
}

} // verus!

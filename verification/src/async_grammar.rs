//! Delayed grammar checking while a message is composed: the requests, the
//! responses, and the decisions of the background checker (which request
//! is pending, when it is due, whether it is answered).
use vstd::prelude::*;
use crate::text::{owned, str_eq};
use crate::grammarcheck::{GrammarChecker, GrammarCheckConfig, GrammarError};

verus! {

/// The fields of the compose form.
#[derive(Debug, Clone, Copy, PartialEq, Eq, Structural)]
pub enum ComposeField {
    To,
    Cc,
    Bcc,
    Subject,
    Body,
}

/// The name of a compose field.
pub open spec fn field_name(field: ComposeField) -> Seq<char> {
    match field {
        ComposeField::To => "To"@,
        ComposeField::Cc => "Cc"@,
        ComposeField::Bcc => "Bcc"@,
        ComposeField::Subject => "Subject"@,
        ComposeField::Body => "Body"@,
    }
}

/// The name of a compose field, as the grammar checker labels requests.
pub fn compose_field_to_string(field: &ComposeField) -> (r: String)
    ensures
        r@ == field_name(*field),
{
    match field {
        ComposeField::To => owned("To"),
        ComposeField::Cc => owned("Cc"),
        ComposeField::Bcc => owned("Bcc"),
        ComposeField::Subject => owned("Subject"),
        ComposeField::Body => owned("Body"),
    }
}

/// A message to the background grammar checker.
#[derive(Debug, Clone)]
pub enum GrammarCheckMessage {
    /// Check `text` of the field named `field_type` once the delay has passed.
    CheckText { text: String, field_type: String, request_id: u64 },
    /// Drop the pending check.
    Cancel,
    /// Stop the checker.
    Shutdown,
}

/// The answer to a check request.
#[derive(Debug, Clone)]
pub struct GrammarCheckResponse {
    pub errors: Vec<GrammarError>,
    pub field_type: String,
    pub request_id: u64,
}

/// How long a request waits before it is checked, in milliseconds.
pub const CHECK_DELAY_MS: u64 = 2000;

/// How long the checker waits when nothing is pending, in milliseconds.
pub const IDLE_WAIT_MS: u64 = 3600000;

/// The request waiting to be checked, with the time it arrived.
#[derive(Debug, Clone)]
pub struct PendingCheck {
    pub text: String,
    pub field_type: String,
    pub request_id: u64,
    pub received_ms: u64,
}

/// The state of the background checker: at most one pending request, the
/// latest one.
#[derive(Debug, Clone)]
pub struct GrammarScheduler {
    pub pending: Option<PendingCheck>,
}

/// What the checker does after a message.
#[derive(Debug, Clone, Copy, PartialEq, Eq, Structural)]
pub enum SchedulerStep {
    Continue,
    Stop,
}

/// Milliseconds elapsed from `from` to `now`, zero when `now` is earlier.
pub open spec fn elapsed(from: u64, now: u64) -> int {
    if now >= from {
        now - from
    } else {
        0
    }
}

/// Whether a field holds addresses, whose text is never grammar-checked.
pub open spec fn is_address_field(name: Seq<char>) -> bool {
    name == "To"@ || name == "Cc"@ || name == "Bcc"@
}

/// The pending request after a message arrives at `now`: a check request
/// replaces it, a cancel drops it, a shutdown leaves it.
pub open spec fn pending_after_message(p: Option<PendingCheck>, m: GrammarCheckMessage, now: u64) -> Option<
    PendingCheck,
> {
    match m {
        GrammarCheckMessage::CheckText { text, field_type, request_id } => Some(
            PendingCheck { text, field_type, request_id, received_ms: now },
        ),
        GrammarCheckMessage::Cancel => None,
        GrammarCheckMessage::Shutdown => p,
    }
}

/// The pending request after a wait ends at `now` without a message, and
/// the answer sent, as the field name and request id: a due request is
/// taken, and answered unless its field holds addresses.
pub open spec fn timeout_step(p: Option<PendingCheck>, now: u64) -> (Option<PendingCheck>, Option<(Seq<char>, u64)>) {
    match p {
        Some(q) => if elapsed(q.received_ms, now) >= CHECK_DELAY_MS {
            (None, if is_address_field(q.field_type@) { None } else { Some((q.field_type@, q.request_id)) })
        } else {
            (p, None)
        },
        None => (None, None),
    }
}

impl GrammarScheduler {
    /// A checker with nothing pending.
    pub fn new() -> (r: GrammarScheduler)
        ensures
            r.pending is None,
    {
        GrammarScheduler { pending: None }
    }

    /// How long to wait for the next message: until the pending request is
    /// due (zero when it is), or the idle wait when nothing is pending.
    pub fn wait_ms(&self, now_ms: u64) -> (r: u64)
        ensures
            match self.pending {
                Some(p) => r == (if elapsed(p.received_ms, now_ms) >= CHECK_DELAY_MS {
                    0
                } else {
                    CHECK_DELAY_MS - elapsed(p.received_ms, now_ms)
                }),
                None => r == IDLE_WAIT_MS,
            },
    {
        match &self.pending {
            Some(p) => {
                let e = if now_ms >= p.received_ms {
                    now_ms - p.received_ms
                } else {
                    0
                };
                if e >= CHECK_DELAY_MS {
                    0
                } else {
                    CHECK_DELAY_MS - e
                }
            },
            None => IDLE_WAIT_MS,
        }
    }

    /// Takes a message: a check request replaces the pending one, a cancel
    /// drops it, a shutdown stops the checker.
    pub fn on_message(&mut self, message: GrammarCheckMessage, now_ms: u64) -> (r: SchedulerStep)
        ensures
            match message {
                GrammarCheckMessage::CheckText { text, field_type, request_id } => {
                    &&& r == SchedulerStep::Continue
                    &&& final(self).pending matches Some(p) && p.text == text && p.field_type == field_type
                        && p.request_id == request_id && p.received_ms == now_ms
                },
                GrammarCheckMessage::Cancel => r == SchedulerStep::Continue && final(self).pending is None,
                GrammarCheckMessage::Shutdown => r == SchedulerStep::Stop && final(self).pending == old(self).pending,
            },
            final(self).pending == pending_after_message(old(self).pending, message, now_ms),
    {
        match message {
            GrammarCheckMessage::CheckText { text, field_type, request_id } => {
                self.pending = Some(PendingCheck { text, field_type, request_id, received_ms: now_ms });
                SchedulerStep::Continue
            },
            GrammarCheckMessage::Cancel => {
                self.pending = None;
                SchedulerStep::Continue
            },
            GrammarCheckMessage::Shutdown => SchedulerStep::Stop,
        }
    }

    /// The wait ended without a message: a pending request that is due is
    /// taken and answered with the checker's errors, unless its field holds
    /// addresses (then it is dropped unanswered); one not yet due stays.
    pub fn on_timeout(&mut self, now_ms: u64, checker: &GrammarChecker) -> (r: Option<GrammarCheckResponse>)
        ensures
            match old(self).pending {
                Some(p) => if elapsed(p.received_ms, now_ms) >= CHECK_DELAY_MS {
                    &&& final(self).pending is None
                    &&& (is_address_field(p.field_type@) ==> r is None)
                    &&& (!is_address_field(p.field_type@) ==> (r matches Some(resp) && resp.field_type == p.field_type
                        && resp.request_id == p.request_id && resp.errors@.len() == 0))
                } else {
                    r is None && final(self).pending == old(self).pending
                },
                None => r is None && final(self).pending is None,
            },
            final(self).pending == timeout_step(old(self).pending, now_ms).0,
            (match r {
                Some(resp) => Some((resp.field_type@, resp.request_id)),
                None => None,
            }) == timeout_step(old(self).pending, now_ms).1,
    {
        let taken = self.pending.take();
        match taken {
            Some(p) => {
                let e = if now_ms >= p.received_ms {
                    now_ms - p.received_ms
                } else {
                    0
                };
                if e >= CHECK_DELAY_MS {
                    if str_eq(p.field_type.as_str(), "To") || str_eq(p.field_type.as_str(), "Cc")
                        || str_eq(p.field_type.as_str(), "Bcc") {
                        return None;
                    }
                    let config = GrammarCheckConfig::default();
                    let errors = checker.check_text(p.text.as_str(), &config);
                    Some(GrammarCheckResponse { errors, field_type: p.field_type, request_id: p.request_id })
                } else {
                    self.pending = Some(p);
                    None
                }
            },
            None => None,
        }
    }
}

/// What the background checker goes through: each event is a message, or
/// `None` for a wait that ended without one, with the time in milliseconds.
pub type SchedulerEvents = Seq<(Option<GrammarCheckMessage>, u64)>;

/// Whether event `e` is a shutdown.
pub open spec fn is_shutdown(e: (Option<GrammarCheckMessage>, u64)) -> bool {
    e.0 matches Some(GrammarCheckMessage::Shutdown)
}

/// The state after a run of events from an empty checker: the pending
/// request, the answers sent (field name and request id) in order, and
/// whether the checker stopped; after a shutdown nothing more happens.
pub open spec fn run_events(ev: SchedulerEvents) -> (Option<PendingCheck>, Seq<(Seq<char>, u64)>, bool)
    decreases ev.len(),
{
    if ev.len() == 0 {
        (None, seq![], false)
    } else {
        let (p, out, stopped) = run_events(ev.drop_last());
        let (m, t) = ev.last();
        if stopped {
            (p, out, true)
        } else {
            match m {
                Some(msg) => (pending_after_message(p, msg, t), out, is_shutdown(ev.last())),
                None => {
                    let (q, answer) = timeout_step(p, t);
                    (q, match answer {
                        Some(a) => out.push(a),
                        None => out,
                    }, false)
                },
            }
        }
    }
}

/// Whether, in the events, a check request for field `f` with id `r`
/// arrived at some event `j`, and a wait ended at a later event `k` at
/// least the check delay after it, with no message in between and no
/// shutdown before; the field does not hold addresses.
pub open spec fn answer_justified(ev: SchedulerEvents, f: Seq<char>, r: u64) -> bool {
    exists|j: int, k: int|
        #![trigger ev[j], ev[k]]
        0 <= j < k < ev.len() && (ev[j].0 matches Some(GrammarCheckMessage::CheckText { field_type, request_id, .. })
            && field_type@ == f && request_id == r) && ev[k].0 is None && elapsed(ev[j].1, ev[k].1)
            >= CHECK_DELAY_MS && !is_address_field(f) && (forall|i: int| j < i < k ==> (#[trigger] ev[i]).0 is None)
            && (forall|i: int| 0 <= i < k ==> !is_shutdown(#[trigger] ev[i]))
}

proof fn lemma_justified_extends(ev: SchedulerEvents, n: int, f: Seq<char>, r: u64)
    requires
        0 <= n <= ev.len(),
        answer_justified(ev.take(n), f, r),
    ensures
        answer_justified(ev, f, r),
{
    let pre = ev.take(n);
    let (j, k) = choose|j: int, k: int|
        #![trigger pre[j], pre[k]]
        0 <= j < k < pre.len() && (pre[j].0 matches Some(GrammarCheckMessage::CheckText { field_type, request_id, .. })
            && field_type@ == f && request_id == r) && pre[k].0 is None && elapsed(pre[j].1, pre[k].1)
            >= CHECK_DELAY_MS && !is_address_field(f) && (forall|i: int| j < i < k ==> (#[trigger] pre[i]).0 is None)
            && (forall|i: int| 0 <= i < k ==> !is_shutdown(#[trigger] pre[i]));
    assert(ev[j] == pre[j] && ev[k] == pre[k]);
    assert forall|i: int| j < i < k implies (#[trigger] ev[i]).0 is None by {
        assert(ev[i] == pre[i]);
    }
    assert forall|i: int| 0 <= i < k implies !is_shutdown(#[trigger] ev[i]) by {
        assert(ev[i] == pre[i]);
    }
}

/// Whether the pending request `q` came from an event after which only
/// waits ended.
pub open spec fn pending_justified(ev: SchedulerEvents, q: PendingCheck) -> bool {
    exists|j: int|
        0 <= j < ev.len() && #[trigger] ev[j] == (
        Some(GrammarCheckMessage::CheckText { text: q.text, field_type: q.field_type, request_id: q.request_id }),
        q.received_ms,
    ) && (forall|i: int| j < i < ev.len() ==> (#[trigger] ev[i]).0 is None)
}

proof fn lemma_run_events(ev: SchedulerEvents)
    ensures
        run_events(ev).2 <==> exists|i: int| 0 <= i < ev.len() && is_shutdown(#[trigger] ev[i]),
        (run_events(ev).0 is Some && !run_events(ev).2) ==> pending_justified(ev, run_events(ev).0->0),
        forall|a: int|
            0 <= a < run_events(ev).1.len() ==> answer_justified(
                ev,
                (#[trigger] run_events(ev).1[a]).0,
                run_events(ev).1[a].1,
            ),
    decreases ev.len(),
{
    if ev.len() > 0 {
        let n = ev.len() - 1;
        let d = ev.drop_last();
        lemma_run_events(d);
        assert(d =~= ev.take(n));
        assert forall|i: int| 0 <= i < n implies #[trigger] ev[i] == d[i] by {}
        let (p, out, stopped) = run_events(d);
        let (m, t) = ev.last();
        let (p2, out2, stopped2) = run_events(ev);
        // answers already sent stay justified
        assert forall|a: int| 0 <= a < out.len() implies answer_justified(ev, (#[trigger] out[a]).0, out[a].1) by {
            lemma_justified_extends(ev, n, out[a].0, out[a].1);
        }
        if stopped {
            assert(exists|i: int| 0 <= i < d.len() && is_shutdown(#[trigger] d[i]));
            let i0 = choose|i: int| 0 <= i < d.len() && is_shutdown(#[trigger] d[i]);
            assert(ev[i0] == d[i0]);
        } else {
            assert(!exists|i: int| 0 <= i < d.len() && is_shutdown(#[trigger] d[i]));
            match m {
                Some(msg) => {
                    assert(ev[n] == ev.last());
                    if is_shutdown(ev.last()) {
                        assert(is_shutdown(ev[n]));
                    } else {
                        assert forall|i: int| 0 <= i < ev.len() implies !is_shutdown(#[trigger] ev[i]) by {
                            if i < n {
                                assert(ev[i] == d[i]);
                            }
                        }
                    }
                    match msg {
                        GrammarCheckMessage::CheckText { text, field_type, request_id } => {
                            assert(ev[n] == (
                                Some(GrammarCheckMessage::CheckText { text, field_type, request_id }),
                                t,
                            ));
                        },
                        GrammarCheckMessage::Cancel => {},
                        GrammarCheckMessage::Shutdown => {},
                    }
                },
                None => {
                    assert(ev[n] == ev.last());
                    assert forall|i: int| 0 <= i < ev.len() implies !is_shutdown(#[trigger] ev[i]) by {
                        if i < n {
                            assert(ev[i] == d[i]);
                        }
                    }
                    match p {
                        Some(q) => {
                            let j = choose|j: int|
                                0 <= j < d.len() && #[trigger] d[j] == (
                                Some(
                                    GrammarCheckMessage::CheckText {
                                        text: q.text,
                                        field_type: q.field_type,
                                        request_id: q.request_id,
                                    },
                                ),
                                q.received_ms,
                            ) && (forall|i: int| j < i < d.len() ==> (#[trigger] d[i]).0 is None);
                            assert(ev[j] == d[j]);
                            assert forall|i: int| j < i < ev.len() implies (#[trigger] ev[i]).0 is None by {
                                if i < n {
                                    assert(ev[i] == d[i]);
                                }
                            }
                            if elapsed(q.received_ms, t) >= CHECK_DELAY_MS && !is_address_field(q.field_type@) {
                                assert(out2 == out.push((q.field_type@, q.request_id)));
                                assert(answer_justified(ev, q.field_type@, q.request_id)) by {
                                    assert(ev[n].0 is None);
                                    assert(ev[n].1 == t);
                                    assert forall|i: int| j < i < n implies (#[trigger] ev[i]).0 is None by {}
                                    assert forall|i: int| 0 <= i < n implies !is_shutdown(#[trigger] ev[i]) by {}
                                }
                                assert forall|a: int| 0 <= a < out2.len() implies answer_justified(
                                    ev,
                                    (#[trigger] out2[a]).0,
                                    out2[a].1,
                                ) by {
                                    if a < out.len() {
                                        assert(out2[a] == out[a]);
                                    }
                                }
                            }
                        },
                        None => {},
                    }
                },
            }
        }
    }
}

/// An answer is sent only for a check request that was then left alone for
/// the check delay: every answer of the background checker names a
/// request for a field that does not hold addresses, after which a wait
/// ended at least two seconds later with no message in between and no
/// shutdown before.
pub proof fn law_answers_follow_quiet_requests(ev: SchedulerEvents)
    ensures
        forall|a: int|
            0 <= a < run_events(ev).1.len() ==> answer_justified(
                ev,
                (#[trigger] run_events(ev).1[a]).0,
                run_events(ev).1[a].1,
            ),
{
    lemma_run_events(ev);
}

/// Whether event `j` is a check request for field `f` with id `r`, left
/// alone afterwards (only waits end after it) and with no shutdown up to it.
pub open spec fn quiet_request(ev: SchedulerEvents, j: int, f: Seq<char>, r: u64) -> bool {
    &&& 0 <= j < ev.len()
    &&& ev[j].0 matches Some(GrammarCheckMessage::CheckText { field_type, request_id, .. }) && field_type@ == f
        && request_id == r
    &&& forall|i: int| j < i < ev.len() ==> (#[trigger] ev[i]).0 is None
    &&& forall|i: int| 0 <= i <= j ==> !is_shutdown(#[trigger] ev[i])
}

proof fn lemma_no_shutdown_prefix(ev: SchedulerEvents, m: int)
    requires
        0 <= m <= ev.len(),
        forall|i: int| 0 <= i < m ==> !is_shutdown(#[trigger] ev[i]),
    ensures
        !run_events(ev.take(m)).2,
    decreases m,
{
    if m > 0 {
        assert(ev.take(m).drop_last() =~= ev.take(m - 1));
        lemma_no_shutdown_prefix(ev, m - 1);
        assert(ev.take(m).last() == ev[m - 1]);
    }
}

proof fn lemma_quiet_request(ev: SchedulerEvents, j: int, f: Seq<char>, r: u64, m: int)
    requires
        quiet_request(ev, j, f, r),
        !is_address_field(f),
        j < m <= ev.len(),
    ensures
        run_events(ev.take(m)).1.contains((f, r)) || (run_events(ev.take(m)).0 matches Some(q) && q.field_type@ == f
            && q.request_id == r && q.received_ms == ev[j].1),
        forall|k: int|
            j < k < m && elapsed(ev[j].1, (#[trigger] ev[k]).1) >= CHECK_DELAY_MS ==> run_events(ev.take(m)).1.contains(
                (f, r),
            ),
    decreases m,
{
    let pre = ev.take(m);
    let d = ev.take(m - 1);
    assert(pre.drop_last() =~= d);
    assert(pre.last() == ev[m - 1]);
    assert forall|i: int| 0 <= i < m - 1 implies !is_shutdown(#[trigger] ev[i]) by {
        if i > j {
            assert(ev[i].0 is None);
        }
    }
    lemma_no_shutdown_prefix(ev, m - 1);
    if m == j + 1 {
    } else {
        lemma_quiet_request(ev, j, f, r, m - 1);
        let (p, out, stopped) = run_events(d);
        assert(ev[m - 1].0 is None);
        let (q2, answer) = timeout_step(p, ev[m - 1].1);
        assert(run_events(pre).1 == match answer {
            Some(a) => out.push(a),
            None => out,
        });
        if out.contains((f, r)) {
            let x = choose|x: int| 0 <= x < out.len() && out[x] == (f, r);
            match answer {
                Some(a) => assert(out.push(a)[x] == (f, r)),
                None => {},
            }
        } else {
            let q = p->0;
            if elapsed(q.received_ms, ev[m - 1].1) >= CHECK_DELAY_MS {
                assert(!is_address_field(f));
                assert(out.push((f, r))[out.len() as int] == (f, r));
            }
        }
    }
}

/// A check request for a field that does not hold addresses, after which
/// only waits end and before which no shutdown came, is answered once a
/// wait ends at least the check delay after it.
pub proof fn law_quiet_request_is_answered(ev: SchedulerEvents, j: int, k: int, f: Seq<char>, r: u64)
    requires
        quiet_request(ev, j, f, r),
        !is_address_field(f),
        j < k < ev.len(),
        elapsed(ev[j].1, ev[k].1) >= CHECK_DELAY_MS,
    ensures
        run_events(ev).1.contains((f, r)),
{
    lemma_quiet_request(ev, j, f, r, ev.len() as int);
    assert(ev.take(ev.len() as int) =~= ev);
}

/// The identifiers of check requests: consecutive numbers from 1.
#[derive(Debug, Clone)]
pub struct RequestIds {
    pub next: u64,
}

impl RequestIds {
    /// Identifiers starting at 1.
    pub fn new() -> (r: RequestIds)
        ensures
            r.next == 1,
    {
        RequestIds { next: 1 }
    }

    /// The next identifier; the counter wraps around after the largest.
    pub fn issue(&mut self) -> (r: u64)
        ensures
            r == old(self).next,
            final(self).next == (if old(self).next == u64::MAX { 0 } else { old(self).next + 1 }),
    {
        let r = self.next;
        self.next = if self.next == u64::MAX {
            0
        } else {
            self.next + 1
        };
        r
    }
}

} // verus!

//! The availability prober as a state machine. One probe session watches one
//! address: each connection attempt either succeeds, which completes the
//! session, or fails, which directs the caller to wait the session's fixed
//! interval and attempt again. A failed attempt is the expected steady state,
//! never an error, and there is no attempt limit and no back-off: the
//! interval is constant for the life of the session.
//!
//! The caller performs the actual connection attempts and sleeps; the session
//! decides, so every decision here is verified whatever the network does.
use vstd::prelude::*;

use crate::address::Ipv4Address;

verus! {

/// What the prober directs its caller to do after one attempt: stop, the
/// target is reachable, or wait the given number of milliseconds and attempt
/// again.
#[derive(Clone, Copy, PartialEq, Eq, Structural, Debug)]
pub enum ProbeDirective {
    Done,
    RetryAfter(u64),
}

/// One endpoint's probe session: the target, the fixed poll interval in
/// milliseconds, and how many attempts have failed so far.
#[derive(Clone, Copy, PartialEq, Eq, Structural, Debug)]
pub struct ProbeSession {
    pub addr: Ipv4Address,
    pub port: u16,
    pub interval: u64,
    pub attempts: u64,
}

/// The session and directive one attempt's outcome leads to: success
/// completes the session unchanged, failure counts the attempt and directs a
/// retry after the fixed interval.
pub open spec fn probe_step(s: ProbeSession, connected: bool) -> (ProbeSession, ProbeDirective)
    recommends
        s.attempts < u64::MAX,
{
    if connected {
        (s, ProbeDirective::Done)
    } else {
        (
            ProbeSession { attempts: (s.attempts + 1) as u64, ..s },
            ProbeDirective::RetryAfter(s.interval),
        )
    }
}

/// The directives a session issues over a sequence of attempt outcomes.
pub open spec fn probe_directives(s: ProbeSession, events: Seq<bool>) -> Seq<ProbeDirective>
    decreases events.len(),
{
    if events.len() == 0 {
        Seq::empty()
    } else {
        seq![probe_step(s, events[0]).1] + probe_directives(
            probe_step(s, events[0]).0,
            events.drop_first(),
        )
    }
}

/// The session state after a sequence of attempt outcomes.
pub open spec fn probe_after(s: ProbeSession, events: Seq<bool>) -> ProbeSession
    decreases events.len(),
{
    if events.len() == 0 {
        s
    } else {
        probe_after(probe_step(s, events[0]).0, events.drop_first())
    }
}

impl ProbeSession {
    /// Opens a session on one target with the given poll interval; no attempt
    /// has been made yet.
    pub fn new(addr: Ipv4Address, port: u16, interval: u64) -> (s: Self)
        ensures
            s == (ProbeSession { addr, port, interval, attempts: 0 }),
    {
        ProbeSession { addr, port, interval, attempts: 0 }
    }

    /// Consumes one attempt's outcome: success completes the session with no
    /// further directive and no delay, failure counts the attempt and directs
    /// the caller to retry after exactly the session's interval.
    pub fn on_attempt(&mut self, connected: bool) -> (d: ProbeDirective)
        requires
            old(self).attempts < u64::MAX,
        ensures
            (*final(self), d) == probe_step(*old(self), connected),
            connected ==> d is Done && *final(self) == *old(self),
            !connected ==> d == ProbeDirective::RetryAfter(old(self).interval),
            !connected ==> final(self).attempts == old(self).attempts + 1,
            !connected ==> final(self).addr == old(self).addr,
            !connected ==> final(self).port == old(self).port,
            !connected ==> final(self).interval == old(self).interval,
    {
        if connected {
            ProbeDirective::Done
        } else {
            self.attempts = self.attempts + 1;
            ProbeDirective::RetryAfter(self.interval)
        }
    }
}

/// Law: a target that is reachable at once completes on the first attempt,
/// with no retry directive and hence no added delay.
pub proof fn lemma_probe_immediate_success(s: ProbeSession, events: Seq<bool>)
    requires
        events.len() == 1,
        events[0],
    ensures
        probe_directives(s, events) == seq![ProbeDirective::Done],
        probe_after(s, events) == s,
{
    assert(events.drop_first().len() == 0);
    assert(probe_directives(s, events.drop_first()) =~= Seq::<ProbeDirective>::empty());
    assert(probe_directives(s, events) =~= seq![ProbeDirective::Done]);
    assert(probe_after(s, events) == probe_after(s, events.drop_first()));
}

/// Law: a target that becomes reachable only after exactly `k` failed
/// attempts makes the session wait the fixed interval after each of the `k`
/// failures and complete on attempt `k + 1`, `k` failed attempts then on
/// record.
pub proof fn lemma_probe_succeeds_after_k_failures(s: ProbeSession, events: Seq<bool>, k: int)
    requires
        0 <= k,
        events.len() == k + 1,
        forall|i: int| 0 <= i < k ==> !(#[trigger] events[i]),
        events[k],
        s.attempts + k <= u64::MAX,
    ensures
        probe_directives(s, events).len() == k + 1,
        forall|i: int|
            0 <= i < k ==> #[trigger] probe_directives(s, events)[i] == ProbeDirective::RetryAfter(
                s.interval,
            ),
        probe_directives(s, events)[k] == ProbeDirective::Done,
        probe_after(s, events).attempts == s.attempts + k,
    decreases k,
{
    if k == 0 {
        lemma_probe_immediate_success(s, events);
    } else {
        let s2 = probe_step(s, events[0]).0;
        let rest = events.drop_first();
        assert(rest[k - 1] == events[k]);
        lemma_probe_succeeds_after_k_failures(s2, rest, k - 1);
        assert(probe_after(s, events) == probe_after(s2, rest));
        assert forall|i: int| 0 <= i < k implies #[trigger] probe_directives(s, events)[i]
            == ProbeDirective::RetryAfter(s.interval) by {
            if i > 0 {
                assert(probe_directives(s, events)[i] == probe_directives(s2, rest)[i - 1]);
            }
        }
        assert(probe_directives(s, events)[k] == probe_directives(s2, rest)[k - 1]);
    }
}

} // verus!

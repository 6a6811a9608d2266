//! The watch orchestrator as a state machine. A session walks an ordered
//! list of resolved targets: each target in turn is probed until reachable,
//! then the operator is notified with its name, exactly once, before the next
//! target's probing can begin. Notification order is therefore watch-list
//! order, and a later target is never probed before every earlier one has
//! been notified.
//!
//! The caller performs the connection attempts and the notification side
//! effects; the session decides which target is probed and when a
//! notification is owed. A notifier failure is the caller's to log and
//! swallow: it does not enter the session's state.
use vstd::prelude::*;

use crate::address::Ipv4Address;
use crate::resolve::ResolvedTarget;
use crate::text::copy_chars;

verus! {

/// One monitoring run over an ordered list of resolved targets. `pos` counts
/// the targets already probed and notified; `probing` says whether the
/// target at `pos` is currently being probed.
pub struct WatchSession {
    pub targets: Vec<ResolvedTarget>,
    pub pos: usize,
    pub probing: bool,
}

impl WatchSession {
    /// The session is well formed: `pos` lies on the list, and only a target
    /// still on the list can be under probe.
    pub open spec fn wf(self) -> bool {
        self.pos <= self.targets@.len() && (self.probing ==> self.pos < self.targets@.len())
    }

    /// Opens a run over `targets`, none probed yet.
    pub fn new(targets: Vec<ResolvedTarget>) -> (s: Self)
        ensures
            s.wf(),
            s.targets == targets,
            s.pos == 0,
            !s.probing,
    {
        WatchSession { targets, pos: 0, probing: false }
    }

    /// The whole watch list has been probed and notified.
    pub fn finished(&self) -> (r: bool)
        requires
            self.wf(),
        ensures
            r <==> self.pos == self.targets@.len(),
            r ==> !self.probing,
    {
        self.pos == self.targets.len()
    }

    /// Begins probing the first target not yet notified and hands back its
    /// address and port. Possible only while no probe is under way, so a
    /// target is probed only after every earlier target's notification.
    pub fn begin_probe(&mut self) -> (t: (Ipv4Address, u16))
        requires
            old(self).wf(),
            !old(self).probing,
            old(self).pos < old(self).targets@.len(),
        ensures
            final(self).wf(),
            final(self).probing,
            final(self).pos == old(self).pos,
            final(self).targets == old(self).targets,
            t.0 == old(self).targets@[old(self).pos as int].addr,
            t.1 == old(self).targets@[old(self).pos as int].port,
    {
        self.probing = true;
        let target = &self.targets[self.pos];
        (target.addr, target.port)
    }

    /// Consumes the current target's probe success: the run advances past it
    /// and hands back the name the operator is owed a notification with —
    /// exactly one per success, before any later target can be probed.
    pub fn probe_succeeded(&mut self) -> (name: Vec<char>)
        requires
            old(self).wf(),
            old(self).probing,
        ensures
            final(self).wf(),
            !final(self).probing,
            final(self).pos == old(self).pos + 1,
            final(self).targets == old(self).targets,
            name@ == old(self).targets@[old(self).pos as int].name@,
    {
        self.probing = false;
        let name = copy_chars(&self.targets[self.pos].name);
        let n: usize = self.targets.len();
        assert(self.pos < n);
        self.pos = self.pos + 1;
        name
    }
}

} // verus!

//! The async adapter's decisions: driving one transfer to a single outcome.
//!
//! The adapter runs a transfer end to end: add it, then repeatedly make
//! native progress and re-check the running count, then drain once more and
//! resolve exactly one outcome.  The loop itself performs native calls and
//! sleeps, so it lives with the caller; each iteration hands the observed
//! running count and the clock to `adapter_decide` and obeys the verdict.  A
//! wall-clock deadline bounds the loop: once it passes with work still
//! running, the transfer is removed and the outcome is a timeout, whatever
//! the native state.

use vstd::prelude::*;

use crate::errors::MultiError;

verus! {

/// The verdict of one iteration of the adapter's drive loop.
pub enum DriveStep {
    /// Transfers are still running and the deadline has not passed: make
    /// another native progress step.
    Continue,
    /// No transfer is still running: drain once more and resolve the result.
    Finished,
    /// The deadline passed with work still running: remove the transfer and
    /// resolve a timeout.
    TimedOut,
}

/// Decides one iteration of the drive loop from the observed running count
/// and the clock.  Reaching zero running handles finishes the session; a
/// session that never reaches zero within its deadline times out.
pub fn adapter_decide(running: i32, now_ms: u64, deadline_ms: u64) -> (s: DriveStep)
    ensures
        running == 0 ==> s is Finished,
        running != 0 && now_ms >= deadline_ms ==> s is TimedOut,
        running != 0 && now_ms < deadline_ms ==> s is Continue,
{
    if running == 0 {
        DriveStep::Finished
    } else if now_ms >= deadline_ms {
        DriveStep::TimedOut
    } else {
        DriveStep::Continue
    }
}

/// One transfer's asynchronous session: the transfer it drives, its
/// wall-clock deadline, and whether an outcome was already resolved.
pub struct TransferSession {
    identity: u64,
    deadline_ms: u64,
    resolved: bool,
}

impl TransferSession {
    /// The transfer this session drives.
    pub closed spec fn spec_identity(self) -> u64 {
        self.identity
    }

    /// The wall-clock deadline bounding the session's drive loop.
    pub closed spec fn spec_deadline_ms(self) -> u64 {
        self.deadline_ms
    }

    /// Whether an outcome was already resolved.
    pub closed spec fn spec_resolved(self) -> bool {
        self.resolved
    }

    /// Opens a session for one transfer with its deadline; nothing is
    /// resolved yet.
    pub fn new(identity: u64, deadline_ms: u64) -> (s: TransferSession)
        ensures
            s.spec_identity() == identity,
            s.spec_deadline_ms() == deadline_ms,
            !s.spec_resolved(),
    {
        TransferSession { identity, deadline_ms, resolved: false }
    }

    pub fn identity(&self) -> (r: u64)
        ensures
            r == self.spec_identity(),
    {
        self.identity
    }

    pub fn deadline_ms(&self) -> (r: u64)
        ensures
            r == self.spec_deadline_ms(),
    {
        self.deadline_ms
    }

    /// Claims the right to resolve the session's outcome.  Only the first
    /// claim wins; every later one is refused, so the session resolves
    /// exactly one outcome.
    pub fn try_resolve(&mut self) -> (first: bool)
        ensures
            final(self).spec_resolved(),
            first == !old(self).spec_resolved(),
            final(self).spec_identity() == old(self).spec_identity(),
            final(self).spec_deadline_ms() == old(self).spec_deadline_ms(),
    {
        let first = !self.resolved;
        self.resolved = true;
        first
    }

    /// The outcome of a session whose deadline passed with work still
    /// running, after the transfer was removed: a timeout, whatever the
    /// native state was.
    pub fn timeout_outcome(&self) -> (e: MultiError)
        requires
            self.spec_resolved(),
        ensures
            e is TransferTimeout,
    {
        MultiError::TransferTimeout
    }
}

} // verus!

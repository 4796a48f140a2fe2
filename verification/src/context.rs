//! The callback context's back-channel accounting and trampoline decisions.
//!
//! To let the native multiplexer call back into caller logic, the bridge
//! installs the shared callback context into the native side as raw "user
//! data" pointers: one slot for the socket-watch callback and one for the
//! timer callback.  Each installation intentionally leaks one strong
//! reference; teardown must reclaim exactly as many as were leaked.  The
//! counts here mirror those conversions one for one, so the balance can be
//! stated and checked.
//!
//! A trampoline invocation borrows the installed pointer and restores it, so
//! it never moves these counts; what a trampoline does decide — skip or
//! forward, and which status code to hand back — is computed here as well.

use vstd::prelude::*;

verus! {

/// How many of the two native callback slots currently hold an installed
/// back-channel pointer.
pub open spec fn installed_count(socket: bool, timer: bool) -> int {
    (if socket {
        1int
    } else {
        0int
    }) + (if timer {
        1int
    } else {
        0int
    })
}

/// The reference-count ledger of the callback context's raw back-channels.
pub struct BackChannels {
    /// The socket callback slot holds a leaked pointer.
    pub socket_installed: bool,
    /// The timer callback slot holds a leaked pointer.
    pub timer_installed: bool,
    /// How many strong references were ever turned into raw pointers.
    pub leaked: u64,
    /// How many of those raw pointers were turned back into strong references.
    pub reclaimed: u64,
}

impl BackChannels {
    /// The ledger balances: outstanding leaks are exactly the installed slots.
    pub open spec fn wf(self) -> bool {
        self.leaked - self.reclaimed == installed_count(
            self.socket_installed,
            self.timer_installed,
        )
    }

    /// A fresh context: nothing installed, nothing leaked, nothing reclaimed.
    pub fn new() -> (r: BackChannels)
        ensures
            r.wf(),
            !r.socket_installed,
            !r.timer_installed,
            r.leaked == 0,
            r.reclaimed == 0,
    {
        BackChannels { socket_installed: false, timer_installed: false, leaked: 0, reclaimed: 0 }
    }

    /// Installs a fresh back-channel pointer into the socket callback slot,
    /// reclaiming the previously installed one first if there was one.
    /// Returns whether the caller must reclaim an old pointer.
    pub fn install_socket(&mut self) -> (reclaim_old: bool)
        requires
            old(self).wf(),
            old(self).leaked < u64::MAX,
        ensures
            final(self).wf(),
            reclaim_old == old(self).socket_installed,
            final(self).socket_installed,
            final(self).timer_installed == old(self).timer_installed,
            final(self).leaked == old(self).leaked + 1,
            final(self).reclaimed == old(self).reclaimed + (if old(self).socket_installed {
                1int
            } else {
                0int
            }),
    {
        let had_old = self.socket_installed;
        if had_old {
            self.reclaimed = self.reclaimed + 1;
        }
        self.leaked = self.leaked + 1;
        self.socket_installed = true;
        had_old
    }

    /// Installs a fresh back-channel pointer into the timer callback slot,
    /// reclaiming the previously installed one first if there was one.
    /// Returns whether the caller must reclaim an old pointer.
    pub fn install_timer(&mut self) -> (reclaim_old: bool)
        requires
            old(self).wf(),
            old(self).leaked < u64::MAX,
        ensures
            final(self).wf(),
            reclaim_old == old(self).timer_installed,
            final(self).timer_installed,
            final(self).socket_installed == old(self).socket_installed,
            final(self).leaked == old(self).leaked + 1,
            final(self).reclaimed == old(self).reclaimed + (if old(self).timer_installed {
                1int
            } else {
                0int
            }),
    {
        let had_old = self.timer_installed;
        if had_old {
            self.reclaimed = self.reclaimed + 1;
        }
        self.leaked = self.leaked + 1;
        self.timer_installed = true;
        had_old
    }

    /// Empties both callback slots at teardown, reclaiming every outstanding
    /// pointer.  Returns which of the two slots the caller must reclaim.
    /// Afterwards the ledger is balanced: everything leaked was reclaimed.
    pub fn release_all(&mut self) -> (r: (bool, bool))
        requires
            old(self).wf(),
        ensures
            final(self).wf(),
            r == (old(self).socket_installed, old(self).timer_installed),
            !final(self).socket_installed,
            !final(self).timer_installed,
            final(self).leaked == old(self).leaked,
            final(self).leaked == final(self).reclaimed,
    {
        let had_socket = self.socket_installed;
        let had_timer = self.timer_installed;
        if had_socket {
            self.reclaimed = self.reclaimed + 1;
        }
        if had_timer {
            self.reclaimed = self.reclaimed + 1;
        }
        self.socket_installed = false;
        self.timer_installed = false;
        (had_socket, had_timer)
    }
}

/// The raw-pointer leaks of the callback context exactly equal the reclaims
/// once both callback slots are empty.  Since installing and releasing keep
/// the ledger well-formed and trampoline invocations never touch it, a full
/// create → install → (any number of trampoline runs) → release cycle ends
/// balanced.
pub proof fn lemma_back_channels_balanced(c: BackChannels)
    requires
        c.wf(),
        !c.socket_installed,
        !c.timer_installed,
    ensures
        c.leaked == c.reclaimed,
{
}

/// What a trampoline invocation forwards to the caller-registered socket
/// callback: the transfer's identity, the native socket, and the native
/// event bits.
pub struct SocketNotice {
    pub identity: u64,
    pub sockfd: i32,
    pub what: i32,
}

/// What a trampoline invocation forwards to the caller-registered timer
/// callback: the multiplexer's identity and the requested timeout.
pub struct TimerNotice {
    pub multi_identity: u64,
    pub timeout_ms: i64,
}

/// Decides one socket-trampoline invocation.  The callback is forwarded only
/// when the back-channel pointer was present and the context's lock could be
/// taken without blocking; otherwise the invocation is skipped.  The native
/// status code is always zero: a socket callback has no cancel sentinel.
pub fn socket_trampoline(
    has_context: bool,
    lock_taken: bool,
    identity: u64,
    sockfd: i32,
    what: i32,
) -> (r: (Option<SocketNotice>, i32))
    ensures
        r.1 == 0,
        r.0 is Some <==> has_context && lock_taken,
        r.0 matches Some(n) ==> n.identity == identity && n.sockfd == sockfd && n.what == what,
{
    if !has_context {
        return (None, 0);
    }
    if !lock_taken {
        return (None, 0);
    }
    (Some(SocketNotice { identity, sockfd, what }), 0)
}

/// Decides one timer-trampoline invocation.  The callback is forwarded only
/// when the back-channel pointer was present and the context's lock could be
/// taken without blocking.  `keep_going` is what the forwarded callback
/// answered; only an invoked callback that answers `false` cancels the timer,
/// reported to the native side as the negative sentinel.
pub fn timer_trampoline(
    has_context: bool,
    lock_taken: bool,
    multi_identity: u64,
    timeout_ms: i64,
    keep_going: bool,
) -> (r: (Option<TimerNotice>, i32))
    ensures
        r.0 is Some <==> has_context && lock_taken,
        r.0 matches Some(n) ==> n.multi_identity == multi_identity && n.timeout_ms == timeout_ms,
        r.1 == (if has_context && lock_taken && !keep_going {
            -1int
        } else {
            0int
        }),
{
    if !has_context {
        return (None, 0);
    }
    if !lock_taken {
        return (None, 0);
    }
    if keep_going {
        (Some(TimerNotice { multi_identity, timeout_ms }), 0)
    } else {
        (Some(TimerNotice { multi_identity, timeout_ms }), -1)
    }
}

} // verus!

//! The handle registry: routes a finished transfer back to its consumer.
//!
//! Each entry links a transfer identity (the native handle's address) to the
//! payload that says what to do when that transfer completes.  An entry is
//! created when a transfer is registered for completion routing and consumed
//! exactly once, when its completion message is drained or the transfer is
//! cancelled.  The registry never holds two entries for one identity.

use vstd::prelude::*;

use crate::errors::MultiError;

verus! {

/// One pending completion route: a transfer identity and its consumer payload.
pub struct RegistryEntry<T> {
    pub identity: u64,
    pub payload: T,
}

/// Some entry of `s` carries this identity.
pub open spec fn seq_has<T>(s: Seq<RegistryEntry<T>>, identity: u64) -> bool {
    exists|i: int| 0 <= i < s.len() && s[i].identity == identity
}

/// The position in `s` of an entry carrying this identity.
pub open spec fn seq_index_of<T>(s: Seq<RegistryEntry<T>>, identity: u64) -> int {
    choose|i: int| 0 <= i < s.len() && s[i].identity == identity
}

/// No two entries of `s` share an identity.
pub open spec fn routes_wf<T>(s: Seq<RegistryEntry<T>>) -> bool {
    forall|i: int, j: int| 0 <= i < j < s.len() ==> s[i].identity != s[j].identity
}

/// The registry of pending completion routes, at most one per identity.
pub struct HandleRegistry<T> {
    entries: Vec<RegistryEntry<T>>,
}

impl<T> View for HandleRegistry<T> {
    type V = Seq<RegistryEntry<T>>;

    closed spec fn view(&self) -> Seq<RegistryEntry<T>> {
        self.entries@
    }
}

impl<T> HandleRegistry<T> {
    /// No two entries share an identity.
    pub open spec fn wf(self) -> bool {
        routes_wf(self@)
    }

    /// Some entry carries this identity.
    pub open spec fn has(self, identity: u64) -> bool {
        seq_has(self@, identity)
    }

    /// The position of the entry carrying this identity.
    pub open spec fn index_of(self, identity: u64) -> int {
        seq_index_of(self@, identity)
    }

    /// In a well-formed registry the entry for an identity is unique: any two
    /// positions holding that identity are the same position.
    pub proof fn lemma_entry_unique(self, identity: u64, i: int, j: int)
        requires
            self.wf(),
            0 <= i < self@.len(),
            0 <= j < self@.len(),
            self@[i].identity == identity,
            self@[j].identity == identity,
        ensures
            i == j,
    {
    }

    pub fn new() -> (r: HandleRegistry<T>)
        ensures
            r@ == Seq::<RegistryEntry<T>>::empty(),
            r.wf(),
    {
        HandleRegistry { entries: Vec::new() }
    }

    pub fn len(&self) -> (n: usize)
        ensures
            n == self@.len(),
    {
        self.entries.len()
    }

    /// Whether a completion route is pending for this identity.
    pub fn contains(&self, identity: u64) -> (r: bool)
        ensures
            r == self.has(identity),
    {
        let n = self.entries.len();
        let mut k: usize = 0;
        while k < n
            invariant
                n == self@.len(),
                0 <= k <= n,
                forall|i: int| 0 <= i < k ==> self@[i].identity != identity,
            decreases n - k,
        {
            if self.entries[k].identity == identity {
                return true;
            }
            k = k + 1;
        }
        false
    }

    /// Stores a completion route for `identity`.  Refused with
    /// `DuplicateRegistration` if one is already pending for that identity;
    /// in that case nothing changes.
    pub fn register(&mut self, identity: u64, payload: T) -> (r: Result<(), MultiError>)
        requires
            old(self).wf(),
        ensures
            final(self).wf(),
            match r {
                Ok(()) => !old(self).has(identity) && final(self)@ == old(self)@.push(
                    RegistryEntry { identity, payload },
                ),
                Err(e) => e is DuplicateRegistration && old(self).has(identity)
                    && final(self)@ == old(self)@,
            },
    {
        if self.contains(identity) {
            return Err(MultiError::DuplicateRegistration);
        }
        self.entries.push(RegistryEntry { identity, payload });
        assert(final(self).wf()) by {
            assert(forall|i: int|
                0 <= i < old(self)@.len() ==> self@[i] == old(self)@[i]);
        }
        Ok(())
    }

    /// Removes and returns the route for `identity`, if one is pending.
    /// Afterwards no entry remains for that identity; every other identity's
    /// presence is untouched.
    pub fn resolve(&mut self, identity: u64) -> (r: Option<T>)
        requires
            old(self).wf(),
        ensures
            final(self).wf(),
            !final(self).has(identity),
            !old(self).has(identity) ==> r is None && final(self)@ == old(self)@,
            old(self).has(identity) ==> r == Some(
                old(self)@[old(self).index_of(identity)].payload,
            ) && final(self)@ == old(self)@.remove(old(self).index_of(identity)),
            forall|other: u64|
                other != identity ==> final(self).has(other) == old(self).has(other),
    {
        let n = self.entries.len();
        let mut k: usize = 0;
        while k < n
            invariant
                self@ == old(self)@,
                old(self).wf(),
                n == self@.len(),
                0 <= k <= n,
                forall|i: int| 0 <= i < k ==> self@[i].identity != identity,
            decreases n - k,
        {
            if self.entries[k].identity == identity {
                proof {
                    assert(old(self).has(identity));
                    old(self).lemma_entry_unique(
                        identity,
                        k as int,
                        old(self).index_of(identity),
                    );
                    lemma_remove_keeps_others(old(self)@, k as int, identity);
                }
                let entry = self.entries.remove(k);
                return Some(entry.payload);
            }
            k = k + 1;
        }
        None
    }

    /// Empties the registry, handing back every pending route in order, so
    /// that teardown can discard each one explicitly instead of leaking it.
    pub fn take_all(&mut self) -> (r: Vec<RegistryEntry<T>>)
        ensures
            r@ == old(self)@,
            final(self)@ == Seq::<RegistryEntry<T>>::empty(),
            final(self).wf(),
    {
        let mut out: Vec<RegistryEntry<T>> = Vec::new();
        core::mem::swap(&mut self.entries, &mut out);
        out
    }
}

/// Removing the one entry at `at` (which carries `identity`) from a sequence
/// with no duplicate identities leaves every other identity's presence as it
/// was, and leaves no entry for `identity`.
pub proof fn lemma_remove_keeps_others<T>(s: Seq<RegistryEntry<T>>, at: int, identity: u64)
    requires
        0 <= at < s.len(),
        s[at].identity == identity,
        routes_wf(s),
    ensures
        routes_wf(s.remove(at)),
        !seq_has(s.remove(at), identity),
        forall|other: u64|
            other != identity ==> seq_has(s.remove(at), other) == seq_has(s, other),
{
    let t = s.remove(at);
    assert forall|i: int| 0 <= i < t.len() implies t[i].identity != identity by {
        if i < at {
            assert(t[i] == s[i]);
        } else {
            assert(t[i] == s[i + 1]);
        }
    }
    assert forall|other: u64|
        other != identity && seq_has(s, other) implies seq_has(t, other) by {
        let i = choose|i: int| 0 <= i < s.len() && s[i].identity == other;
        if i < at {
            assert(t[i] == s[i]);
        } else {
            assert(t[i - 1] == s[i]);
        }
    }
    assert forall|other: u64|
        other != identity && seq_has(t, other) implies seq_has(s, other) by {
        let i = choose|i: int| 0 <= i < t.len() && t[i].identity == other;
        if i < at {
            assert(t[i] == s[i]);
        } else {
            assert(t[i] == s[i + 1]);
        }
    }
    assert forall|i: int, j: int| 0 <= i < j < t.len() implies t[i].identity != t[j].identity by {
        let si: int = if i < at { i } else { i + 1 };
        let sj: int = if j < at { j } else { j + 1 };
        assert(t[i] == s[si]);
        assert(t[j] == s[sj]);
    }
}

} // verus!

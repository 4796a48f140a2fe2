//! The multiplexer wrapper: ownership of the native multiplexer resource and
//! the decisions behind every operation that drives it.
//!
//! The functions here are the single gatekeeper for the native handle: every
//! operation first consults this state (fail fast once closed, reject null
//! transfer handles), and every native outcome is interpreted here (map
//! nonzero statuses to typed errors, tolerate the documented call-again
//! sentinel, detach a finished transfer before routing its result).  The
//! caller performs the native call between the check and the interpretation
//! and never decides anything itself.

use vstd::prelude::*;

use crate::context::BackChannels;
use crate::errors::MultiError;
use crate::registry::{routes_wf, seq_has, seq_index_of, HandleRegistry, RegistryEntry};

verus! {

/// The message kind of a "transfer done" completion message.  Every other
/// kind is consumed from the queue but otherwise ignored.
pub const MSG_DONE: i64 = 1;

/// The status a native drive call answers to say "call again right away".
/// It is documented as a sentinel, not a failure, and is never surfaced.
pub const CALL_AGAIN: i32 = -1;

/// One message copied out of the native completion queue.
#[derive(Clone, Copy)]
pub struct CompletionMessage {
    /// The native message kind; only `MSG_DONE` is meaningful.
    pub kind: i64,
    /// The finished transfer's identity (its native handle address).
    pub identity: u64,
    /// The native result code of the finished transfer.
    pub result_code: i32,
}

/// One routed completion: the payload registered for a finished transfer,
/// together with what the native side reported about it.
pub struct Completion<T> {
    pub identity: u64,
    pub result_code: i32,
    pub payload: T,
}

/// What a closing multiplexer asks its caller to do: reclaim the installed
/// back-channel pointers (each exactly once) and explicitly discard the
/// routes that were still pending.
pub struct CloseTicket<T> {
    pub reclaim_socket: bool,
    pub reclaim_timer: bool,
    pub discarded: Vec<RegistryEntry<T>>,
}

/// No identity occurs twice.
pub open spec fn ids_wf(s: Seq<u64>) -> bool {
    forall|i: int, j: int| 0 <= i < j < s.len() ==> s[i] != s[j]
}

/// The position of `id` in `s`.
pub open spec fn id_index(s: Seq<u64>, id: u64) -> int {
    choose|i: int| 0 <= i < s.len() && s[i] == id
}

/// `s` with the occurrence of `id` taken out, or `s` itself if absent.
pub open spec fn remove_id(s: Seq<u64>, id: u64) -> Seq<u64> {
    if s.contains(id) {
        s.remove(id_index(s, id))
    } else {
        s
    }
}

/// Removing one identity from a duplicate-free sequence keeps it
/// duplicate-free, leaves no occurrence of that identity, and leaves every
/// other identity's membership as it was.
proof fn lemma_remove_id_props(s: Seq<u64>, id: u64)
    requires
        ids_wf(s),
    ensures
        ids_wf(remove_id(s, id)),
        !remove_id(s, id).contains(id),
        forall|other: u64| other != id ==> remove_id(s, id).contains(other) == s.contains(other),
{
    if s.contains(id) {
        let at = id_index(s, id);
        let t = s.remove(at);
        assert forall|i: int| 0 <= i < t.len() implies t[i] != id by {
            if i < at {
                assert(t[i] == s[i]);
            } else {
                assert(t[i] == s[i + 1]);
            }
        }
        assert forall|i: int, j: int| 0 <= i < j < t.len() implies t[i] != t[j] by {
            let si: int = if i < at { i } else { i + 1 };
            let sj: int = if j < at { j } else { j + 1 };
            assert(t[i] == s[si]);
            assert(t[j] == s[sj]);
        }
        assert forall|other: u64| other != id && s.contains(other) implies t.contains(other) by {
            let i = choose|i: int| 0 <= i < s.len() && s[i] == other;
            if i < at {
                assert(t[i] == s[i]);
            } else {
                assert(t[i - 1] == s[i]);
            }
        }
        assert forall|other: u64| other != id && t.contains(other) implies s.contains(other) by {
            let i = choose|i: int| 0 <= i < t.len() && t[i] == other;
            if i < at {
                assert(t[i] == s[i]);
            } else {
                assert(t[i] == s[i + 1]);
            }
        }
    }
}

/// Takes the occurrence of `identity` out of `v`, if there is one.
#[verifier::loop_isolation(false)]
fn vec_remove_id(v: &mut Vec<u64>, identity: u64) -> (removed: bool)
    requires
        ids_wf(old(v)@),
    ensures
        ids_wf(final(v)@),
        removed == old(v)@.contains(identity),
        final(v)@ == remove_id(old(v)@, identity),
        !final(v)@.contains(identity),
        forall|other: u64|
            other != identity ==> final(v)@.contains(other) == old(v)@.contains(other),
{
    proof {
        lemma_remove_id_props(old(v)@, identity);
    }
    let n = v.len();
    let mut k: usize = 0;
    while k < n
        invariant
            v@ == old(v)@,
            ids_wf(v@),
            n == v@.len(),
            0 <= k <= n,
            forall|i: int| 0 <= i < k ==> v@[i] != identity,
        decreases n - k,
    {
        if v[k] == identity {
            proof {
                assert(old(v)@.contains(identity));
                let at = id_index(old(v)@, identity);
                assert(old(v)@[at] == identity);
                assert(at == k as int);
            }
            v.remove(k);
            proof {
                assert(v@ == remove_id(old(v)@, identity));
                assert forall|other: u64|
                    other != identity implies v@.contains(other) == old(v)@.contains(other) by {
                    assert(remove_id(old(v)@, identity).contains(other) == old(v)@.contains(
                        other,
                    ));
                }
            }
            return true;
        }
        k = k + 1;
    }
    false
}

/// The whole drain transition, message by message from the front of the
/// queue: a "done" message first detaches its transfer from the added set,
/// then consumes the pending route for it, if any, emitting one completion;
/// any other message is consumed without effect.
pub open spec fn spec_drain<T>(
    added: Seq<u64>,
    routes: Seq<RegistryEntry<T>>,
    msgs: Seq<CompletionMessage>,
) -> (Seq<u64>, Seq<RegistryEntry<T>>, Seq<Completion<T>>)
    decreases msgs.len(),
{
    if msgs.len() == 0 {
        (added, routes, Seq::<Completion<T>>::empty())
    } else {
        let m = msgs[0];
        let rest = msgs.skip(1);
        if m.kind == MSG_DONE {
            let added1 = remove_id(added, m.identity);
            if seq_has(routes, m.identity) {
                let at = seq_index_of(routes, m.identity);
                let c = Completion {
                    identity: m.identity,
                    result_code: m.result_code,
                    payload: routes[at].payload,
                };
                let step = spec_drain(added1, routes.remove(at), rest);
                (step.0, step.1, seq![c] + step.2)
            } else {
                spec_drain(added1, routes, rest)
            }
        } else {
            spec_drain(added, routes, rest)
        }
    }
}

/// The identities of the "done" messages of `msgs`, in the order the native
/// side reported them.
pub open spec fn done_identities(msgs: Seq<CompletionMessage>) -> Seq<u64>
    decreases msgs.len(),
{
    if msgs.len() == 0 {
        Seq::<u64>::empty()
    } else {
        let rest = done_identities(msgs.skip(1));
        if msgs[0].kind == MSG_DONE {
            seq![msgs[0].identity] + rest
        } else {
            rest
        }
    }
}

/// Completion order follows native completion order, not registration order:
/// when every "done" message finds a registered route and no two "done"
/// messages name the same transfer, draining emits exactly the done
/// identities, in message order — whatever order the routes were registered
/// in.
pub proof fn lemma_drain_order<T>(
    added: Seq<u64>,
    routes: Seq<RegistryEntry<T>>,
    msgs: Seq<CompletionMessage>,
)
    requires
        routes_wf(routes),
        forall|k: int|
            0 <= k < msgs.len() && msgs[k].kind == MSG_DONE ==> seq_has(
                routes,
                #[trigger] msgs[k].identity,
            ),
        forall|k1: int, k2: int|
            0 <= k1 < k2 < msgs.len() && msgs[k1].kind == MSG_DONE && msgs[k2].kind == MSG_DONE
                ==> msgs[k1].identity != msgs[k2].identity,
    ensures
        spec_drain(added, routes, msgs).2.map_values(|c: Completion<T>| c.identity)
            == done_identities(msgs),
    decreases msgs.len(),
{
    if msgs.len() == 0 {
        assert(spec_drain(added, routes, msgs).2.map_values(|c: Completion<T>| c.identity)
            =~= Seq::<u64>::empty());
    } else {
        let m = msgs[0];
        let rest = msgs.skip(1);
        assert forall|k1: int, k2: int|
            0 <= k1 < k2 < rest.len() && rest[k1].kind == MSG_DONE && rest[k2].kind
                == MSG_DONE implies rest[k1].identity != rest[k2].identity by {
            assert(rest[k1] == msgs[k1 + 1]);
            assert(rest[k2] == msgs[k2 + 1]);
        }
        if m.kind == MSG_DONE {
            assert forall|k: int|
                0 <= k < rest.len() && rest[k].kind == MSG_DONE implies rest[k].identity
                != m.identity by {
                assert(rest[k] == msgs[k + 1]);
            }
            assert(seq_has(routes, m.identity));
            let at = seq_index_of(routes, m.identity);
            let routes1 = routes.remove(at);
            crate::registry::lemma_remove_keeps_others(routes, at, m.identity);
            assert forall|k: int|
                0 <= k < rest.len() && rest[k].kind == MSG_DONE implies seq_has(
                routes1,
                #[trigger] rest[k].identity,
            ) by {
                assert(rest[k] == msgs[k + 1]);
                assert(seq_has(routes, rest[k].identity));
            }
            let added1 = remove_id(added, m.identity);
            lemma_drain_order(added1, routes1, rest);
            let c = Completion {
                identity: m.identity,
                result_code: m.result_code,
                payload: routes[at].payload,
            };
            let tail = spec_drain(added1, routes1, rest).2;
            assert((seq![c] + tail).map_values(|c: Completion<T>| c.identity) =~= seq![
                m.identity,
            ] + tail.map_values(|c: Completion<T>| c.identity));
        } else {
            assert forall|k: int|
                0 <= k < rest.len() && rest[k].kind == MSG_DONE implies seq_has(
                routes,
                #[trigger] rest[k].identity,
            ) by {
                assert(rest[k] == msgs[k + 1]);
            }
            lemma_drain_order(added, routes, rest);
        }
    }
}

/// Every completion a drain emits consumes a route that was pending when
/// the drain began.
proof fn lemma_drain_completions_come_from_routes<T>(
    added: Seq<u64>,
    routes: Seq<RegistryEntry<T>>,
    msgs: Seq<CompletionMessage>,
)
    ensures
        forall|k: int|
            0 <= k < spec_drain(added, routes, msgs).2.len() ==> seq_has(
                routes,
                #[trigger] spec_drain(added, routes, msgs).2[k].identity,
            ),
    decreases msgs.len(),
{
    if msgs.len() > 0 {
        let m = msgs[0];
        let rest = msgs.skip(1);
        let c = spec_drain(added, routes, msgs).2;
        if m.kind == MSG_DONE {
            let added1 = remove_id(added, m.identity);
            if seq_has(routes, m.identity) {
                let at = seq_index_of(routes, m.identity);
                let routes1 = routes.remove(at);
                lemma_drain_completions_come_from_routes(added1, routes1, rest);
                let tail = spec_drain(added1, routes1, rest).2;
                let c0 = Completion {
                    identity: m.identity,
                    result_code: m.result_code,
                    payload: routes[at].payload,
                };
                assert(c =~= seq![c0] + tail);
                assert forall|k: int| 0 <= k < c.len() implies seq_has(
                    routes,
                    #[trigger] c[k].identity,
                ) by {
                    if k == 0 {
                        assert(c[0].identity == m.identity);
                    } else {
                        assert(c[k] == tail[k - 1]);
                        assert(seq_has(routes1, tail[k - 1].identity));
                        let i = seq_index_of(routes1, tail[k - 1].identity);
                        assert(0 <= i < routes1.len() && routes1[i].identity == tail[
                            k - 1
                        ].identity);
                        if i < at {
                            assert(routes1[i] == routes[i]);
                        } else {
                            assert(routes1[i] == routes[i + 1]);
                        }
                    }
                }
            } else {
                lemma_drain_completions_come_from_routes(added1, routes, rest);
                let tail = spec_drain(added1, routes, rest).2;
                assert(c =~= tail);
                assert forall|k: int| 0 <= k < c.len() implies seq_has(
                    routes,
                    #[trigger] c[k].identity,
                ) by {
                    assert(c[k] == tail[k]);
                    assert(seq_has(routes, tail[k].identity));
                }
            }
        } else {
            lemma_drain_completions_come_from_routes(added, routes, rest);
            let tail = spec_drain(added, routes, rest).2;
            assert(c =~= tail);
            assert forall|k: int| 0 <= k < c.len() implies seq_has(
                routes,
                #[trigger] c[k].identity,
            ) by {
                assert(c[k] == tail[k]);
                assert(seq_has(routes, tail[k].identity));
            }
        }
    }
}

/// A pending route is resolved at most once: one drain never emits two
/// completions for the same transfer, because a "done" message consumes the
/// route before any later message is looked at.
pub proof fn lemma_drain_resolves_at_most_once<T>(
    added: Seq<u64>,
    routes: Seq<RegistryEntry<T>>,
    msgs: Seq<CompletionMessage>,
)
    requires
        routes_wf(routes),
    ensures
        forall|i: int, j: int|
            0 <= i < j < spec_drain(added, routes, msgs).2.len() ==> spec_drain(
                added,
                routes,
                msgs,
            ).2[i].identity != spec_drain(added, routes, msgs).2[j].identity,
    decreases msgs.len(),
{
    if msgs.len() > 0 {
        let m = msgs[0];
        let rest = msgs.skip(1);
        let c = spec_drain(added, routes, msgs).2;
        if m.kind == MSG_DONE {
            let added1 = remove_id(added, m.identity);
            if seq_has(routes, m.identity) {
                let at = seq_index_of(routes, m.identity);
                let routes1 = routes.remove(at);
                crate::registry::lemma_remove_keeps_others(routes, at, m.identity);
                lemma_drain_resolves_at_most_once(added1, routes1, rest);
                lemma_drain_completions_come_from_routes(added1, routes1, rest);
                let tail = spec_drain(added1, routes1, rest).2;
                let c0 = Completion {
                    identity: m.identity,
                    result_code: m.result_code,
                    payload: routes[at].payload,
                };
                assert(c =~= seq![c0] + tail);
                assert forall|i: int, j: int| 0 <= i < j < c.len() implies c[i].identity != c[
                    j
                ].identity by {
                    if i == 0 {
                        assert(c[0].identity == m.identity);
                        assert(c[j] == tail[j - 1]);
                        assert(seq_has(routes1, tail[j - 1].identity));
                        assert(!seq_has(routes1, m.identity));
                    } else {
                        assert(c[i] == tail[i - 1]);
                        assert(c[j] == tail[j - 1]);
                    }
                }
            } else {
                lemma_drain_resolves_at_most_once(added1, routes, rest);
                let tail = spec_drain(added1, routes, rest).2;
                assert(c =~= tail);
                assert forall|i: int, j: int| 0 <= i < j < c.len() implies c[i].identity != c[
                    j
                ].identity by {
                    assert(c[i] == tail[i]);
                    assert(c[j] == tail[j]);
                }
            }
        } else {
            lemma_drain_resolves_at_most_once(added, routes, rest);
            let tail = spec_drain(added, routes, rest).2;
            assert(c =~= tail);
            assert forall|i: int, j: int| 0 <= i < j < c.len() implies c[i].identity != c[
                j
            ].identity by {
                assert(c[i] == tail[i]);
                assert(c[j] == tail[j]);
            }
        }
    }
}

/// Draining only consumes routes, never creates one: every route still
/// pending after a drain was pending before it.  In particular, once a
/// transfer was removed and its route resolved, no drain can bring an entry
/// for that identity back.
pub proof fn lemma_drain_only_consumes_routes<T>(
    added: Seq<u64>,
    routes: Seq<RegistryEntry<T>>,
    msgs: Seq<CompletionMessage>,
)
    ensures
        forall|id: u64|
            seq_has(#[trigger] spec_drain(added, routes, msgs).1, id) ==> seq_has(routes, id),
    decreases msgs.len(),
{
    if msgs.len() > 0 {
        let m = msgs[0];
        let rest = msgs.skip(1);
        let left = spec_drain(added, routes, msgs).1;
        if m.kind == MSG_DONE {
            let added1 = remove_id(added, m.identity);
            if seq_has(routes, m.identity) {
                let at = seq_index_of(routes, m.identity);
                let routes1 = routes.remove(at);
                lemma_drain_only_consumes_routes(added1, routes1, rest);
                assert(left == spec_drain(added1, routes1, rest).1);
                assert forall|id: u64| seq_has(left, id) implies seq_has(routes, id) by {
                    assert(seq_has(routes1, id));
                    let i = seq_index_of(routes1, id);
                    assert(0 <= i < routes1.len() && routes1[i].identity == id);
                    if i < at {
                        assert(routes1[i] == routes[i]);
                    } else {
                        assert(routes1[i] == routes[i + 1]);
                    }
                }
            } else {
                lemma_drain_only_consumes_routes(added1, routes, rest);
                assert(left == spec_drain(added1, routes, rest).1);
            }
        } else {
            lemma_drain_only_consumes_routes(added, routes, rest);
            assert(left == spec_drain(added, routes, rest).1);
        }
    }
}

/// What a routed completion tells its consumer.
pub enum TransferOutcome {
    /// No transport error: the consumer gets the transfer's response code.
    Success { response_code: i64 },
    /// A transport error: the consumer gets the native result code and the
    /// message text the native error-string accessor produced for it.
    Failure { code: i32, message: String },
}

/// Routes one drained completion to its consumer's side: a zero native
/// result code means success (carrying the response code read from the
/// transfer itself), and any other code means failure, with the native
/// error text attached.
pub fn route_completion(result_code: i32, response_code: i64, strerror_text: String) -> (o:
    TransferOutcome)
    ensures
        result_code == 0 ==> (o matches TransferOutcome::Success { response_code: rc } && rc
            == response_code),
        result_code != 0 ==> (o matches TransferOutcome::Failure { code, message } && code
            == result_code && message@ == strerror_text@),
{
    if result_code == 0 {
        TransferOutcome::Success { response_code }
    } else {
        TransferOutcome::Failure { code: result_code, message: strerror_text }
    }
}

/// The outcome delivered to a pending route whose transfer was removed
/// before its completion message was drained: the registration is resolved
/// as cancelled rather than left dangling.
pub fn cancellation_outcome() -> (e: MultiError)
    ensures
        e is Cancelled,
{
    MultiError::Cancelled
}

/// The multiplexer wrapper's own state: whether it was closed, the
/// back-channel ledger of its callback context, the identities the native
/// multiplexer currently knows, and the pending completion routes.
pub struct Multiplexer<T> {
    closed: bool,
    channels: BackChannels,
    added: Vec<u64>,
    registry: HandleRegistry<T>,
}

impl<T> Multiplexer<T> {
    /// Whether `close` already ran.
    pub closed spec fn spec_closed(self) -> bool {
        self.closed
    }

    /// The back-channel ledger of the callback context.
    pub closed spec fn ledger(self) -> BackChannels {
        self.channels
    }

    /// The identities currently added to the native multiplexer.
    pub closed spec fn added_seq(self) -> Seq<u64> {
        self.added@
    }

    /// The pending completion routes.
    pub closed spec fn routes(self) -> Seq<RegistryEntry<T>> {
        self.registry@
    }

    /// Validity: no duplicate identities anywhere, a route only for a
    /// transfer the multiplexer knows, a balanced back-channel ledger, and
    /// nothing left behind once closed.
    pub open spec fn wf(self) -> bool {
        &&& ids_wf(self.added_seq())
        &&& routes_wf(self.routes())
        &&& forall|id: u64| seq_has(self.routes(), id) ==> self.added_seq().contains(id)
        &&& self.ledger().wf()
        &&& self.spec_closed() ==> !self.ledger().socket_installed
            && !self.ledger().timer_installed && self.added_seq().len() == 0
            && self.routes().len() == 0
    }

    /// Interprets the native allocation of a multiplexer: a null handle
    /// (address zero) means the resource could not be created.
    pub fn create(handle_addr: u64) -> (r: Result<Multiplexer<T>, MultiError>)
        ensures
            handle_addr == 0 ==> (r matches Err(e) && e is InitializationError),
            handle_addr != 0 ==> (r matches Ok(m) && m.wf() && !m.spec_closed()
                && m.added_seq().len() == 0 && m.routes().len() == 0 && m.ledger().leaked == 0
                && m.ledger().reclaimed == 0 && !m.ledger().socket_installed
                && !m.ledger().timer_installed),
    {
        if handle_addr == 0 {
            return Err(MultiError::InitializationError);
        }
        Ok(
            Multiplexer {
                closed: false,
                channels: BackChannels::new(),
                added: Vec::new(),
                registry: HandleRegistry::new(),
            },
        )
    }

    /// Fails fast once the multiplexer was closed; every operation asks this
    /// before touching the native handle.
    pub fn check_close(&self) -> (r: Result<(), MultiError>)
        ensures
            r is Ok <==> !self.spec_closed(),
            r matches Err(e) ==> e is ClosedResource,
    {
        if self.closed {
            return Err(MultiError::ClosedResource);
        }
        Ok(())
    }

    /// How many strong references were turned into raw back-channel pointers
    /// and how many were turned back, so far.
    pub fn leak_ledger(&self) -> (r: (u64, u64))
        ensures
            r == (self.ledger().leaked, self.ledger().reclaimed),
    {
        (self.channels.leaked, self.channels.reclaimed)
    }

    /// Accounts for installing the socket-watch trampoline: one more strong
    /// reference is leaked into the native slot, and the previously installed
    /// pointer, if any, must be reclaimed by the caller first.
    pub fn set_socket_callback(&mut self) -> (r: Result<bool, MultiError>)
        requires
            old(self).wf(),
            old(self).ledger().leaked < u64::MAX,
        ensures
            final(self).wf(),
            old(self).spec_closed() ==> (r matches Err(e) && e is ClosedResource && *final(self)
                == *old(self)),
            !old(self).spec_closed() ==> (r matches Ok(reclaim_old) && reclaim_old == old(self).ledger().socket_installed && final(self).ledger().socket_installed && final(self).ledger().timer_installed == old(self).ledger().timer_installed && final(self).ledger().leaked == old(self).ledger().leaked + 1 && !final(self).spec_closed()
                && final(self).added_seq() == old(self).added_seq() && final(self).routes()
                == old(self).routes()),
    {
        if self.closed {
            return Err(MultiError::ClosedResource);
        }
        let reclaim_old = self.channels.install_socket();
        Ok(reclaim_old)
    }

    /// Accounts for installing the timer trampoline, exactly as
    /// `set_socket_callback` does for the socket slot.
    pub fn set_timer_callback(&mut self) -> (r: Result<bool, MultiError>)
        requires
            old(self).wf(),
            old(self).ledger().leaked < u64::MAX,
        ensures
            final(self).wf(),
            old(self).spec_closed() ==> (r matches Err(e) && e is ClosedResource && *final(self)
                == *old(self)),
            !old(self).spec_closed() ==> (r matches Ok(reclaim_old) && reclaim_old == old(self).ledger().timer_installed && final(self).ledger().timer_installed && final(self).ledger().socket_installed == old(self).ledger().socket_installed && final(self).ledger().leaked == old(self).ledger().leaked + 1 && !final(self).spec_closed()
                && final(self).added_seq() == old(self).added_seq() && final(self).routes()
                == old(self).routes()),
    {
        if self.closed {
            return Err(MultiError::ClosedResource);
        }
        let reclaim_old = self.channels.install_timer();
        Ok(reclaim_old)
    }

    /// The checks that precede the native add-handle call: the multiplexer
    /// must be open and the transfer's native handle must not be null.
    pub fn prepare_add(&self, identity: u64) -> (r: Result<(), MultiError>)
        ensures
            r is Ok <==> (!self.spec_closed() && identity != 0),
            self.spec_closed() ==> (r matches Err(e) && e is ClosedResource),
            !self.spec_closed() && identity == 0 ==> (r matches Err(e) && e is InvalidHandle),
    {
        if self.closed {
            return Err(MultiError::ClosedResource);
        }
        if identity == 0 {
            return Err(MultiError::InvalidHandle);
        }
        Ok(())
    }

    /// Interprets the native add-handle outcome.  A nonzero status becomes
    /// `AddError` with the native text and nothing changes; on success the
    /// multiplexer now knows the transfer.
    #[verifier::loop_isolation(false)]
    pub fn apply_add(&mut self, identity: u64, code: i32, strerror_text: String) -> (r: Result<
        (),
        MultiError,
    >)
        requires
            old(self).wf(),
            !old(self).spec_closed(),
            identity != 0,
        ensures
            final(self).wf(),
            !final(self).spec_closed(),
            final(self).ledger() == old(self).ledger(),
            final(self).routes() == old(self).routes(),
            code != 0 ==> (r matches Err(e) && e matches (MultiError::AddError {
                code: c,
                message: m,
            }) && c == code && m@ == strerror_text@ && final(self).added_seq() == old(self).added_seq()),
            code == 0 ==> r is Ok && final(self).added_seq() == (if old(self).added_seq().contains(identity) {
                old(self).added_seq()
            } else {
                old(self).added_seq().push(identity)
            }),
            code == 0 ==> final(self).added_seq().contains(identity),
    {
        if code != 0 {
            return Err(MultiError::AddError { code, message: strerror_text });
        }
        let mut k: usize = 0;
        let n = self.added.len();
        while k < n
            invariant
                self == old(self),
                n == self.added@.len(),
                0 <= k <= n,
                forall|i: int| 0 <= i < k ==> self.added@[i] != identity,
            decreases n - k,
        {
            if self.added[k] == identity {
                return Ok(());
            }
            k = k + 1;
        }
        self.added.push(identity);
        proof {
            assert forall|id: u64| seq_has(self.routes(), id) implies self.added_seq().contains(
                id,
            ) by {
                assert(old(self).added_seq().contains(id));
                let i = choose|i: int|
                    0 <= i < old(self).added_seq().len() && old(self).added_seq()[i] == id;
                assert(self.added_seq()[i] == id);
            }
            assert(self.added_seq().contains(identity)) by {
                assert(self.added_seq()[self.added_seq().len() - 1] == identity);
            }
        }
        Ok(())
    }

    /// How many transfers the multiplexer currently knows.
    pub fn transfer_count(&self) -> (n: usize)
        ensures
            n == self.added_seq().len(),
    {
        self.added.len()
    }

    /// How many completion routes are still pending.
    pub fn pending_routes(&self) -> (n: usize)
        ensures
            n == self.routes().len(),
    {
        self.registry.len()
    }

    /// Whether the multiplexer currently knows a transfer with this identity.
    pub fn knows_transfer(&self, identity: u64) -> (r: bool)
        ensures
            r == self.added_seq().contains(identity),
    {
        let n = self.added.len();
        let mut k: usize = 0;
        while k < n
            invariant
                n == self.added@.len(),
                0 <= k <= n,
                forall|i: int| 0 <= i < k ==> self.added@[i] != identity,
            decreases n - k,
        {
            if self.added[k] == identity {
                return true;
            }
            k = k + 1;
        }
        false
    }

    /// The checks that precede the native remove-handle call.
    pub fn prepare_remove(&self, identity: u64) -> (r: Result<(), MultiError>)
        ensures
            r is Ok <==> (!self.spec_closed() && identity != 0),
            self.spec_closed() ==> (r matches Err(e) && e is ClosedResource),
            !self.spec_closed() && identity == 0 ==> (r matches Err(e) && e is InvalidHandle),
    {
        if self.closed {
            return Err(MultiError::ClosedResource);
        }
        if identity == 0 {
            return Err(MultiError::InvalidHandle);
        }
        Ok(())
    }

    /// Forgets a transfer after the native remove-handle call.  Removing a
    /// transfer the multiplexer no longer knows is a successful no-op.  A
    /// route still pending for it is handed back so the caller can resolve
    /// it as cancelled instead of leaving it dangling.
    pub fn apply_remove(&mut self, identity: u64) -> (cancelled: Option<T>)
        requires
            old(self).wf(),
            !old(self).spec_closed(),
        ensures
            final(self).wf(),
            !final(self).spec_closed(),
            final(self).ledger() == old(self).ledger(),
            final(self).added_seq() == remove_id(old(self).added_seq(), identity),
            !final(self).added_seq().contains(identity),
            !seq_has(final(self).routes(), identity),
            seq_has(old(self).routes(), identity) ==> cancelled == Some(
                old(self).routes()[seq_index_of(old(self).routes(), identity)].payload,
            ) && final(self).routes() == old(self).routes().remove(
                seq_index_of(old(self).routes(), identity),
            ),
            !seq_has(old(self).routes(), identity) ==> cancelled is None && final(self).routes()
                == old(self).routes(),
            forall|other: u64|
                other != identity ==> final(self).added_seq().contains(other) == old(self).added_seq().contains(other),
            forall|other: u64|
                other != identity ==> seq_has(final(self).routes(), other) == seq_has(
                    old(self).routes(),
                    other,
                ),
    {
        vec_remove_id(&mut self.added, identity);
        let cancelled = self.registry.resolve(identity);
        proof {
            assert(!self.registry.has(identity));
            assert forall|other: u64|
                other != identity implies seq_has(self.routes(), other) == seq_has(
                old(self).routes(),
                other,
            ) by {
                assert(self.registry.has(other) == old(self).registry.has(other));
            }
            assert forall|id: u64| seq_has(self.routes(), id) implies self.added_seq().contains(
                id,
            ) by {
                assert(self.registry.has(id));
                assert(id != identity);
                assert(old(self).registry.has(id));
                assert(seq_has(old(self).routes(), id));
                assert(old(self).added_seq().contains(id));
            }
        }
        cancelled
    }

    /// Registers the completion route for a transfer the multiplexer knows.
    /// Refused with `DuplicateRegistration` if a route is already pending for
    /// that identity, with `ClosedResource` after close, and with
    /// `InvalidHandle` for a transfer the multiplexer does not know.
    #[verifier::loop_isolation(false)]
    pub fn register_for_completion(&mut self, identity: u64, payload: T) -> (r: Result<
        (),
        MultiError,
    >)
        requires
            old(self).wf(),
        ensures
            final(self).wf(),
            final(self).spec_closed() == old(self).spec_closed(),
            final(self).ledger() == old(self).ledger(),
            final(self).added_seq() == old(self).added_seq(),
            old(self).spec_closed() ==> (r matches Err(e) && e is ClosedResource && *final(self)
                == *old(self)),
            !old(self).spec_closed() && !old(self).added_seq().contains(identity) ==> (
            r matches Err(e) && e is InvalidHandle && *final(self) == *old(self)),
            !old(self).spec_closed() && old(self).added_seq().contains(identity) && seq_has(
                old(self).routes(),
                identity,
            ) ==> (r matches Err(e) && e is DuplicateRegistration && final(self).routes() == old(
                self,
            ).routes()),
            !old(self).spec_closed() && old(self).added_seq().contains(identity) && !seq_has(
                old(self).routes(),
                identity,
            ) ==> r is Ok && final(self).routes() == old(self).routes().push(
                RegistryEntry { identity, payload },
            ),
    {
        if self.closed {
            return Err(MultiError::ClosedResource);
        }
        let known = self.knows_transfer(identity);
        if !known {
            return Err(MultiError::InvalidHandle);
        }
        let r = self.registry.register(identity, payload);
        proof {
            if r is Ok {
                assert forall|id: u64| seq_has(self.routes(), id) implies self
                    .added_seq()
                    .contains(id) by {
                    let i = choose|i: int|
                        0 <= i < self.routes().len() && self.routes()[i].identity == id;
                    if i < old(self).routes().len() {
                        assert(old(self).routes()[i].identity == id);
                        assert(seq_has(old(self).routes(), id));
                        assert(old(self).added_seq().contains(id));
                    } else {
                        assert(id == identity);
                    }
                }
            } else {
                assert(self.routes() == old(self).routes());
                assert forall|id: u64| seq_has(self.routes(), id) implies self
                    .added_seq()
                    .contains(id) by {
                    assert(seq_has(old(self).routes(), id));
                }
            }
        }
        r
    }

    /// Interprets the outcome of a native set-option call: any nonzero
    /// status becomes `OptionError` with the native text.
    pub fn apply_setopt_result(&self, code: i32, strerror_text: String) -> (r: Result<
        (),
        MultiError,
    >)
        ensures
            self.spec_closed() ==> (r matches Err(e) && e is ClosedResource),
            !self.spec_closed() && code == 0 ==> r is Ok,
            !self.spec_closed() && code != 0 ==> (r matches Err(e) && e matches (
            MultiError::OptionError { code: c, message: m }) && c == code && m@
                == strerror_text@),
    {
        if self.closed {
            return Err(MultiError::ClosedResource);
        }
        if code != 0 {
            return Err(MultiError::OptionError { code, message: strerror_text });
        }
        Ok(())
    }

    /// Interprets the outcome of a non-blocking perform step.  The documented
    /// call-again sentinel is tolerated; any other nonzero status becomes
    /// `ActionError` with the native text.  On success the still-running
    /// transfer count is handed through.
    pub fn apply_perform_result(&self, code: i32, running: i32, strerror_text: String) -> (r:
        Result<i32, MultiError>)
        ensures
            self.spec_closed() ==> (r matches Err(e) && e is ClosedResource),
            !self.spec_closed() && (code == 0 || code == CALL_AGAIN) ==> r == Ok::<
                i32,
                MultiError,
            >(running),
            !self.spec_closed() && code != 0 && code != CALL_AGAIN ==> (r matches Err(e)
                && e matches (MultiError::ActionError { code: c, message: m }) && c == code && m@
                == strerror_text@),
    {
        if self.closed {
            return Err(MultiError::ClosedResource);
        }
        if code != 0 && code != CALL_AGAIN {
            return Err(MultiError::ActionError { code, message: strerror_text });
        }
        Ok(running)
    }

    /// Interprets the outcome of a socket-driven progress step, with the same
    /// tolerance for the call-again sentinel as a perform step.
    pub fn apply_socket_action_result(
        &self,
        code: i32,
        running: i32,
        strerror_text: String,
    ) -> (r: Result<i32, MultiError>)
        ensures
            self.spec_closed() ==> (r matches Err(e) && e is ClosedResource),
            !self.spec_closed() && (code == 0 || code == CALL_AGAIN) ==> r == Ok::<
                i32,
                MultiError,
            >(running),
            !self.spec_closed() && code != 0 && code != CALL_AGAIN ==> (r matches Err(e)
                && e matches (MultiError::ActionError { code: c, message: m }) && c == code && m@
                == strerror_text@),
    {
        if self.closed {
            return Err(MultiError::ClosedResource);
        }
        if code != 0 && code != CALL_AGAIN {
            return Err(MultiError::ActionError { code, message: strerror_text });
        }
        Ok(running)
    }

    /// Interprets the outcome of a blocking poll or wait step: those have no
    /// call-again sentinel, so any nonzero status is an `ActionError`.
    pub fn apply_poll_result(&self, code: i32, running: i32, strerror_text: String) -> (r: Result<
        i32,
        MultiError,
    >)
        ensures
            self.spec_closed() ==> (r matches Err(e) && e is ClosedResource),
            !self.spec_closed() && code == 0 ==> r == Ok::<i32, MultiError>(running),
            !self.spec_closed() && code != 0 ==> (r matches Err(e) && e matches (
            MultiError::ActionError { code: c, message: m }) && c == code && m@
                == strerror_text@),
    {
        if self.closed {
            return Err(MultiError::ClosedResource);
        }
        if code != 0 {
            return Err(MultiError::ActionError { code, message: strerror_text });
        }
        Ok(running)
    }

    /// Drains a snapshot of the native completion queue.  Messages are
    /// processed in the order the native side reported them; each "done"
    /// message detaches its transfer before the pending route for it is
    /// consumed, so the same transfer can never be routed twice.  The routed
    /// completions come back in that same native order.
    #[verifier::loop_isolation(false)]
    pub fn drain(&mut self, msgs: &Vec<CompletionMessage>) -> (done: Vec<Completion<T>>)
        requires
            old(self).wf(),
        ensures
            final(self).wf(),
            final(self).spec_closed() == old(self).spec_closed(),
            final(self).ledger() == old(self).ledger(),
            ({
                let step = spec_drain(old(self).added_seq(), old(self).routes(), msgs@);
                final(self).added_seq() == step.0 && final(self).routes() == step.1 && done@
                    == step.2
            }),
    {
        let mut done: Vec<Completion<T>> = Vec::new();
        let n = msgs.len();
        let mut i: usize = 0;
        proof {
            let whole = spec_drain(self.added_seq(), self.routes(), msgs@);
            assert(msgs@.skip(0) =~= msgs@);
            assert(done@ + whole.2 =~= whole.2);
        }
        while i < n
            invariant
                self.wf(),
                self.spec_closed() == old(self).spec_closed(),
                self.ledger() == old(self).ledger(),
                n == msgs@.len(),
                0 <= i <= n,
                ({
                    let whole = spec_drain(old(self).added_seq(), old(self).routes(), msgs@);
                    let rest = spec_drain(self.added_seq(), self.routes(), msgs@.skip(i as int));
                    whole.0 == rest.0 && whole.1 == rest.1 && whole.2 == done@ + rest.2
                }),
            decreases n - i,
        {
            let ghost pre = *self;
            let ghost done_pre = done@;
            let m = msgs[i];
            proof {
                assert(msgs@.skip(i as int)[0] == msgs@[i as int]);
                assert(msgs@.skip(i as int).skip(1) =~= msgs@.skip(i as int + 1));
            }
            if m.kind == MSG_DONE {
                vec_remove_id(&mut self.added, m.identity);
                let resolved = self.registry.resolve(m.identity);
                proof {
                    assert(!self.registry.has(m.identity));
                    assert forall|id: u64| seq_has(self.routes(), id) implies self
                        .added_seq()
                        .contains(id) by {
                        assert(self.registry.has(id));
                        assert(id != m.identity);
                        assert(pre.registry.has(id) == self.registry.has(id));
                        assert(seq_has(pre.routes(), id));
                        assert(pre.added_seq().contains(id));
                    }
                }
                match resolved {
                    Some(payload) => {
                        done.push(
                            Completion {
                                identity: m.identity,
                                result_code: m.result_code,
                                payload,
                            },
                        );
                        proof {
                            let rest_pre = spec_drain(
                                pre.added_seq(),
                                pre.routes(),
                                msgs@.skip(i as int),
                            );
                            let rest_post = spec_drain(
                                self.added_seq(),
                                self.routes(),
                                msgs@.skip(i as int + 1),
                            );
                            let c = Completion {
                                identity: m.identity,
                                result_code: m.result_code,
                                payload,
                            };
                            assert(seq_has(pre.routes(), m.identity));
                            assert(self.added_seq() == remove_id(
                                pre.added_seq(),
                                m.identity,
                            ));
                            assert(self.routes() == pre.routes().remove(
                                seq_index_of(pre.routes(), m.identity),
                            ));
                            assert(rest_pre.0 == rest_post.0);
                            assert(rest_pre.1 == rest_post.1);
                            assert(rest_pre.2 =~= seq![c] + rest_post.2);
                            assert(done@ =~= done_pre.push(c));
                            assert(done_pre + rest_pre.2 =~= done@ + rest_post.2);
                        }
                    },
                    None => {
                        proof {
                            assert(!seq_has(pre.routes(), m.identity));
                            let rest_pre = spec_drain(
                                pre.added_seq(),
                                pre.routes(),
                                msgs@.skip(i as int),
                            );
                            let rest_post = spec_drain(
                                self.added_seq(),
                                self.routes(),
                                msgs@.skip(i as int + 1),
                            );
                            assert(self.added_seq() == remove_id(
                                pre.added_seq(),
                                m.identity,
                            ));
                            assert(rest_pre.0 == rest_post.0);
                            assert(rest_pre.1 == rest_post.1);
                            assert(rest_pre.2 == rest_post.2);
                        }
                    },
                }
            } else {
                proof {
                    let rest_pre = spec_drain(
                        self.added_seq(),
                        self.routes(),
                        msgs@.skip(i as int),
                    );
                    let rest_post = spec_drain(
                        self.added_seq(),
                        self.routes(),
                        msgs@.skip(i as int + 1),
                    );
                    assert(rest_pre.0 == rest_post.0);
                    assert(rest_pre.1 == rest_post.1);
                    assert(rest_pre.2 == rest_post.2);
                }
            }
            i = i + 1;
        }
        proof {
            assert(msgs@.skip(n as int) =~= Seq::<CompletionMessage>::empty());
            let rest = spec_drain(self.added_seq(), self.routes(), msgs@.skip(n as int));
            assert(rest.2 =~= Seq::<Completion<T>>::empty());
            assert(done@ + rest.2 =~= done@);
        }
        done
    }

    /// Tears the multiplexer down.  The first call empties both callback
    /// slots (so no trampoline can fire during native cleanup), asks the
    /// caller to reclaim exactly the pointers that were installed, and hands
    /// back every still-pending route for explicit discarding; afterwards the
    /// leak ledger is balanced.  Any further call changes nothing and asks
    /// for nothing.
    pub fn close(&mut self) -> (r: CloseTicket<T>)
        requires
            old(self).wf(),
        ensures
            final(self).wf(),
            final(self).spec_closed(),
            old(self).spec_closed() ==> *final(self) == *old(self) && !r.reclaim_socket
                && !r.reclaim_timer && r.discarded@ == Seq::<RegistryEntry<T>>::empty(),
            !old(self).spec_closed() ==> r.reclaim_socket == old(self).ledger().socket_installed
                && r.reclaim_timer == old(self).ledger().timer_installed && r.discarded@ == old(self).routes() && final(self).ledger().leaked == old(self).ledger().leaked,
            final(self).ledger().leaked == final(self).ledger().reclaimed,
            final(self).added_seq().len() == 0,
            final(self).routes().len() == 0,
    {
        if self.closed {
            proof {
                crate::context::lemma_back_channels_balanced(self.channels);
            }
            return CloseTicket { reclaim_socket: false, reclaim_timer: false, discarded: Vec::new() };
        }
        self.closed = true;
        let (reclaim_socket, reclaim_timer) = self.channels.release_all();
        let discarded = self.registry.take_all();
        self.added.clear();
        CloseTicket { reclaim_socket, reclaim_timer, discarded }
    }
}

} // verus!

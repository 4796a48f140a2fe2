use curlmux::adapter::{adapter_decide, DriveStep, TransferSession};
use curlmux::context::{socket_trampoline, timer_trampoline, BackChannels};
use curlmux::multi::{
    cancellation_outcome, route_completion, CompletionMessage, Multiplexer, TransferOutcome,
    CALL_AGAIN, MSG_DONE,
};
use curlmux::MultiError;

fn msg(kind: i64, identity: u64, result_code: i32) -> CompletionMessage {
    CompletionMessage {
        kind,
        identity,
        result_code,
    }
}

#[test]
fn create_rejects_null_handle() {
    let r = Multiplexer::<u32>::create(0);
    assert!(matches!(r, Err(MultiError::InitializationError)));
}

#[test]
fn create_accepts_live_handle() {
    let m = Multiplexer::<u32>::create(0x1000).unwrap();
    assert!(m.check_close().is_ok());
}

#[test]
fn duplicate_registration_is_refused() {
    let mut m = Multiplexer::<u32>::create(1).unwrap();
    m.prepare_add(7).unwrap();
    m.apply_add(7, 0, String::new()).unwrap();
    m.register_for_completion(7, 10).unwrap();
    let second = m.register_for_completion(7, 11);
    assert!(matches!(second, Err(MultiError::DuplicateRegistration)));
}

#[test]
fn remove_then_drain_leaves_no_entry() {
    let mut m = Multiplexer::<u32>::create(1).unwrap();
    m.prepare_add(7).unwrap();
    m.apply_add(7, 0, String::new()).unwrap();
    m.register_for_completion(7, 10).unwrap();
    m.prepare_remove(7).unwrap();
    let cancelled = m.apply_remove(7);
    assert_eq!(cancelled, Some(10));
    assert!(!m.knows_transfer(7));
    let done = m.drain(&vec![msg(MSG_DONE, 7, 0)]);
    assert!(done.is_empty());
}

#[test]
fn remove_of_unknown_transfer_is_a_successful_noop() {
    let mut m = Multiplexer::<u32>::create(1).unwrap();
    m.prepare_remove(9).unwrap();
    let cancelled = m.apply_remove(9);
    assert_eq!(cancelled, None);
    let cancelled_again = m.apply_remove(9);
    assert_eq!(cancelled_again, None);
}

#[test]
fn close_twice_reclaims_each_pointer_once() {
    let mut m = Multiplexer::<u32>::create(1).unwrap();
    m.set_socket_callback().unwrap();
    m.set_timer_callback().unwrap();
    let first = m.close();
    assert!(first.reclaim_socket);
    assert!(first.reclaim_timer);
    let second = m.close();
    assert!(!second.reclaim_socket);
    assert!(!second.reclaim_timer);
    assert!(second.discarded.is_empty());
}

#[test]
fn leak_ledger_balances_over_a_full_cycle() {
    let mut m = Multiplexer::<u32>::create(1).unwrap();
    let (leaked0, reclaimed0) = m.leak_ledger();
    assert_eq!((leaked0, reclaimed0), (0, 0));
    m.set_socket_callback().unwrap();
    let reinstall = m.set_socket_callback().unwrap();
    assert!(reinstall);
    m.set_timer_callback().unwrap();
    let (_, _) = socket_trampoline(true, true, 7, 4, 1);
    let (_, _) = timer_trampoline(true, true, 1, 50, true);
    let ticket = m.close();
    assert!(ticket.reclaim_socket);
    assert!(ticket.reclaim_timer);
    let (leaked, reclaimed) = m.leak_ledger();
    assert_eq!(leaked, 3);
    assert_eq!(leaked, reclaimed);
}

#[test]
fn back_channel_ledger_counts_reinstalls() {
    let mut c = BackChannels::new();
    let reclaim_first = c.install_socket();
    assert!(!reclaim_first);
    let reclaim_second = c.install_socket();
    assert!(reclaim_second);
    let (had_socket, had_timer) = c.release_all();
    assert!(had_socket);
    assert!(!had_timer);
}

#[test]
fn successful_transfer_routes_to_success_exactly_once() {
    let mut m = Multiplexer::<u32>::create(1).unwrap();
    m.prepare_add(0xa).unwrap();
    m.apply_add(0xa, 0, String::new()).unwrap();
    m.register_for_completion(0xa, 77).unwrap();
    let done = m.drain(&vec![msg(MSG_DONE, 0xa, 0)]);
    assert_eq!(done.len(), 1);
    assert_eq!(done[0].identity, 0xa);
    assert_eq!(done[0].payload, 77);
    let mut successes = 0;
    for c in &done {
        match route_completion(c.result_code, 200, String::new()) {
            TransferOutcome::Success { response_code } => {
                assert_eq!(response_code, 200);
                successes += 1;
            }
            TransferOutcome::Failure { .. } => panic!("expected success"),
        }
    }
    assert_eq!(successes, 1);
    assert_eq!(m.pending_routes(), 0);
    assert_eq!(m.transfer_count(), 0);
    let again = m.drain(&vec![msg(MSG_DONE, 0xa, 0)]);
    assert!(again.is_empty());
}

#[test]
fn failing_transfer_routes_to_error_with_native_text() {
    let mut m = Multiplexer::<u32>::create(1).unwrap();
    m.prepare_add(0xb).unwrap();
    m.apply_add(0xb, 0, String::new()).unwrap();
    m.register_for_completion(0xb, 5).unwrap();
    let done = m.drain(&vec![msg(MSG_DONE, 0xb, 7)]);
    assert_eq!(done.len(), 1);
    assert_eq!(done[0].result_code, 7);
    match route_completion(done[0].result_code, 0, String::from("Couldn't connect to server")) {
        TransferOutcome::Failure { code, message } => {
            assert_eq!(code, 7);
            assert!(!message.is_empty());
            assert_eq!(message, "Couldn't connect to server");
        }
        TransferOutcome::Success { .. } => panic!("expected failure"),
    }
}

#[test]
fn completion_order_follows_native_order_not_addition_order() {
    let mut m = Multiplexer::<u32>::create(1).unwrap();
    m.prepare_add(1).unwrap();
    m.apply_add(1, 0, String::new()).unwrap();
    m.prepare_add(2).unwrap();
    m.apply_add(2, 0, String::new()).unwrap();
    m.register_for_completion(1, 100).unwrap();
    m.register_for_completion(2, 200).unwrap();
    // The slow transfer was added first; the fast one finishes first.
    let done = m.drain(&vec![msg(MSG_DONE, 2, 0), msg(MSG_DONE, 1, 0)]);
    assert_eq!(done.len(), 2);
    assert_eq!(done[0].identity, 2);
    assert_eq!(done[1].identity, 1);
    assert_eq!(done[0].payload, 200);
    assert_eq!(done[1].payload, 100);
    assert_eq!(m.pending_routes(), 0);
    assert!(m.drain(&Vec::new()).is_empty());
}

#[test]
fn non_done_messages_are_consumed_without_effect() {
    let mut m = Multiplexer::<u32>::create(1).unwrap();
    m.prepare_add(3).unwrap();
    m.apply_add(3, 0, String::new()).unwrap();
    m.register_for_completion(3, 30).unwrap();
    let done = m.drain(&vec![msg(0, 3, 0)]);
    assert!(done.is_empty());
    assert!(m.knows_transfer(3));
}

#[test]
fn message_without_consumer_is_not_an_error() {
    let mut m = Multiplexer::<u32>::create(1).unwrap();
    m.prepare_add(4).unwrap();
    m.apply_add(4, 0, String::new()).unwrap();
    let done = m.drain(&vec![msg(MSG_DONE, 4, 0)]);
    assert!(done.is_empty());
    assert!(!m.knows_transfer(4));
}

#[test]
fn drive_on_closed_multiplexer_returns_closed_resource() {
    let mut m = Multiplexer::<u32>::create(1).unwrap();
    m.close();
    assert!(matches!(m.check_close(), Err(MultiError::ClosedResource)));
    assert!(matches!(
        m.apply_perform_result(0, 1, String::new()),
        Err(MultiError::ClosedResource)
    ));
    assert!(matches!(
        m.apply_socket_action_result(0, 1, String::new()),
        Err(MultiError::ClosedResource)
    ));
    assert!(matches!(
        m.apply_poll_result(0, 1, String::new()),
        Err(MultiError::ClosedResource)
    ));
    assert!(matches!(
        m.prepare_add(5),
        Err(MultiError::ClosedResource)
    ));
    assert!(matches!(
        m.prepare_remove(5),
        Err(MultiError::ClosedResource)
    ));
    assert!(matches!(
        m.set_socket_callback(),
        Err(MultiError::ClosedResource)
    ));
    assert!(matches!(
        m.set_timer_callback(),
        Err(MultiError::ClosedResource)
    ));
    assert!(matches!(
        m.register_for_completion(5, 1),
        Err(MultiError::ClosedResource)
    ));
}

#[test]
fn add_checks_fail_fast() {
    let m = Multiplexer::<u32>::create(1).unwrap();
    assert!(matches!(m.prepare_add(0), Err(MultiError::InvalidHandle)));
    assert!(matches!(m.prepare_remove(0), Err(MultiError::InvalidHandle)));
}

#[test]
fn add_error_carries_native_code_and_text() {
    let mut m = Multiplexer::<u32>::create(1).unwrap();
    m.prepare_add(6).unwrap();
    let r = m.apply_add(6, 3, String::from("out of memory"));
    match r {
        Err(MultiError::AddError { code, message }) => {
            assert_eq!(code, 3);
            assert_eq!(message, "out of memory");
        }
        _ => panic!("expected an add error"),
    }
    assert!(!m.knows_transfer(6));
}

#[test]
fn registration_needs_a_known_transfer() {
    let mut m = Multiplexer::<u32>::create(1).unwrap();
    let r = m.register_for_completion(8, 1);
    assert!(matches!(r, Err(MultiError::InvalidHandle)));
}

#[test]
fn perform_tolerates_the_call_again_sentinel() {
    let m = Multiplexer::<u32>::create(1).unwrap();
    assert_eq!(m.apply_perform_result(0, 2, String::new()).unwrap(), 2);
    assert_eq!(
        m.apply_perform_result(CALL_AGAIN, 2, String::new()).unwrap(),
        2
    );
    assert_eq!(
        m.apply_socket_action_result(CALL_AGAIN, 1, String::new())
            .unwrap(),
        1
    );
    match m.apply_perform_result(6, 2, String::from("unknown option")) {
        Err(MultiError::ActionError { code, message }) => {
            assert_eq!(code, 6);
            assert_eq!(message, "unknown option");
        }
        _ => panic!("expected an action error"),
    }
}

#[test]
fn poll_has_no_call_again_sentinel() {
    let m = Multiplexer::<u32>::create(1).unwrap();
    assert_eq!(m.apply_poll_result(0, 0, String::new()).unwrap(), 0);
    assert!(matches!(
        m.apply_poll_result(CALL_AGAIN, 0, String::new()),
        Err(MultiError::ActionError { code: CALL_AGAIN, .. })
    ));
}

#[test]
fn close_discards_pending_routes_explicitly() {
    let mut m = Multiplexer::<u32>::create(1).unwrap();
    m.prepare_add(11).unwrap();
    m.apply_add(11, 0, String::new()).unwrap();
    m.register_for_completion(11, 111).unwrap();
    let ticket = m.close();
    assert_eq!(ticket.discarded.len(), 1);
    assert_eq!(ticket.discarded[0].identity, 11);
    assert_eq!(ticket.discarded[0].payload, 111);
}

#[test]
fn setopt_failures_become_option_errors() {
    let m = Multiplexer::<u32>::create(1).unwrap();
    assert!(m.apply_setopt_result(0, String::new()).is_ok());
    match m.apply_setopt_result(6, String::from("unknown option")) {
        Err(MultiError::OptionError { code, message }) => {
            assert_eq!(code, 6);
            assert_eq!(message, "unknown option");
        }
        _ => panic!("expected an option error"),
    }
    let mut closed = Multiplexer::<u32>::create(1).unwrap();
    closed.close();
    assert!(matches!(
        closed.apply_setopt_result(0, String::new()),
        Err(MultiError::ClosedResource)
    ));
}

#[test]
fn a_removed_registration_resolves_as_cancelled() {
    let mut m = Multiplexer::<u32>::create(1).unwrap();
    m.prepare_add(21).unwrap();
    m.apply_add(21, 0, String::new()).unwrap();
    m.register_for_completion(21, 210).unwrap();
    m.prepare_remove(21).unwrap();
    let pending = m.apply_remove(21);
    assert_eq!(pending, Some(210));
    assert!(matches!(cancellation_outcome(), MultiError::Cancelled));
}

#[test]
fn adapter_decides_finish_timeout_and_continue() {
    assert!(matches!(adapter_decide(0, 999, 500), DriveStep::Finished));
    assert!(matches!(adapter_decide(2, 500, 500), DriveStep::TimedOut));
    assert!(matches!(adapter_decide(2, 499, 500), DriveStep::Continue));
}

#[test]
fn timed_out_transfer_is_removed_and_resolves_timeout_once() {
    let mut m = Multiplexer::<u32>::create(1).unwrap();
    m.prepare_add(12).unwrap();
    m.apply_add(12, 0, String::new()).unwrap();
    m.register_for_completion(12, 120).unwrap();
    let mut session = TransferSession::new(12, 1_000);
    // The drive loop observed running work at the deadline.
    let step = adapter_decide(1, session.deadline_ms(), session.deadline_ms());
    assert!(matches!(step, DriveStep::TimedOut));
    m.prepare_remove(session.identity()).unwrap();
    let cancelled = m.apply_remove(session.identity());
    assert_eq!(cancelled, Some(120));
    assert!(!m.knows_transfer(12));
    assert!(session.try_resolve());
    assert!(matches!(
        session.timeout_outcome(),
        MultiError::TransferTimeout
    ));
    assert!(!session.try_resolve());
}

#[test]
fn trampolines_skip_without_context_or_lock() {
    let (notice, rc) = socket_trampoline(false, true, 1, 5, 1);
    assert!(notice.is_none());
    assert_eq!(rc, 0);
    let (notice, rc) = socket_trampoline(true, false, 1, 5, 1);
    assert!(notice.is_none());
    assert_eq!(rc, 0);
    let (notice, rc) = socket_trampoline(true, true, 9, 5, 2);
    let n = notice.unwrap();
    assert_eq!(n.identity, 9);
    assert_eq!(n.sockfd, 5);
    assert_eq!(n.what, 2);
    assert_eq!(rc, 0);
}

#[test]
fn timer_trampoline_cancels_with_negative_sentinel() {
    let (notice, rc) = timer_trampoline(true, true, 3, 25, false);
    assert!(notice.is_some());
    assert_eq!(rc, -1);
    let (notice, rc) = timer_trampoline(true, true, 3, 25, true);
    let n = notice.unwrap();
    assert_eq!(n.multi_identity, 3);
    assert_eq!(n.timeout_ms, 25);
    assert_eq!(rc, 0);
    let (notice, rc) = timer_trampoline(false, true, 3, 25, false);
    assert!(notice.is_none());
    assert_eq!(rc, 0);
}

#[test]
fn errors_expose_their_native_codes() {
    assert_eq!(
        MultiError::OptionError {
            code: 6,
            message: String::new()
        }
        .native_code(),
        Some(6)
    );
    assert_eq!(
        MultiError::AddError {
            code: 2,
            message: String::new()
        }
        .native_code(),
        Some(2)
    );
    assert_eq!(
        MultiError::ActionError {
            code: 4,
            message: String::new()
        }
        .native_code(),
        Some(4)
    );
    assert_eq!(MultiError::ClosedResource.native_code(), None);
    assert_eq!(MultiError::TransferTimeout.native_code(), None);
    assert_eq!(MultiError::Cancelled.native_code(), None);
    assert_eq!(MultiError::InvalidHandle.native_code(), None);
    assert_eq!(MultiError::InitializationError.native_code(), None);
    assert_eq!(MultiError::DuplicateRegistration.native_code(), None);
}

use fedimint_server::task::{
    block_in_place, join_result, join_timeout, Elapsed, JoinOutcome, MaybeSend, MaybeSync,
    ShutdownState, JOIN_GRACE_MS,
};

fn needs_maybe_send<T: MaybeSend>(_: &T) {}

fn needs_maybe_sync<T: MaybeSync>(_: &T) {}

#[test]
fn block_in_place_hands_back_what_the_closure_returns() {
    let base = 40;
    assert_eq!(block_in_place(|| base + 2), 42);
    assert_eq!(block_in_place(|| "done".to_string()), "done");
}

#[test]
fn elapsed_says_that_the_deadline_has_elapsed() {
    assert_eq!(Elapsed.message(), "deadline has elapsed");
    assert_eq!(Elapsed, Elapsed);
}

#[test]
fn what_can_be_sent_is_maybe_send() {
    needs_maybe_send(&5u8);
    needs_maybe_send(&"text".to_string());
    needs_maybe_sync(&5u8);
    needs_maybe_sync(&vec![1, 2, 3]);
}

#[test]
fn the_join_waits_until_the_deadline_and_then_ten_milliseconds() {
    assert_eq!(JOIN_GRACE_MS, 10);
    assert_eq!(join_timeout(None, 5), None);
    assert_eq!(join_timeout(Some(1_000), 400), Some(600));
    assert_eq!(join_timeout(Some(1_000), 1_000), Some(0));
    assert_eq!(join_timeout(Some(1_000), 1_001), Some(10));
    assert_eq!(join_timeout(Some(0), u64::MAX), Some(10));
    assert_eq!(join_timeout(Some(u64::MAX), 0), Some(u64::MAX));
}

#[test]
fn a_group_finishes_cleanly_unless_a_task_panicked() {
    assert_eq!(join_result(&vec![]), Ok(()));
    assert_eq!(join_result(&vec![JoinOutcome::Finished, JoinOutcome::TimedOut]), Ok(()));
    assert_eq!(
        join_result(&vec![
            JoinOutcome::Panicked,
            JoinOutcome::Finished,
            JoinOutcome::Panicked,
            JoinOutcome::TimedOut
        ]),
        Err(2)
    );
}

#[test]
fn shutdown_handlers_run_last_registered_first() {
    let mut state: ShutdownState<&'static str> = ShutdownState::new();
    assert!(!state.is_shutting_down());
    assert_eq!(state.on_shutdown("first"), None);
    assert_eq!(state.on_shutdown("second"), None);
    assert_eq!(state.on_shutdown("third"), None);
    state.shutdown();
    assert!(state.is_shutting_down());
    assert_eq!(state.next_handler(), Some("third"));
    assert_eq!(state.next_handler(), Some("second"));
    assert_eq!(state.next_handler(), Some("first"));
    assert_eq!(state.next_handler(), None);
    assert_eq!(state.next_handler(), None);
}

#[test]
fn a_handler_registered_during_shutdown_runs_at_once() {
    let mut state: ShutdownState<u8> = ShutdownState::new();
    state.shutdown();
    assert_eq!(state.on_shutdown(7), Some(7));
    assert_eq!(state.next_handler(), None);
}

#[test]
fn a_task_that_ends_uncleanly_takes_the_group_down() {
    let mut state: ShutdownState<u8> = ShutdownState::new();
    state.task_ended(true);
    assert!(!state.is_shutting_down());
    state.task_ended(false);
    assert!(state.is_shutting_down());
    state.task_ended(true);
    assert!(state.is_shutting_down());
}

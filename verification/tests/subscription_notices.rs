use pixofold_core::subscriptions::{
    SubscriptionError, Subscriptions, TaskChangeNotice, Watch, TASK_PROTOCOL_VERSION,
};

fn notice(id: u64, revision: u64) -> TaskChangeNotice {
    TaskChangeNotice { protocol_version: TASK_PROTOCOL_VERSION, subscription_id: id, revision }
}

/// Runs one turn of the notifying thread against a task at `revision`.
fn turn(state: &mut Subscriptions, revision: u64, terminal: bool) -> Option<TaskChangeNotice> {
    match state.watch() {
        Watch::Follow { id, after } => state.deliver(id, after, revision, terminal),
        _ => None,
    }
}

#[test]
fn handshake_and_slow_consumer_coalesce_to_one_latest_notice() {
    let mut state = Subscriptions::new();
    let initial = state.subscribe(0, false).unwrap();
    assert_eq!(initial.protocol_version, TASK_PROTOCOL_VERSION);
    assert_eq!(initial, notice(1, 0));
    // Nothing is sent before the first notice is acknowledged.
    assert_eq!(turn(&mut state, 10, false), None);
    assert_eq!(state.acknowledge(1, 11), Err(SubscriptionError::InvalidAcknowledgement));
    state.acknowledge(1, 0).unwrap();
    let first = turn(&mut state, 10, false).unwrap();
    assert_eq!(first, notice(1, 10));
    // Changes do not queue; acknowledging the old notice again unlocks nothing.
    state.acknowledge(1, 0).unwrap();
    assert_eq!(turn(&mut state, 20, false), None);
    state.acknowledge(1, 10).unwrap();
    assert_eq!(turn(&mut state, 20, false), Some(notice(1, 20)));
    assert_eq!(turn(&mut state, 30, false), None);
}

#[test]
fn replacement_old_controls_and_terminal_reconnect_do_not_restart_tasks() {
    let mut state = Subscriptions::new();
    let old = state.subscribe(3, false).unwrap();
    state.acknowledge(old.subscription_id, old.revision).unwrap();
    // The task owner closed at revision 4.
    assert_eq!(turn(&mut state, 4, true), Some(notice(old.subscription_id, 4)));
    let new = state.subscribe(4, true).unwrap();
    assert!(new.subscription_id > old.subscription_id);
    assert_eq!(new.revision, 4);
    assert!(!state.unsubscribe(old.subscription_id));
    assert_eq!(state.acknowledge(old.subscription_id, 4), Err(SubscriptionError::StaleSubscription));
    state.acknowledge(new.subscription_id, 4).unwrap();
    // A closed task owner with no new revision produces no further notice.
    assert_eq!(state.watch(), Watch::Idle);
    state.close(false);
    assert_eq!(state.watch(), Watch::Stop { faulted: false });
}

#[test]
fn unsubscribe_and_drop_are_idempotent_and_preserve_tasks() {
    let mut state = Subscriptions::new();
    let ticket = state.subscribe(0, false).unwrap();
    state.acknowledge(ticket.subscription_id, 0).unwrap();
    assert!(state.unsubscribe(ticket.subscription_id));
    assert!(!state.unsubscribe(ticket.subscription_id));
    state.close(false);
    assert_eq!(state.subscribe(0, false), Err(SubscriptionError::Closed));
    assert_eq!(state.acknowledge(ticket.subscription_id, 0), Err(SubscriptionError::Closed));
}

#[test]
fn replacement_during_failed_send_is_not_removed_by_the_old_sender() {
    let mut state = Subscriptions::new();
    let old = state.subscribe(0, false).unwrap();
    state.acknowledge(old.subscription_id, 0).unwrap();
    assert!(turn(&mut state, 5, false).is_some());
    let new = state.subscribe(5, false).unwrap();
    // The old send fails late: the replacement stays.
    assert!(!state.send_failed(old.subscription_id));
    assert_eq!(state.current(), Some(new.subscription_id));
    state.acknowledge(new.subscription_id, 5).unwrap();
    assert_eq!(turn(&mut state, 6, true), Some(notice(new.subscription_id, 6)));
}

#[test]
fn failed_send_releases_the_session_but_not_task_ownership() {
    let mut state = Subscriptions::new();
    let initial = state.subscribe(0, false).unwrap();
    state.acknowledge(initial.subscription_id, 0).unwrap();
    assert!(turn(&mut state, 5, false).is_some());
    assert!(state.send_failed(initial.subscription_id));
    assert_eq!(state.acknowledge(initial.subscription_id, 5), Err(SubscriptionError::StaleSubscription));
    assert!(state.subscribe(5, false).is_ok());
}

#[test]
fn sender_panic_fails_closed_and_is_reported_by_join() {
    let mut state = Subscriptions::new();
    state.subscribe(0, false).unwrap();
    state.close(true);
    assert_eq!(state.watch(), Watch::Stop { faulted: true });
    assert_eq!(state.subscribe(0, false), Err(SubscriptionError::ServiceFault));
    // A later clean close does not clear the fault.
    state.close(false);
    assert_eq!(state.watch(), Watch::Stop { faulted: true });
}

#[test]
fn mutations_need_the_live_acknowledged_session() {
    let mut state = Subscriptions::new();
    assert_eq!(state.ready(1), Err(SubscriptionError::StaleSubscription));
    let ticket = state.subscribe(2, false).unwrap();
    assert_eq!(state.ready(ticket.subscription_id), Err(SubscriptionError::InvalidAcknowledgement));
    state.acknowledge(ticket.subscription_id, 2).unwrap();
    assert_eq!(state.ready(ticket.subscription_id), Ok(()));
    assert_eq!(state.ready(ticket.subscription_id + 1), Err(SubscriptionError::StaleSubscription));
    state.close(false);
    assert_eq!(state.ready(ticket.subscription_id), Err(SubscriptionError::Closed));
}

#[test]
fn an_older_revision_is_not_sent_but_the_closed_task_is_noted() {
    let mut state = Subscriptions::new();
    let ticket = state.subscribe(7, false).unwrap();
    state.acknowledge(ticket.subscription_id, 7).unwrap();
    assert_eq!(state.deliver(ticket.subscription_id, 7, 7, true), None);
    // The session is terminal now: the thread stops following it.
    assert_eq!(state.watch(), Watch::Idle);
    assert_eq!(SubscriptionError::IdExhausted.message(), "任务订阅标识已耗尽");
}

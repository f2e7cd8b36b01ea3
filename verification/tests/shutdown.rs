use sarchive::orchestrator::{
    exit_status, first_failure, plan_watchers, ThreadOutcome, EXIT_CLEAN, EXIT_FAILURE,
};
use sarchive::shutdown::{
    Relay, RelayAction, RelayPhase, SendOutcome, ShutdownSignal, SignalDeliveryError,
    SIGNAL_CAPACITY,
};
use sarchive::watcher::{WatchError, WatchFault, WatchPhase};

#[test]
fn relay_counts_the_watchers_and_the_archiver() {
    let relay = Relay::new(10).unwrap();
    assert_eq!(relay.consumers, 11);
    assert_eq!(relay.phase, RelayPhase::Parked);
    assert_eq!(relay.action(), RelayAction::Park);
    assert_eq!(SIGNAL_CAPACITY, 20);
}

#[test]
fn relay_needs_room_for_every_consumer() {
    assert!(Relay::new(0).is_some());
    assert!(Relay::new(19).is_some());
    assert!(Relay::new(20).is_none());
    assert!(Relay::new(usize::MAX).is_none());
}

#[test]
fn spurious_wake_parks_again() {
    let mut relay = Relay::new(10).unwrap();
    assert_eq!(relay.on_wake(false), RelayAction::Park);
    assert_eq!(relay.phase, RelayPhase::Parked);
    assert_eq!(relay.on_wake(true), RelayAction::Send);
    assert_eq!(relay.phase, RelayPhase::Dispatching { sent: 0 });
}

#[test]
fn repeated_wakes_do_not_start_over() {
    let mut relay = Relay::new(2).unwrap();
    assert_eq!(relay.on_wake(true), RelayAction::Send);
    assert_eq!(relay.on_send(SendOutcome::Delivered), RelayAction::Send);
    assert_eq!(relay.on_wake(true), RelayAction::Send);
    assert_eq!(relay.phase, RelayPhase::Dispatching { sent: 1 });
    assert_eq!(relay.on_wake(false), RelayAction::Send);
    assert_eq!(relay.phase, RelayPhase::Dispatching { sent: 1 });
}

#[test]
fn one_signal_per_consumer() {
    let mut relay = Relay::new(2).unwrap();
    relay.on_wake(true);
    assert_eq!(relay.on_send(SendOutcome::Delivered), RelayAction::Send);
    assert_eq!(relay.on_send(SendOutcome::Delivered), RelayAction::Send);
    assert_eq!(relay.on_send(SendOutcome::Delivered), RelayAction::Finish);
    assert_eq!(relay.phase, RelayPhase::Done);
    assert_eq!(relay.on_send(SendOutcome::Delivered), RelayAction::Finish);
    assert_eq!(relay.on_wake(true), RelayAction::Finish);
}

#[test]
fn refused_signal_fails_the_relay() {
    let mut full = Relay::new(2).unwrap();
    full.on_wake(true);
    full.on_send(SendOutcome::Delivered);
    let error = SignalDeliveryError::ChannelFull { delivered: 1 };
    assert_eq!(full.on_send(SendOutcome::Full), RelayAction::Fail(error));
    assert_eq!(full.phase, RelayPhase::Failed(error));
    assert_eq!(full.on_send(SendOutcome::Delivered), RelayAction::Fail(error));
    let mut closed = Relay::new(2).unwrap();
    closed.on_wake(true);
    assert_eq!(
        closed.on_send(SendOutcome::Closed),
        RelayAction::Fail(SignalDeliveryError::ChannelClosed { delivered: 0 })
    );
}

#[test]
fn relay_without_consumers_left_is_done_after_one_delivery() {
    let mut relay = Relay { consumers: 0, phase: RelayPhase::Dispatching { sent: usize::MAX } };
    assert_eq!(relay.on_send(SendOutcome::Delivered), RelayAction::Finish);
    assert_eq!(relay.phase, RelayPhase::Done);
}

#[test]
fn sends_before_the_flag_is_raised_change_nothing() {
    let mut relay = Relay::new(2).unwrap();
    assert_eq!(relay.on_send(SendOutcome::Delivered), RelayAction::Park);
    assert_eq!(relay.phase, RelayPhase::Parked);
}

#[test]
fn dispatch_puts_a_signal_per_consumer_on_the_channel() {
    let (sender, receiver) = crossbeam_channel::bounded::<ShutdownSignal>(SIGNAL_CAPACITY);
    let mut relay = Relay::new(10).unwrap();
    relay.on_wake(true);
    assert_eq!(relay.dispatch(&sender), RelayAction::Finish);
    assert_eq!(relay.phase, RelayPhase::Done);
    assert_eq!(receiver.len(), 11);
    assert_eq!(receiver.try_recv(), Ok(ShutdownSignal));
    assert_eq!(relay.dispatch(&sender), RelayAction::Finish);
    assert_eq!(receiver.len(), 10);
}

#[test]
fn dispatch_of_a_parked_relay_sends_nothing() {
    let (sender, receiver) = crossbeam_channel::bounded::<ShutdownSignal>(SIGNAL_CAPACITY);
    let mut relay = Relay::new(10).unwrap();
    assert_eq!(relay.dispatch(&sender), RelayAction::Park);
    assert_eq!(relay.phase, RelayPhase::Parked);
    assert_eq!(receiver.len(), 0);
}

#[test]
fn dispatch_stops_at_a_full_channel() {
    let (sender, receiver) = crossbeam_channel::bounded::<ShutdownSignal>(4);
    let mut relay = Relay::new(10).unwrap();
    relay.on_wake(true);
    let error = SignalDeliveryError::ChannelFull { delivered: 4 };
    assert_eq!(relay.dispatch(&sender), RelayAction::Fail(error));
    assert_eq!(relay.phase, RelayPhase::Failed(error));
    assert_eq!(receiver.len(), 4);
}

#[test]
fn dispatch_stops_at_a_closed_channel() {
    let (sender, receiver) = crossbeam_channel::bounded::<ShutdownSignal>(SIGNAL_CAPACITY);
    drop(receiver);
    let mut relay = Relay::new(10).unwrap();
    relay.on_wake(true);
    assert_eq!(
        relay.dispatch(&sender),
        RelayAction::Fail(SignalDeliveryError::ChannelClosed { delivered: 0 })
    );
}

#[test]
fn exit_status_is_clean_only_if_every_thread_completed() {
    assert_eq!(exit_status(&vec![]), EXIT_CLEAN);
    assert_eq!(exit_status(&vec![ThreadOutcome::Completed; 12]), EXIT_CLEAN);
    let failed = ThreadOutcome::WatchFailed(WatchError { shard_id: 6, fault: WatchFault::Backend });
    assert_eq!(
        exit_status(&vec![ThreadOutcome::Completed, failed, ThreadOutcome::Completed]),
        EXIT_FAILURE
    );
    assert_eq!(exit_status(&vec![ThreadOutcome::Panicked]), EXIT_FAILURE);
    let undelivered =
        ThreadOutcome::RelayFailed(SignalDeliveryError::ChannelFull { delivered: 3 });
    assert_eq!(exit_status(&vec![ThreadOutcome::Completed, undelivered]), EXIT_FAILURE);
    assert_eq!(EXIT_CLEAN, 0);
    assert_eq!(EXIT_FAILURE, 1);
}

#[test]
fn first_failure_is_the_earliest() {
    let failed = ThreadOutcome::WatchFailed(WatchError { shard_id: 6, fault: WatchFault::Backend });
    assert_eq!(first_failure(&vec![ThreadOutcome::Completed, ThreadOutcome::Completed]), None);
    assert_eq!(
        first_failure(&vec![ThreadOutcome::Completed, failed, ThreadOutcome::Panicked]),
        Some(1)
    );
    assert_eq!(first_failure(&vec![ThreadOutcome::Panicked, failed]), Some(0));
}

#[test]
fn every_shard_gets_one_watcher() {
    let watchers = plan_watchers(&b"/spool".to_vec(), 10);
    assert_eq!(watchers.len(), 10);
    for (index, watcher) in watchers.iter().enumerate() {
        assert_eq!(watcher.shard_id as usize, index);
        assert_eq!(watcher.shard_root, format!("/spool/shard.{}", index).into_bytes());
        assert_eq!(watcher.phase, WatchPhase::Unarmed);
    }
    assert_eq!(plan_watchers(&b"/spool".to_vec(), 0).len(), 0);
}

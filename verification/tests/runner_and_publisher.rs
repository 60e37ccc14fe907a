//! The publisher's retry discipline and the consumer runner's decisions.
use energy_events::consumer::{
    disposition_for, failure_route, stream_queue_settings, ConsumerEvent, ConsumerState,
    Disposition, FailureRoute, SupervisorAction, CONSUMER_RESTART_DELAY_SECS,
    MEASUREMENT_PREFETCH, SYNC_PREFETCH,
};
use energy_events::envelope::{classify_event_type, EventKind};
use energy_events::publisher::{
    ChannelCache, PublishAttempts, MAX_PUBLISH_ATTEMPTS, PUBLISH_RETRY_DELAY_SECS,
};

#[test]
fn three_failed_attempts_surface_failure_without_a_fourth() {
    // the transport is unreachable: every attempt fails
    let mut cache = ChannelCache::new();
    let mut tracker = PublishAttempts::new();
    let mut attempts_made: u32 = 0;
    let outcome: Result<(), &str> = loop {
        // an attempt happens only while the tracker allows one
        assert!(tracker.may_retry());
        attempts_made += 1;
        // ... the attempt fails: discard the handle and count it
        cache.invalidate();
        tracker.record_failure();
        if !tracker.may_retry() {
            break Err("unreachable");
        }
    };
    assert!(outcome.is_err());
    assert_eq!(attempts_made, 3);
    assert_eq!(tracker.failed, MAX_PUBLISH_ATTEMPTS);
    assert!(!cache.has_channel());
}

#[test]
fn success_on_second_attempt_stops_retrying() {
    let mut cache = ChannelCache::new();
    let mut tracker = PublishAttempts::new();
    // first attempt fails
    cache.invalidate();
    tracker.record_failure();
    assert!(tracker.may_retry());
    // second attempt succeeds: the handle stays cached for the next publish
    cache.mark_established();
    assert!(cache.has_channel());
    assert_eq!(tracker.failed, 1);
}

#[test]
fn retry_constants_match_the_design() {
    assert_eq!(MAX_PUBLISH_ATTEMPTS, 3);
    assert_eq!(PUBLISH_RETRY_DELAY_SECS, 2);
    assert_eq!(CONSUMER_RESTART_DELAY_SECS, 5);
    assert_eq!(MEASUREMENT_PREFETCH, 50);
    assert_eq!(SYNC_PREFETCH, 20);
}

#[test]
fn queues_are_durable_and_not_auto_deleted() {
    let q = stream_queue_settings();
    assert!(q.durable);
    assert!(!q.auto_delete);
}

#[test]
fn handler_outcome_drives_acknowledgement() {
    assert_eq!(disposition_for(true), Disposition::Ack);
    assert_eq!(disposition_for(false), Disposition::NackRequeue);
}

#[test]
fn connection_errors_restart_the_consumer_after_the_fixed_delay() {
    for state in [
        ConsumerState::Disconnected,
        ConsumerState::Connecting,
        ConsumerState::Consuming,
    ] {
        let (next, action) = state.step(ConsumerEvent::ConnectionError);
        assert_eq!(next, ConsumerState::Disconnected);
        assert_eq!(
            action,
            SupervisorAction::RestartAfterDelay(CONSUMER_RESTART_DELAY_SECS)
        );
    }
}

#[test]
fn consumer_lifecycle_walks_its_states() {
    let s = ConsumerState::Disconnected;
    let (s, a) = s.step(ConsumerEvent::ConnectStarted);
    assert_eq!(s, ConsumerState::Connecting);
    assert_eq!(a, SupervisorAction::Proceed);
    let (s, a) = s.step(ConsumerEvent::StreamOpened);
    assert_eq!(s, ConsumerState::Consuming);
    assert_eq!(a, SupervisorAction::Proceed);
    let (s, _) = s.step(ConsumerEvent::ConnectionError);
    assert_eq!(s, ConsumerState::Disconnected);
}

#[test]
fn retry_ceiling_routes_poison_messages_to_dead_letter() {
    assert_eq!(failure_route(0, 5), FailureRoute::Requeue);
    assert_eq!(failure_route(4, 5), FailureRoute::Requeue);
    assert_eq!(failure_route(5, 5), FailureRoute::DeadLetter);
    assert_eq!(failure_route(100, 5), FailureRoute::DeadLetter);
}

#[test]
fn event_tags_classify_by_suffix() {
    assert_eq!(
        classify_event_type(&b"DEVICE_CREATED".to_vec()),
        EventKind::Created
    );
    assert_eq!(
        classify_event_type(&b"USER_CREATED".to_vec()),
        EventKind::Created
    );
    assert_eq!(
        classify_event_type(&b"DEVICE_UPDATED".to_vec()),
        EventKind::Updated
    );
    assert_eq!(
        classify_event_type(&b"DEVICE_DELETED".to_vec()),
        EventKind::Deleted
    );
    assert_eq!(
        classify_event_type(&b"HEARTBEAT".to_vec()),
        EventKind::Unrecognized
    );
    assert_eq!(classify_event_type(&b"".to_vec()), EventKind::Unrecognized);
    // the bare suffix itself is still a match
    assert_eq!(
        classify_event_type(&b"_DELETED".to_vec()),
        EventKind::Deleted
    );
}

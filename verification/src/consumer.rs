//! The consumer runner's decision logic: how a handler outcome becomes an
//! acknowledgement, and the connection lifecycle a supervised consumer moves
//! through, restarting after a fixed delay on any connection-level error.
use vstd::prelude::*;

verus! {

/// Seconds a supervised consumer waits before restarting after an error.
pub const CONSUMER_RESTART_DELAY_SECS: u64 = 5;

/// Prefetch (QoS) limit of the measurement stream: the backpressure bound on
/// in-flight unacknowledged deliveries.
pub const MEASUREMENT_PREFETCH: u16 = 50;

/// Prefetch (QoS) limit of the lifecycle stream.
pub const SYNC_PREFETCH: u16 = 20;

/// How both producers and consumers declare a stream queue. Declaring is
/// idempotent, so every party declares with the same flags.
#[derive(Clone, Copy, PartialEq, Eq, Structural, Debug)]
pub struct QueueSettings {
    pub durable: bool,
    pub auto_delete: bool,
}

/// The one queue configuration of this design: durable, not auto-deleted,
/// so queues survive broker restarts.
pub fn stream_queue_settings() -> (r: QueueSettings)
    ensures
        r.durable,
        !r.auto_delete,
{
    QueueSettings { durable: true, auto_delete: false }
}

/// What the runner does with a delivery after its handler ran.
#[derive(Clone, Copy, PartialEq, Eq, Structural, Debug)]
pub enum Disposition {
    /// Remove the message permanently.
    Ack,
    /// Hand the message back to the broker for redelivery.
    NackRequeue,
}

/// A delivery is acknowledged exactly when its handler succeeded; any
/// failure — decode error or storage error — requeues it.
pub fn disposition_for(handler_ok: bool) -> (r: Disposition)
    ensures
        r == (if handler_ok {
            Disposition::Ack
        } else {
            Disposition::NackRequeue
        }),
{
    if handler_ok {
        Disposition::Ack
    } else {
        Disposition::NackRequeue
    }
}

/// Where a failed delivery goes when a retry ceiling is in force.
#[derive(Clone, Copy, PartialEq, Eq, Structural, Debug)]
pub enum FailureRoute {
    /// Hand the message back to the broker for another try.
    Requeue,
    /// Park the message on a dead-letter destination instead of requeueing
    /// it forever.
    DeadLetter,
}

/// The guard against poison messages: with plain requeueing, a permanently
/// malformed message is redelivered forever. A runner that counts
/// redeliveries routes a failed message to the dead-letter destination once
/// the count passes the ceiling, and requeues it otherwise.
pub fn failure_route(redeliveries: u32, ceiling: u32) -> (r: FailureRoute)
    ensures
        r == (if redeliveries < ceiling {
            FailureRoute::Requeue
        } else {
            FailureRoute::DeadLetter
        }),
{
    if redeliveries < ceiling {
        FailureRoute::Requeue
    } else {
        FailureRoute::DeadLetter
    }
}

/// The connection lifecycle of one supervised consumer.
#[derive(Clone, Copy, PartialEq, Eq, Structural, Debug)]
pub enum ConsumerState {
    Disconnected,
    Connecting,
    Consuming,
}

/// What the runner observes about its connection.
#[derive(Clone, Copy, PartialEq, Eq, Structural, Debug)]
pub enum ConsumerEvent {
    /// A connection attempt begins.
    ConnectStarted,
    /// The channel is open, the queue declared, and the delivery stream runs.
    StreamOpened,
    /// The connection or the delivery stream failed.
    ConnectionError,
}

/// What the supervisor does after a step.
#[derive(Clone, Copy, PartialEq, Eq, Structural, Debug)]
pub enum SupervisorAction {
    /// Keep going.
    Proceed,
    /// Sleep the given number of seconds, then run the consumer again.
    RestartAfterDelay(u64),
}

/// The supervised consumer's transition relation: any connection-level error,
/// in any state, leads back to `Disconnected` with a fixed-delay restart; the
/// loop never terminates voluntarily.
pub open spec fn spec_consumer_step(
    s: ConsumerState,
    ev: ConsumerEvent,
) -> (ConsumerState, SupervisorAction) {
    match ev {
        ConsumerEvent::ConnectionError => (
            ConsumerState::Disconnected,
            SupervisorAction::RestartAfterDelay(CONSUMER_RESTART_DELAY_SECS),
        ),
        ConsumerEvent::ConnectStarted => {
            match s {
                ConsumerState::Disconnected => (ConsumerState::Connecting, SupervisorAction::Proceed),
                _ => (s, SupervisorAction::Proceed),
            }
        },
        ConsumerEvent::StreamOpened => {
            match s {
                ConsumerState::Connecting => (ConsumerState::Consuming, SupervisorAction::Proceed),
                _ => (s, SupervisorAction::Proceed),
            }
        },
    }
}

impl ConsumerState {
    /// Applies one observed event to the consumer lifecycle.
    pub fn step(self, ev: ConsumerEvent) -> (r: (ConsumerState, SupervisorAction))
        ensures
            r == spec_consumer_step(self, ev),
    {
        match ev {
            ConsumerEvent::ConnectionError => (
                ConsumerState::Disconnected,
                SupervisorAction::RestartAfterDelay(CONSUMER_RESTART_DELAY_SECS),
            ),
            ConsumerEvent::ConnectStarted => {
                match self {
                    ConsumerState::Disconnected => (
                        ConsumerState::Connecting,
                        SupervisorAction::Proceed,
                    ),
                    _ => (self, SupervisorAction::Proceed),
                }
            },
            ConsumerEvent::StreamOpened => {
                match self {
                    ConsumerState::Connecting => (ConsumerState::Consuming, SupervisorAction::Proceed),
                    _ => (self, SupervisorAction::Proceed),
                }
            },
        }
    }
}

} // verus!

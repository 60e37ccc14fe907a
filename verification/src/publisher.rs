//! The reliable publisher's retry discipline: a cached channel handle that is
//! discarded on any failure, and a bounded retry count with a fixed sleep
//! between attempts.
//!
//! The network calls themselves live outside the library; what is verified
//! here is every decision the publisher makes: when a handle may be reused,
//! when another attempt is allowed, and that failure is surfaced to the
//! caller after the bounded number of attempts — never a fourth.
use vstd::prelude::*;

verus! {

/// Total attempts one `publish` call may make before surfacing failure.
pub const MAX_PUBLISH_ATTEMPTS: u32 = 3;

/// Seconds slept between two publish attempts.
pub const PUBLISH_RETRY_DELAY_SECS: u64 = 2;

/// The shared cached-handle state of a publisher: whether a confirmed,
/// usable channel handle is cached. The handle itself is an outside resource;
/// only its presence drives decisions.
#[derive(Clone, Copy, PartialEq, Eq, Structural, Debug)]
pub struct ChannelCache {
    pub available: bool,
}

impl ChannelCache {
    /// A fresh publisher holds no channel.
    pub fn new() -> (r: ChannelCache)
        ensures
            !r.available,
    {
        ChannelCache { available: false }
    }

    /// Whether a cached handle can be reused instead of reconnecting.
    pub fn has_channel(&self) -> (r: bool)
        ensures
            r == self.available,
    {
        self.available
    }

    /// Records that a connection was established, a channel opened, the queue
    /// declared and confirms enabled: the handle is cached for reuse.
    pub fn mark_established(&mut self)
        ensures
            final(self).available,
    {
        self.available = true;
    }

    /// Discards the cached handle after any failure, so the next attempt
    /// reconnects from scratch.
    pub fn invalidate(&mut self)
        ensures
            !final(self).available,
    {
        self.available = false;
    }
}

/// The per-call attempt counter of one `publish` operation.
#[derive(Clone, Copy, PartialEq, Eq, Structural, Debug)]
pub struct PublishAttempts {
    pub failed: u32,
}

impl PublishAttempts {
    /// A publish call starts with no failed attempt.
    pub fn new() -> (r: PublishAttempts)
        ensures
            r.failed == 0,
    {
        PublishAttempts { failed: 0 }
    }

    /// Counts one failed attempt (connect, declare, publish or confirm).
    pub fn record_failure(&mut self)
        requires
            old(self).failed < MAX_PUBLISH_ATTEMPTS,
        ensures
            final(self).failed == old(self).failed + 1,
    {
        self.failed = self.failed + 1;
    }

    /// Whether another attempt is allowed; once `MAX_PUBLISH_ATTEMPTS` have
    /// failed, the caller must surface failure instead of retrying.
    pub fn may_retry(&self) -> (r: bool)
        ensures
            r == (self.failed < MAX_PUBLISH_ATTEMPTS),
    {
        self.failed < MAX_PUBLISH_ATTEMPTS
    }
}

/// How many attempts one publish call makes, given which attempts would
/// succeed: it stops at the first confirmed attempt and never starts a
/// fourth.
pub open spec fn publish_attempts_used(outcomes: Seq<bool>) -> int
    recommends
        outcomes.len() >= MAX_PUBLISH_ATTEMPTS,
{
    if outcomes[0] {
        1
    } else if outcomes[1] {
        2
    } else {
        3
    }
}

/// Whether one publish call ends in success, given which attempts would
/// succeed.
pub open spec fn publish_succeeds(outcomes: Seq<bool>) -> bool
    recommends
        outcomes.len() >= MAX_PUBLISH_ATTEMPTS,
{
    outcomes[0] || outcomes[1] || outcomes[2]
}

/// The publish retry bound: however the attempts turn out, no more than
/// `MAX_PUBLISH_ATTEMPTS` are made; and when the transport is unreachable
/// for that many consecutive attempts, `publish` returns failure having made
/// exactly that many attempts — it performs no further one.
pub proof fn lemma_publish_retry_bound(outcomes: Seq<bool>)
    requires
        outcomes.len() >= MAX_PUBLISH_ATTEMPTS,
    ensures
        1 <= publish_attempts_used(outcomes) <= MAX_PUBLISH_ATTEMPTS,
        (!outcomes[0] && !outcomes[1] && !outcomes[2]) ==> !publish_succeeds(outcomes)
            && publish_attempts_used(outcomes) == MAX_PUBLISH_ATTEMPTS,
        publish_succeeds(outcomes) ==> outcomes[publish_attempts_used(outcomes) - 1],
{
}

} // verus!

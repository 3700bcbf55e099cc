//! The sizes, budgets and timeouts that shape the pipeline.

use crate::settings::ConfigError;
use vstd::prelude::*;

verus! {

/// Tunable bounds of a session. Durations are in milliseconds.
#[derive(Clone, Copy, Debug, PartialEq, Eq)]
pub struct Limits {
    /// Most records that may wait in one run's queue.
    pub queue_capacity: usize,
    /// Most records sent to the collector in one call.
    pub batch_size: usize,
    /// How often a failed batch is sent again before it is given up.
    pub max_retries: u32,
    /// Backoff before the first retry, before jitter.
    pub base_delay_ms: u64,
    /// Largest backoff before any retry, before jitter.
    pub max_delay_ms: u64,
    /// How long a log call waits for room in a full queue.
    pub enqueue_timeout_ms: u64,
    /// How long a finish call waits for the flush when the caller names no timeout.
    pub finish_timeout_ms: u64,
    /// Most events that may wait in one outbox.
    pub event_capacity: usize,
}

/// Limits are acceptable when a queue can hold a record and a batch can carry one.
pub open spec fn limits_acceptable(limits: Limits) -> bool {
    limits.queue_capacity >= 1 && limits.batch_size >= 1
}

/// The limits of a session that names none.
pub open spec fn default_limits() -> Limits {
    Limits {
        queue_capacity: 1024,
        batch_size: 50,
        max_retries: 5,
        base_delay_ms: 200,
        max_delay_ms: 30_000,
        enqueue_timeout_ms: 5_000,
        finish_timeout_ms: 60_000,
        event_capacity: 1024,
    }
}

impl Default for Limits {
    fn default() -> (limits: Limits)
        ensures
            limits == default_limits(),
            limits_acceptable(limits),
    {
        Limits {
            queue_capacity: 1024,
            batch_size: 50,
            max_retries: 5,
            base_delay_ms: 200,
            max_delay_ms: 30_000,
            enqueue_timeout_ms: 5_000,
            finish_timeout_ms: 60_000,
            event_capacity: 1024,
        }
    }
}

impl Limits {
    /// Accepts the limits or refuses them.
    pub fn validate(&self) -> (outcome: Result<(), ConfigError>)
        ensures
            outcome == (if limits_acceptable(*self) {
                Ok::<(), ConfigError>(())
            } else {
                Err(ConfigError::InvalidLimits)
            }),
    {
        if self.queue_capacity >= 1 && self.batch_size >= 1 {
            Ok(())
        } else {
            Err(ConfigError::InvalidLimits)
        }
    }
}

} // verus!

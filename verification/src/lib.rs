//! Run lifecycle and record dispatch for a telemetry client.
//!
//! A [`session::Session`] hands out runs; a run buffers metric records in a
//! bounded queue; a dispatcher moves them to a collector in batches, retrying
//! with backoff. The crate holds the decisions only: it never sleeps, reads a
//! clock or talks to a network. Callers pass the current time in and carry
//! out the actions that come back.

pub mod clock;
pub mod record;
pub mod queue;
pub mod rng;
pub mod settings;
pub mod sampler;
pub mod event;
pub mod limits;
pub mod run;
pub mod dispatcher;
pub mod session;
pub mod laws;

//! Opportunistic batching of an asynchronous item source.
//!
//! The adapter collects whatever a source can hand over without blocking,
//! passes that run of items to a transform as one batch, and re-emits the
//! transform's outputs one at a time, in order. The decisions live in the
//! [`adapter::BatchMap`] state machine; a driver performs the polling it asks
//! for and reports what happened.

pub mod adapter;
pub mod laws;

//! A diagnostic sink that records instrumentation events and persists them as
//! a trace file in the JSON array-of-event-objects format understood by common
//! trace viewers.
//!
//! The verified core converts an event into a normalized record, renders the
//! record as one JSON object, and drives the framing state machine that keeps
//! the output file a well-formed array. File handles, threads and the channel
//! between producers and the background writer live outside the library and
//! feed it plain values.

pub mod json;
pub mod record;
pub mod subscriber;
pub mod writer;

//! The streaming core of a live pitch display: a bounded sample channel
//! between an audio callback and an analysis worker, and the worker's
//! decision rules.

pub mod buffer;
pub mod worker;

//! Acquisition and reassembly of time-ordered media segments.
//!
//! The crate models the core of an adaptive-streaming downloader: a segment
//! identity model, a write-once segment cache, a merge engine that turns a
//! run of cached segments into one output artifact, and the decision logic of
//! the live-playlist polling state machine.  Network, filesystem and task
//! plumbing live outside this library and hand it plain values.

pub mod cache;
pub mod command;
pub mod error;
pub mod live;
pub mod merge;
pub mod segment;

pub use command::MergeCommand;
pub use error::{IoriError, IoriResult};
pub use segment::{SegmentFormat, SegmentInfo};

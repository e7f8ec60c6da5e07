//! Orchestration core of a stream transcoder.
//!
//! Given a multiplexed media container, the orchestrator re-encodes the video
//! streams into a target codec while passing audio and subtitle streams
//! through unmodified, and re-multiplexes everything into an output
//! container.  This crate holds the verified logic of that orchestration:
//! stream classification, exact rational timestamp rescaling, the
//! decode-encode pump with its backpressure discipline, presentation
//! timestamp synthesis, end-of-stream flush ordering, and rate-limited
//! progress reporting.  The codec engine and the container demuxer/muxer are
//! external collaborators reached through narrow push/pull interfaces; the
//! pipeline here runs against in-memory models of them, and a thin
//! unverified front end drives the same decision functions against the real
//! engines.

pub mod engine;
pub mod options;
pub mod pipeline;
pub mod rational;
pub mod reporter;
pub mod sink;
pub mod streams;
pub mod timing;
pub mod transcoder;
pub mod units;

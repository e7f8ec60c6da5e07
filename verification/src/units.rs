//! The data units that flow through the pipeline.
//!
//! The orchestrator treats payloads as opaque: of a compressed unit it only
//! reads and rewrites the timestamp and the destination stream index, and of
//! a decoded unit the timestamp and the picture-type hint.  These types hold
//! exactly those fields.

use vstd::prelude::*;

verus! {

/// The picture-type hint a decoded unit carries out of the decoder: the
/// source's group-of-pictures structure.  Re-encoding must not inherit it,
/// so the transcoder resets every hint to `Unspecified` before the unit
/// reaches the encoder.
#[derive(Clone, Copy, Debug, PartialEq, Eq, Structural)]
pub enum PictureHint {
    Unspecified,
    Intra,
    Predicted,
    Bidirectional,
}

/// A compressed unit (packet) read from the demuxer: a stream index, a
/// presentation timestamp in that stream's time base when the container
/// knows one, a byte-offset position, and whether the payload is malformed
/// (which makes the decode context reject it).
#[derive(Clone, Copy, Debug, PartialEq, Eq, Structural)]
pub struct CompressedUnit {
    pub stream_index: usize,
    pub pts: Option<i64>,
    pub position: i64,
    pub malformed: bool,
    /// The picture-type hint of the frame this unit decodes to.
    pub hint: PictureHint,
}

/// A decoded unit (frame) pulled from a decode context: a presentation
/// timestamp in the decoder's working time base when the codec recovered
/// one, and the source's picture-type hint.
#[derive(Clone, Copy, Debug, PartialEq, Eq, Structural)]
pub struct DecodedUnit {
    pub pts: Option<i64>,
    pub hint: PictureHint,
}

/// A compressed unit on its way to the muxer: destination output stream,
/// presentation timestamp in that output stream's time base, and the
/// byte-offset position (cleared to -1 before writing, since the offset of
/// the source container is stale in the output).
#[derive(Clone, Copy, Debug, PartialEq, Eq, Structural)]
pub struct OutputPacket {
    pub stream_index: usize,
    pub pts: Option<i64>,
    pub position: i64,
}

/// The codec engine rejected a submitted unit.
#[derive(Clone, Copy, Debug, PartialEq, Eq, Structural)]
pub struct EngineReject {
}

} // verus!

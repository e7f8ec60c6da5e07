//! In-memory model of the codec engine.
//!
//! The real decode and encode contexts are opaque collaborators exposed
//! only through a narrow push/pull interface: submit a unit, retrieve
//! finished units until none is available, signal end of stream.  Their
//! essential behaviour for the orchestrator is variable output cardinality:
//! a codec buffers some units internally (here a fixed `latency`) and hands
//! the rest out in order, releasing everything only after end of stream.
//! The pipeline is verified against these models, and a thin unverified
//! front end drives the same orchestration against the real engine.

use vstd::prelude::*;

verus! {

use crate::units::{CompressedUnit, DecodedUnit, EngineReject};

/// How many units a context holding `len` of them is ready to hand out:
/// everything after end of stream, else whatever exceeds its latency.
pub open spec fn drainable(len: int, latency: int, eof: bool) -> int {
    if eof {
        len
    } else if len > latency {
        len - latency
    } else {
        0
    }
}

/// Model decode context: turns each accepted compressed unit into one
/// decoded unit with the same timestamp and picture hint, holding the
/// newest `latency` units back until end of stream.
pub struct DecodeContext {
    /// Decoded units not yet retrieved, oldest first.
    pub buffered: Vec<DecodedUnit>,
    /// How many units the codec keeps to itself until end of stream.
    pub latency: usize,
    pub eof: bool,
}

impl DecodeContext {
    /// A unit is available to `retrieve`.
    pub open spec fn ready(self) -> bool {
        drainable(self.buffered@.len() as int, self.latency as int, self.eof) > 0
    }

    pub fn new(latency: usize) -> (r: DecodeContext)
        ensures
            r.buffered@ == Seq::<DecodedUnit>::empty(),
            r.latency == latency,
            !r.eof,
    {
        DecodeContext { buffered: Vec::new(), latency, eof: false }
    }

    /// Push one compressed unit in.  A malformed unit is rejected and
    /// leaves the context unchanged; an accepted unit is decoded, keeping
    /// its timestamp and picture hint.
    pub fn submit(&mut self, unit: &CompressedUnit) -> (r: Result<(), EngineReject>)
        requires
            !old(self).eof,
        ensures
            r is Err <==> unit.malformed,
            unit.malformed ==> final(self).buffered@ == old(self).buffered@,
            !unit.malformed ==> final(self).buffered@ == old(self).buffered@.push(
                DecodedUnit { pts: unit.pts, hint: unit.hint },
            ),
            final(self).latency == old(self).latency,
            final(self).eof == old(self).eof,
    {
        if unit.malformed {
            Err(EngineReject {  })
        } else {
            self.buffered.push(DecodedUnit { pts: unit.pts, hint: unit.hint });
            Ok(())
        }
    }

    /// Pull the oldest available decoded unit, or report that no more
    /// output is available for now.
    pub fn retrieve(&mut self) -> (r: Option<DecodedUnit>)
        ensures
            final(self).latency == old(self).latency,
            final(self).eof == old(self).eof,
            old(self).ready() ==> r == Some(old(self).buffered@[0]) && final(self).buffered@
                == old(self).buffered@.skip(1),
            !old(self).ready() ==> r is None && final(self).buffered@ == old(self).buffered@,
    {
        let ready = if self.eof {
            self.buffered.len() > 0
        } else {
            self.buffered.len() > self.latency
        };
        if ready {
            let unit = self.buffered.remove(0);
            proof {
                assert(old(self).buffered@.remove(0) =~= old(self).buffered@.skip(1));
            }
            Some(unit)
        } else {
            None
        }
    }

    /// Signal end of stream: every buffered unit becomes retrievable.
    pub fn signal_eof(&mut self)
        ensures
            final(self).buffered@ == old(self).buffered@,
            final(self).latency == old(self).latency,
            final(self).eof,
    {
        self.eof = true;
    }
}

/// A decoded unit accepted by the encode context, waiting to come out as a
/// compressed unit.
#[derive(Clone, Copy, Debug, PartialEq, Eq, Structural)]
pub struct PendingFrame {
    pub pts: i64,
    pub hint: crate::units::PictureHint,
}

/// Model encode context, the mirror image of [`DecodeContext`]: each
/// submitted decoded unit comes out as one compressed unit with the same
/// timestamp, the newest `latency` of them held back until end of stream.
pub struct EncodeContext {
    /// Accepted frames not yet retrieved as packets, oldest first.
    pub buffered: Vec<PendingFrame>,
    /// How many units the codec keeps to itself until end of stream.
    pub latency: usize,
    pub eof: bool,
}

impl EncodeContext {
    /// A unit is available to `retrieve`.
    pub open spec fn ready(self) -> bool {
        drainable(self.buffered@.len() as int, self.latency as int, self.eof) > 0
    }

    pub fn new(latency: usize) -> (r: EncodeContext)
        ensures
            r.buffered@ == Seq::<PendingFrame>::empty(),
            r.latency == latency,
            !r.eof,
    {
        EncodeContext { buffered: Vec::new(), latency, eof: false }
    }

    /// Push one decoded unit in.  The unit must carry a timestamp: an
    /// encoder input without one would come out without one and be
    /// rejected by downstream muxers, which the orchestrator rules out by
    /// synthesizing timestamps first.
    pub fn submit(&mut self, frame: &DecodedUnit)
        requires
            !old(self).eof,
            frame.pts is Some,
        ensures
            final(self).buffered@ == old(self).buffered@.push(
                PendingFrame { pts: frame.pts->0, hint: frame.hint },
            ),
            final(self).latency == old(self).latency,
            final(self).eof == old(self).eof,
    {
        let pts = match frame.pts {
            Option::Some(p) => p,
            Option::None => 0,
        };
        self.buffered.push(PendingFrame { pts, hint: frame.hint });
    }

    /// Pull the oldest available compressed unit, or report that no more
    /// output is available for now.  The unit comes out with the frame's
    /// timestamp, still in the encoder's working time base, and with no
    /// destination stream assigned yet.
    pub fn retrieve(&mut self) -> (r: Option<PendingFrame>)
        ensures
            final(self).latency == old(self).latency,
            final(self).eof == old(self).eof,
            old(self).ready() ==> r == Some(old(self).buffered@[0]) && final(self).buffered@
                == old(self).buffered@.skip(1),
            !old(self).ready() ==> r is None && final(self).buffered@ == old(self).buffered@,
    {
        let ready = if self.eof {
            self.buffered.len() > 0
        } else {
            self.buffered.len() > self.latency
        };
        if ready {
            let unit = self.buffered.remove(0);
            proof {
                assert(old(self).buffered@.remove(0) =~= old(self).buffered@.skip(1));
            }
            Some(unit)
        } else {
            None
        }
    }

    /// Signal end of stream: every buffered unit becomes retrievable.
    pub fn signal_eof(&mut self)
        ensures
            final(self).buffered@ == old(self).buffered@,
            final(self).latency == old(self).latency,
            final(self).eof,
    {
        self.eof = true;
    }
}

} // verus!

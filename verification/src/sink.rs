//! Model of the output container and its muxer.
//!
//! The muxer is an external collaborator: the orchestrator adds output
//! streams, writes the header, hands it correctly-timestamped units for
//! interleaved writing, and finally writes the trailer.  A write may fail
//! downstream; such a unit is dropped and the pipeline continues, so the
//! model records every attempted unit together with whether its write
//! succeeded.  Failures are scripted by attempt number, which is how the
//! tests inject simulated I/O hiccups.

use vstd::prelude::*;

verus! {

use crate::rational::Rational;
use crate::streams::MediaKind;
use crate::units::OutputPacket;

/// The muxer rejected an interleaved write: a downstream I/O failure.
#[derive(Clone, Copy, Debug, PartialEq, Eq, Structural)]
pub struct WriteFailure {
}

/// One stream of the output container.
#[derive(Clone, Copy, Debug, PartialEq, Eq, Structural)]
pub struct OutputStreamInfo {
    pub kind: MediaKind,
    pub time_base: Rational,
    /// The container-level codec-identifying tag.  It is cleared to zero
    /// when the stream is set up: carrying the source container's tag into
    /// a different container format can make the two incompatible.
    pub codec_tag: u32,
}

/// The output container: its streams, its header/trailer state, and the
/// record of every interleaved write the orchestrator attempted.
pub struct OutputSink {
    pub streams: Vec<OutputStreamInfo>,
    pub header_written: bool,
    pub trailer_written: bool,
    /// Every unit handed to `write_interleaved`, in call order.
    pub attempted: Vec<OutputPacket>,
    /// For each attempted unit, whether its write succeeded.
    pub accepted: Vec<bool>,
    /// Scripted downstream failures: the attempt numbers that fail.
    pub fail_attempts: Vec<usize>,
}

impl OutputSink {
    /// The write record is consistent: one verdict per attempt, and a
    /// write succeeded exactly when its attempt number was not scripted to
    /// fail.
    pub open spec fn wf(self) -> bool {
        &&& self.accepted@.len() == self.attempted@.len()
        &&& forall|j: int|
            0 <= j < self.accepted@.len() ==> self.accepted@[j] == !self.fail_attempts@.contains(
                j as usize,
            )
    }

    /// A fresh output container, with the given failure script.
    pub fn new(fail_attempts: Vec<usize>) -> (r: OutputSink)
        ensures
            r.streams@ == Seq::<OutputStreamInfo>::empty(),
            !r.header_written,
            !r.trailer_written,
            r.attempted@ == Seq::<OutputPacket>::empty(),
            r.accepted@ == Seq::<bool>::empty(),
            r.fail_attempts == fail_attempts,
            r.wf(),
    {
        OutputSink {
            streams: Vec::new(),
            header_written: false,
            trailer_written: false,
            attempted: Vec::new(),
            accepted: Vec::new(),
            fail_attempts,
        }
    }

    /// Adds one output stream, before the header is written, and returns
    /// its index.  The codec tag starts cleared.
    pub fn add_stream(&mut self, kind: MediaKind, time_base: Rational) -> (output_index: usize)
        requires
            !old(self).header_written,
        ensures
            output_index as int == old(self).streams@.len(),
            final(self).streams@ == old(self).streams@.push(
                OutputStreamInfo { kind, time_base, codec_tag: 0 },
            ),
            final(self).header_written == old(self).header_written,
            final(self).trailer_written == old(self).trailer_written,
            final(self).attempted@ == old(self).attempted@,
            final(self).accepted@ == old(self).accepted@,
            final(self).fail_attempts == old(self).fail_attempts,
    {
        let output_index = self.streams.len();
        self.streams.push(OutputStreamInfo { kind, time_base, codec_tag: 0 });
        output_index
    }

    /// Writes the container header.  Streams are fixed from here on.
    pub fn write_header(&mut self)
        requires
            !old(self).header_written,
        ensures
            final(self).streams@ == old(self).streams@,
            final(self).header_written,
            final(self).trailer_written == old(self).trailer_written,
            final(self).attempted@ == old(self).attempted@,
            final(self).accepted@ == old(self).accepted@,
            final(self).fail_attempts == old(self).fail_attempts,
    {
        self.header_written = true;
    }

    /// Whether the failure script makes the given attempt number fail.
    fn attempt_fails(&self, attempt: usize) -> (r: bool)
        ensures
            r == self.fail_attempts@.contains(attempt),
    {
        let n = self.fail_attempts.len();
        let mut i: usize = 0;
        while i < n
            invariant
                n == self.fail_attempts@.len(),
                0 <= i <= n,
                forall|j: int| 0 <= j < i as int ==> self.fail_attempts@[j] != attempt,
            decreases n - i,
        {
            if self.fail_attempts[i] == attempt {
                assert(self.fail_attempts@.contains(attempt));
                return true;
            }
            i = i + 1;
        }
        false
    }

    /// Hands one unit to the muxer for interleaved writing.  The unit is
    /// recorded as attempted either way; on a downstream failure it is
    /// dropped and `Err` is returned, which the orchestrator logs without
    /// aborting the pipeline.
    pub fn write_interleaved(&mut self, packet: OutputPacket) -> (r: Result<(), WriteFailure>)
        requires
            old(self).wf(),
            old(self).header_written,
            !old(self).trailer_written,
            packet.stream_index < old(self).streams@.len(),
        ensures
            final(self).streams@ == old(self).streams@,
            final(self).header_written,
            !final(self).trailer_written,
            final(self).fail_attempts == old(self).fail_attempts,
            final(self).attempted@ == old(self).attempted@.push(packet),
            final(self).accepted@ == old(self).accepted@.push(
                !old(self).fail_attempts@.contains(old(self).attempted@.len() as usize),
            ),
            r is Ok <==> !old(self).fail_attempts@.contains(old(self).attempted@.len() as usize),
            final(self).wf(),
    {
        let attempt = self.attempted.len();
        let fails = self.attempt_fails(attempt);
        self.attempted.push(packet);
        self.accepted.push(!fails);
        if fails {
            Err(WriteFailure {  })
        } else {
            Ok(())
        }
    }

    /// Writes the container trailer, finalizing the output.
    pub fn write_trailer(&mut self)
        requires
            old(self).header_written,
            !old(self).trailer_written,
        ensures
            final(self).streams@ == old(self).streams@,
            final(self).header_written,
            final(self).trailer_written,
            final(self).attempted@ == old(self).attempted@,
            final(self).accepted@ == old(self).accepted@,
            final(self).fail_attempts == old(self).fail_attempts,
    {
        self.trailer_written = true;
    }
}

} // verus!

//! The pump/flush controller: the top-level orchestration loop.
//!
//! After the input container's streams are classified, the controller sets
//! up the output container (one stream per kept input stream, codec tags
//! cleared, time bases assigned), writes the header, then reads compressed
//! units in order and dispatches each: dropped streams are discarded,
//! transcoded streams go through their transcoder's decode-encode pump,
//! and every other kept stream is copied — timestamp rescaled into the
//! output time base, stale position cleared, destination stream set, and
//! written interleaved.  At end of input every transcoder is flushed in
//! isolation (their streams are disjoint, so order across transcoders does
//! not matter), and only then is the trailer written.  A downstream write
//! failure never aborts the run: the unit is dropped and the pipeline
//! continues to the trailer.

use vstd::prelude::*;

verus! {

use crate::rational::{rescale, Rational};
use crate::sink::{OutputSink, OutputStreamInfo};
use crate::streams::{
    classify_streams,
    kept_before,
    kept_count,
    lemma_kept_before_bounds,
    lemma_kept_before_mono,
    route_of,
    video_before,
    MediaKind,
    StreamDescriptor,
    StreamRoute,
};
use crate::transcoder::Transcoder;
use crate::units::{CompressedUnit, OutputPacket};

/// The fixed choices a pipeline run is made with.
#[derive(Clone, Copy, Debug)]
pub struct PipelineConfig {
    /// The codec engine's working time base, into which every unit bound
    /// for a decoder is rescaled.
    pub decoder_time_base: Rational,
    /// The time base assigned to transcoded output streams.
    pub output_time_base: Rational,
    /// The decode contexts' internal buffering.
    pub decoder_latency: usize,
    /// The encode contexts' internal buffering.
    pub encoder_latency: usize,
    /// Where the monotonic timestamp fallback starts.
    pub initial_pts: i64,
}

impl PipelineConfig {
    pub open spec fn wf(self) -> bool {
        &&& self.decoder_time_base.wf()
        &&& self.output_time_base.wf()
    }
}

/// What a pipeline run leaves behind: the output container with its full
/// write record, the transcoders in their flushed final states, and the
/// counts of units that were skipped.
pub struct PipelineOutcome {
    pub sink: OutputSink,
    pub transcoders: Vec<Transcoder>,
    /// Units the decoder rejected as malformed; each was logged and
    /// skipped.
    pub rejected_units: u64,
    /// Units whose stream is dropped.
    pub discarded_units: u64,
}

/// The output stream owed to kept input stream `s`: same media kind, codec
/// tag cleared, and the output time base — the transcoded streams'
/// assigned time base for video, the input stream's own time base for the
/// copied streams.
pub open spec fn expected_stream_info(
    streams: Seq<StreamDescriptor>,
    config: PipelineConfig,
    s: int,
) -> OutputStreamInfo {
    OutputStreamInfo {
        kind: streams[s].kind,
        time_base: if streams[s].kind == MediaKind::Video {
            config.output_time_base
        } else {
            streams[s].time_base
        },
        codec_tag: 0,
    }
}

/// The whole output stream list owed for the first `i` input streams: one
/// entry per kept stream, in input order.
pub open spec fn expected_streams(
    streams: Seq<StreamDescriptor>,
    config: PipelineConfig,
    i: int,
) -> Seq<OutputStreamInfo>
    decreases i,
{
    if i <= 0 {
        Seq::empty()
    } else if streams[i - 1].kind.is_kept() {
        expected_streams(streams, config, i - 1).push(
            expected_stream_info(streams, config, i - 1),
        )
    } else {
        expected_streams(streams, config, i - 1)
    }
}

pub proof fn lemma_expected_streams_len(
    streams: Seq<StreamDescriptor>,
    config: PipelineConfig,
    i: int,
)
    requires
        0 <= i,
    ensures
        expected_streams(streams, config, i).len() == kept_before(streams, i),
    decreases i,
{
    if i > 0 {
        lemma_expected_streams_len(streams, config, i - 1);
    }
}

/// Kept input stream `s` finds its output stream at index
/// `kept_before(streams, s)` of the output stream list.
pub proof fn lemma_expected_streams_index(
    streams: Seq<StreamDescriptor>,
    config: PipelineConfig,
    n: int,
    s: int,
)
    requires
        0 <= s < n,
        streams[s].kind.is_kept(),
    ensures
        0 <= kept_before(streams, s) < expected_streams(streams, config, n).len(),
        expected_streams(streams, config, n)[kept_before(streams, s)] == expected_stream_info(
            streams,
            config,
            s,
        ),
    decreases n,
{
    lemma_expected_streams_len(streams, config, n);
    lemma_expected_streams_len(streams, config, n - 1);
    lemma_kept_before_bounds(streams, s);
    if s == n - 1 {
    } else {
        lemma_expected_streams_index(streams, config, n - 1, s);
        lemma_kept_before_mono(streams, s + 1, n - 1);
    }
}

/// How many of the first `i` units sit on a dropped stream.
pub open spec fn discard_count(
    streams: Seq<StreamDescriptor>,
    packets: Seq<CompressedUnit>,
    i: int,
) -> int
    decreases i,
{
    if i <= 0 {
        0
    } else {
        discard_count(streams, packets, i - 1) + if route_of(
            streams,
            packets[i - 1].stream_index as int,
        ) is Discard {
            1int
        } else {
            0int
        }
    }
}

/// How many of the first `i` units are malformed units bound for a
/// transcoder, which the decode context rejects and the pipeline skips.
pub open spec fn reject_count(
    streams: Seq<StreamDescriptor>,
    packets: Seq<CompressedUnit>,
    i: int,
) -> int
    decreases i,
{
    if i <= 0 {
        0
    } else {
        reject_count(streams, packets, i - 1) + if route_of(
            streams,
            packets[i - 1].stream_index as int,
        ) is Transcode && packets[i - 1].malformed {
            1int
        } else {
            0int
        }
    }
}

/// A transcoder that has gone through its end-of-stream flush: both
/// contexts flushed and empty.
pub open spec fn flushed(tx: Transcoder) -> bool {
    &&& tx.decoder.eof
    &&& tx.decoder.buffered@.len() == 0
    &&& tx.encoder.eof
    &&& tx.encoder.buffered@.len() == 0
}

/// A transcoder in its live pumping state, bound to the given
/// configuration and writing inside the output container's streams.
pub open spec fn live(tx: Transcoder, config: PipelineConfig, n_outputs: int) -> bool {
    &&& tx.wf()
    &&& tx.encoder_settled()
    &&& !tx.decoder.eof
    &&& !tx.encoder.eof
    &&& tx.output_index < n_outputs
    &&& tx.decoder_time_base == config.decoder_time_base
    &&& tx.output_time_base == config.output_time_base
}

/// Runs the whole pipeline over the given input: classifies the streams,
/// sets up the output container, pumps every compressed unit through its
/// route, flushes every transcoder, and finalizes the container.
pub fn run_pipeline(
    streams: &Vec<StreamDescriptor>,
    packets: &Vec<CompressedUnit>,
    config: PipelineConfig,
    fail_attempts: Vec<usize>,
) -> (outcome: PipelineOutcome)
    requires
        config.wf(),
        forall|i: int| 0 <= i < streams@.len() ==> (#[trigger] streams@[i]).wf(),
        forall|i: int|
            0 <= i < packets@.len() ==> (#[trigger] packets@[i]).stream_index < streams@.len(),
    ensures
        outcome.sink.wf(),
        outcome.sink.header_written,
        // the run completes and the trailer is written even when
        // downstream writes failed along the way
        outcome.sink.trailer_written,
        outcome.sink.fail_attempts == fail_attempts,
        // one output stream per kept input stream, dense in input order
        outcome.sink.streams@.len() == kept_count(streams@),
        forall|s: int|
            0 <= s < streams@.len() && streams@[s].kind.is_kept()
                ==> outcome.sink.streams@[#[trigger] kept_before(streams@, s)]
                == expected_stream_info(streams@, config, s),
        // every attempted write went to an existing output stream
        forall|j: int|
            0 <= j < outcome.sink.attempted@.len() ==> (#[trigger] outcome.sink.attempted@[j]).stream_index
                < outcome.sink.streams@.len(),
        // every unit on a dropped stream is discarded, and every malformed
        // unit bound for a transcoder is rejected and skipped
        outcome.discarded_units as int == ({
            let d = discard_count(streams@, packets@, packets@.len() as int);
            if d <= u64::MAX {
                d
            } else {
                u64::MAX as int
            }
        }),
        outcome.rejected_units as int == ({
            let d = reject_count(streams@, packets@, packets@.len() as int);
            if d <= u64::MAX {
                d
            } else {
                u64::MAX as int
            }
        }),
        // one transcoder per video stream, each fully flushed
        outcome.transcoders@.len() == video_before(streams@, streams@.len() as int),
        forall|j: int|
            0 <= j < outcome.transcoders@.len() ==> flushed(#[trigger] outcome.transcoders@[j])
                && outcome.transcoders@[j].wf(),
{
    let routes = classify_streams(streams);
    let mut sink = OutputSink::new(fail_attempts);
    let mut transcoders: Vec<Transcoder> = Vec::new();
    let mut tx_of: Vec<Option<usize>> = Vec::new();

    // Set up one output stream per kept input stream, and one transcoder
    // per video stream.
    let n = streams.len();
    let mut i: usize = 0;
    while i < n
        invariant
            n == streams@.len(),
            0 <= i <= n,
            config.wf(),
            forall|s: int| 0 <= s < streams@.len() ==> (#[trigger] streams@[s]).wf(),
            routes@.len() == streams@.len(),
            forall|s: int| 0 <= s < streams@.len() ==> routes@[s] == route_of(streams@, s),
            !sink.header_written,
            !sink.trailer_written,
            sink.attempted@.len() == 0,
            sink.accepted@.len() == 0,
            sink.fail_attempts == fail_attempts,
            sink.wf(),
            sink.streams@.len() == kept_before(streams@, i as int),
            sink.streams@ == expected_streams(streams@, config, i as int),
            transcoders@.len() == video_before(streams@, i as int),
            forall|j: int|
                0 <= j < transcoders@.len() ==> live(
                    #[trigger] transcoders@[j],
                    config,
                    sink.streams@.len() as int,
                ) && transcoders@[j].frame_count == 0 && transcoders@[j].last_pts
                    == config.initial_pts,
            tx_of@.len() == i as int,
            forall|s: int|
                0 <= s < i as int ==> ((route_of(streams@, s) is Transcode) == (
                #[trigger] tx_of@[s]) is Some),
            forall|s: int|
                0 <= s < i as int ==> (#[trigger] tx_of@[s] matches Some(ti) ==> ti
                    < transcoders@.len() && (route_of(streams@, s) matches StreamRoute::Transcode {
                    output_index,
                } ==> transcoders@[ti as int].output_index == output_index)),
        decreases n - i,
    {
        proof {
            lemma_kept_before_bounds(streams@, i as int);
        }
        let route = routes[i];
        match route {
            StreamRoute::Transcode { output_index } => {
                let assigned = sink.add_stream(streams[i].kind, config.output_time_base);
                proof {
                    assert(streams@[i as int].kind == MediaKind::Video);
                    assert(assigned == output_index);
                    assert(sink.streams@ == expected_streams(streams@, config, i as int + 1));
                }
                let tx = Transcoder::new(
                    output_index,
                    config.decoder_time_base,
                    config.output_time_base,
                    config.decoder_latency,
                    config.encoder_latency,
                    config.initial_pts,
                );
                tx_of.push(Some(transcoders.len()));
                transcoders.push(tx);
            },
            StreamRoute::Copy { output_index } => {
                let assigned = sink.add_stream(streams[i].kind, streams[i].time_base);
                proof {
                    assert(streams@[i as int].kind != MediaKind::Video);
                    assert(assigned == output_index);
                    assert(sink.streams@ == expected_streams(streams@, config, i as int + 1));
                }
                tx_of.push(None);
            },
            StreamRoute::Discard => {
                proof {
                    assert(!streams@[i as int].kind.is_kept());
                    assert(sink.streams@ == expected_streams(streams@, config, i as int + 1));
                }
                tx_of.push(None);
            },
        }
        i = i + 1;
    }
    proof {
        lemma_expected_streams_len(streams@, config, n as int);
    }
    sink.write_header();

    // The pump: dispatch every compressed unit along its stream's route.
    let mut rejected_units: u64 = 0;
    let mut discarded_units: u64 = 0;
    let np = packets.len();
    let mut p: usize = 0;
    while p < np
        invariant
            np == packets@.len(),
            0 <= p <= np,
            n == streams@.len(),
            config.wf(),
            forall|s: int| 0 <= s < streams@.len() ==> (#[trigger] streams@[s]).wf(),
            forall|s: int|
                0 <= s < packets@.len() ==> (#[trigger] packets@[s]).stream_index < streams@.len(),
            routes@.len() == streams@.len(),
            forall|s: int| 0 <= s < streams@.len() ==> routes@[s] == route_of(streams@, s),
            sink.header_written,
            !sink.trailer_written,
            sink.fail_attempts == fail_attempts,
            sink.wf(),
            sink.streams@.len() == kept_count(streams@),
            sink.streams@ == expected_streams(streams@, config, n as int),
            forall|j: int|
                0 <= j < sink.attempted@.len() ==> (#[trigger] sink.attempted@[j]).stream_index
                    < sink.streams@.len(),
            transcoders@.len() == video_before(streams@, n as int),
            forall|j: int|
                0 <= j < transcoders@.len() ==> live(
                    #[trigger] transcoders@[j],
                    config,
                    sink.streams@.len() as int,
                ),
            tx_of@.len() == streams@.len(),
            forall|s: int|
                0 <= s < streams@.len() ==> ((route_of(streams@, s) is Transcode) == (
                #[trigger] tx_of@[s]) is Some),
            forall|s: int|
                0 <= s < streams@.len() ==> (#[trigger] tx_of@[s] matches Some(ti) ==> ti
                    < transcoders@.len() && (route_of(streams@, s) matches StreamRoute::Transcode {
                    output_index,
                } ==> transcoders@[ti as int].output_index == output_index)),
            discarded_units as int == ({
                let d = discard_count(streams@, packets@, p as int);
                if d <= u64::MAX {
                    d
                } else {
                    u64::MAX as int
                }
            }),
            rejected_units as int == ({
                let d = reject_count(streams@, packets@, p as int);
                if d <= u64::MAX {
                    d
                } else {
                    u64::MAX as int
                }
            }),
        decreases np - p,
    {
        let packet = packets[p];
        let si = packet.stream_index;
        let route = routes[si];
        match route {
            StreamRoute::Discard => {
                discarded_units = discarded_units.saturating_add(1);
            },
            StreamRoute::Transcode { output_index: _ } => {
                match tx_of[si] {
                    Option::Some(ti) => {
                        // Rescale the unit into the engine's working time
                        // base before handing it to the decoder.
                        let rescaled: Option<i64> = match packet.pts {
                            Option::Some(t) => Option::Some(
                                rescale(t, streams[si].time_base, config.decoder_time_base),
                            ),
                            Option::None => Option::None,
                        };
                        let unit = CompressedUnit {
                            stream_index: si,
                            pts: rescaled,
                            position: packet.position,
                            malformed: packet.malformed,
                            hint: packet.hint,
                        };
                        let tx = &mut transcoders[ti];
                        let submitted = tx.submit_compressed(&unit);
                        match submitted {
                            Result::Ok(()) => {},
                            Result::Err(_) => {
                                // The engine rejected a malformed unit:
                                // logged by the front end and skipped, the
                                // stream continues.
                                rejected_units = rejected_units.saturating_add(1);
                            },
                        }
                        tx.drain_decoded(&mut sink);
                        proof {
                            assert forall|j: int|
                                0 <= j < sink.attempted@.len() implies (
                            #[trigger] sink.attempted@[j]).stream_index
                                < sink.streams@.len() by {}
                        }
                    },
                    Option::None => {
                        // A transcode route always has its transcoder.
                        proof {
                            assert(false);
                        }
                    },
                }
            },
            StreamRoute::Copy { output_index } => {
                proof {
                    assert(streams@[si as int].kind.is_kept());
                    lemma_kept_before_bounds(streams@, si as int);
                    lemma_expected_streams_index(streams@, config, n as int, si as int);
                    assert(output_index as int == kept_before(streams@, si as int));
                    assert(sink.streams@[output_index as int] == expected_stream_info(
                        streams@,
                        config,
                        si as int,
                    ));
                }
                let ost_time_base = sink.streams[output_index].time_base;
                let rescaled: Option<i64> = match packet.pts {
                    Option::Some(t) => Option::Some(
                        rescale(t, streams[si].time_base, ost_time_base),
                    ),
                    Option::None => Option::None,
                };
                let out = OutputPacket {
                    stream_index: output_index,
                    pts: rescaled,
                    position: -1,
                };
                // A downstream write failure is logged by the front end
                // and the unit is dropped; the pipeline continues.
                let _ = sink.write_interleaved(out);
            },
        }
        p = p + 1;
    }

    // End of input: flush every transcoder in isolation, then finalize.
    let nt = transcoders.len();
    let mut f: usize = 0;
    while f < nt
        invariant
            nt == transcoders@.len(),
            0 <= f <= nt,
            config.wf(),
            sink.header_written,
            !sink.trailer_written,
            sink.fail_attempts == fail_attempts,
            sink.wf(),
            n == streams@.len(),
            sink.streams@.len() == kept_count(streams@),
            sink.streams@ == expected_streams(streams@, config, n as int),
            forall|j: int|
                0 <= j < sink.attempted@.len() ==> (#[trigger] sink.attempted@[j]).stream_index
                    < sink.streams@.len(),
            forall|j: int|
                0 <= j < f as int ==> flushed(#[trigger] transcoders@[j])
                    && transcoders@[j].wf(),
            forall|j: int|
                f as int <= j < transcoders@.len() ==> live(
                    #[trigger] transcoders@[j],
                    config,
                    sink.streams@.len() as int,
                ),
        decreases nt - f,
    {
        let tx = &mut transcoders[f];
        tx.flush(&mut sink);
        proof {
            assert forall|j: int|
                0 <= j < sink.attempted@.len() implies (#[trigger] sink.attempted@[j]).stream_index
                < sink.streams@.len() by {}
        }
        f = f + 1;
    }
    sink.write_trailer();
    proof {
        assert forall|s: int|
            0 <= s < streams@.len() && streams@[s].kind.is_kept() implies sink.streams@[
        #[trigger] kept_before(streams@, s)] == expected_stream_info(streams@, config, s) by {
            lemma_expected_streams_index(streams@, config, n as int, s);
        }
    }

    PipelineOutcome { sink, transcoders, rejected_units, discarded_units }
}

} // verus!

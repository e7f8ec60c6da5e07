//! The transcoder: one per video stream elected for re-encoding.
//!
//! A transcoder owns one decode context and one encode context bound to one
//! (input stream, output stream) pair, and keeps two clocks of reference:
//! the engine's working time base and the output stream's assigned time
//! base.  Compressed units are pushed into the decoder; decoded units are
//! drained, given synthesized timestamps where the decoder produced none,
//! stripped of their source picture-type hints, and pushed into the
//! encoder; encoded units are drained, tagged with the output stream,
//! rescaled into its time base, and handed to the muxer.  Each submission
//! is paired with an immediate drain, so buffering stays inside the codec
//! contexts — the backpressure discipline.  At end of input the decoder is
//! flushed fully, including its cascade into the encoder, before the
//! encoder itself is flushed.

use vstd::prelude::*;

verus! {

use crate::engine::{drainable, DecodeContext, EncodeContext, PendingFrame};
use crate::rational::{clamp_i64, rescale, rescale_ticks, Rational};
use crate::sink::OutputSink;
use crate::timing::{
    emitted_before,
    lemma_synth_pts_seq_index,
    lemma_synth_pts_seq_len,
    synth_next_pts,
    synth_pts_seq,
};
use crate::units::{CompressedUnit, DecodedUnit, EngineReject, OutputPacket, PictureHint};

/// The unit the muxer is owed for an encoded frame with timestamp `pts` in
/// the decoder's working time base `from`: tagged with the transcoder's
/// output stream, rescaled into the output time base `to`, its stale
/// byte-offset position cleared.
pub open spec fn packet_for(output_index: usize, from: Rational, to: Rational, pts: i64)
    -> OutputPacket {
    OutputPacket {
        stream_index: output_index,
        pts: Some(clamp_i64(rescale_ticks(pts as int, from, to)) as i64),
        position: -1 as i64,
    }
}

/// The units the muxer is owed for a sequence of encoded frames.
pub open spec fn packets_for(
    output_index: usize,
    from: Rational,
    to: Rational,
    frames: Seq<PendingFrame>,
) -> Seq<OutputPacket> {
    Seq::new(frames.len(), |i: int| packet_for(output_index, from, to, frames[i].pts))
}

/// The timestamps of a sequence of decoded units, as the decoder reported
/// them (absent where the codec recovered none).
pub open spec fn source_pts_of(frames: Seq<DecodedUnit>) -> Seq<Option<i64>> {
    Seq::new(frames.len(), |i: int| frames[i].pts)
}

/// The frames owed to the encoder for a sequence of synthesized
/// timestamps: every picture-type hint stripped, every timestamp present.
pub open spec fn encoder_frames_for(synths: Seq<int>) -> Seq<PendingFrame> {
    Seq::new(synths.len(), |i: int| PendingFrame { pts: synths[i] as i64, hint: PictureHint::Unspecified })
}

/// What the orchestrator reads back from an opened decode context to
/// configure the matching encoder.
#[derive(Clone, Copy, Debug)]
pub struct DecoderInfo {
    pub width: u32,
    pub height: u32,
    /// The engine's enumeration value for the picture's pixel format.
    pub pixel_format: i32,
    pub aspect_ratio: Rational,
    /// The frame rate the decoder declares, when it declares one.
    pub frame_rate: Option<Rational>,
}

/// The encoder configuration the orchestrator owes for one transcoded
/// stream.
#[derive(Clone, Copy, Debug)]
pub struct EncoderSettings {
    pub width: u32,
    pub height: u32,
    pub pixel_format: i32,
    pub aspect_ratio: Rational,
    /// The output stream's assigned time base: the reciprocal of the
    /// best-guessed frame rate, not the source container's time base,
    /// because constant-frame-rate encoders need a stable low-denominator
    /// clock.
    pub time_base: Rational,
    /// Whether the container format wants codec headers globally rather
    /// than in-band.
    pub global_header: bool,
}

/// The frame-rate guess the output time base is derived from: the
/// container-declared rate when the container has one, else the
/// decoder-declared rate, else the configured default.
pub open spec fn guessed_frame_rate(
    container_rate: Option<Rational>,
    decoder_rate: Option<Rational>,
    default_rate: Rational,
) -> Rational {
    if container_rate is Some {
        container_rate->0
    } else if decoder_rate is Some {
        decoder_rate->0
    } else {
        default_rate
    }
}

/// Picks the output time base for a transcoded stream: the reciprocal of
/// the best-guessed frame rate.
pub fn choose_output_time_base(
    container_rate: Option<Rational>,
    decoder_rate: Option<Rational>,
    default_rate: Rational,
) -> (r: Rational)
    requires
        container_rate matches Some(c) ==> c.wf(),
        decoder_rate matches Some(d) ==> d.wf(),
        default_rate.wf(),
    ensures
        ({
            let rate = guessed_frame_rate(container_rate, decoder_rate, default_rate);
            r == (Rational { num: rate.den, den: rate.num })
        }),
        r.wf(),
{
    let rate = match container_rate {
        Option::Some(c) => c,
        Option::None => match decoder_rate {
            Option::Some(d) => d,
            Option::None => default_rate,
        },
    };
    rate.invert()
}

/// Configures an encoder for one transcoded stream: picture geometry,
/// pixel format and aspect ratio are copied from the decoder, while the
/// time base is fixed to the reciprocal of the best-guessed frame rate.
pub fn encoder_settings(
    dec: &DecoderInfo,
    container_rate: Option<Rational>,
    default_rate: Rational,
    global_header: bool,
) -> (s: EncoderSettings)
    requires
        container_rate matches Some(c) ==> c.wf(),
        dec.frame_rate matches Some(d) ==> d.wf(),
        default_rate.wf(),
    ensures
        s.width == dec.width,
        s.height == dec.height,
        s.pixel_format == dec.pixel_format,
        s.aspect_ratio == dec.aspect_ratio,
        ({
            let rate = guessed_frame_rate(container_rate, dec.frame_rate, default_rate);
            s.time_base == (Rational { num: rate.den, den: rate.num })
        }),
        s.time_base.wf(),
        s.global_header == global_header,
{
    let time_base = choose_output_time_base(container_rate, dec.frame_rate, default_rate);
    EncoderSettings {
        width: dec.width,
        height: dec.height,
        pixel_format: dec.pixel_format,
        aspect_ratio: dec.aspect_ratio,
        time_base,
        global_header,
    }
}

pub struct Transcoder {
    /// The output stream every finished unit is tagged with.
    pub output_index: usize,
    /// The engine's working time base, in which decoded and encoded units
    /// carry their timestamps.
    pub decoder_time_base: Rational,
    /// The output stream's assigned time base.
    pub output_time_base: Rational,
    pub decoder: DecodeContext,
    pub encoder: EncodeContext,
    /// Decoded units processed so far, saturating.
    pub frame_count: u64,
    /// The timestamp of the last unit handed to the encoder; the monotonic
    /// fallback continues from here.
    pub last_pts: i64,
}

impl Transcoder {
    /// Both clocks are usable.
    pub open spec fn wf(self) -> bool {
        &&& self.decoder_time_base.wf()
        &&& self.output_time_base.wf()
    }

    /// The backpressure discipline's resting state: the encoder holds no
    /// more than its latency in buffered units, because every submission
    /// is paired with an immediate drain.
    pub open spec fn encoder_settled(self) -> bool {
        self.encoder.buffered@.len() <= self.encoder.latency
    }

    /// A transcoder bound to output stream `output_index`, with fresh
    /// decode and encode contexts of the given latencies, its timestamp
    /// fallback starting from `initial_pts`.
    pub fn new(
        output_index: usize,
        decoder_time_base: Rational,
        output_time_base: Rational,
        decoder_latency: usize,
        encoder_latency: usize,
        initial_pts: i64,
    ) -> (r: Transcoder)
        requires
            decoder_time_base.wf(),
            output_time_base.wf(),
        ensures
            r.output_index == output_index,
            r.decoder_time_base == decoder_time_base,
            r.output_time_base == output_time_base,
            r.decoder.buffered@ == Seq::<DecodedUnit>::empty(),
            r.decoder.latency == decoder_latency,
            !r.decoder.eof,
            r.encoder.buffered@ == Seq::<PendingFrame>::empty(),
            r.encoder.latency == encoder_latency,
            !r.encoder.eof,
            r.frame_count == 0,
            r.last_pts == initial_pts,
            r.wf(),
    {
        Transcoder {
            output_index,
            decoder_time_base,
            output_time_base,
            decoder: DecodeContext::new(decoder_latency),
            encoder: EncodeContext::new(encoder_latency),
            frame_count: 0,
            last_pts: initial_pts,
        }
    }

    /// Pushes one compressed unit into the decode context.  A malformed
    /// unit is rejected by the engine and skipped: the error is returned
    /// for logging and the pipeline continues, since one corrupt unit must
    /// not abort an otherwise recoverable stream.
    pub fn submit_compressed(&mut self, unit: &CompressedUnit) -> (r: Result<(), EngineReject>)
        requires
            old(self).wf(),
            !old(self).decoder.eof,
        ensures
            r is Err <==> unit.malformed,
            unit.malformed ==> final(self).decoder.buffered@ == old(self).decoder.buffered@,
            !unit.malformed ==> final(self).decoder.buffered@ == old(self).decoder.buffered@.push(
                DecodedUnit { pts: unit.pts, hint: unit.hint },
            ),
            final(self).decoder.latency == old(self).decoder.latency,
            final(self).decoder.eof == old(self).decoder.eof,
            final(self).encoder == old(self).encoder,
            final(self).output_index == old(self).output_index,
            final(self).decoder_time_base == old(self).decoder_time_base,
            final(self).output_time_base == old(self).output_time_base,
            final(self).frame_count == old(self).frame_count,
            final(self).last_pts == old(self).last_pts,
            final(self).wf(),
    {
        self.decoder.submit(unit)
    }

    /// The decoded units one drain call pulls out of the decode context:
    /// everything available, oldest first.
    pub open spec fn decoder_output(self) -> Seq<DecodedUnit> {
        self.decoder.buffered@.take(
            drainable(
                self.decoder.buffered@.len() as int,
                self.decoder.latency as int,
                self.decoder.eof,
            ),
        )
    }

    /// The timestamps those units are given: their own where present, the
    /// monotonic fallback where absent.
    pub open spec fn drain_synths(self) -> Seq<int> {
        synth_pts_seq(self.last_pts as int, source_pts_of(self.decoder_output()))
    }

    /// The stream of frames that passes through the encoder during one
    /// decode drain: what it already buffered, then the freshly decoded
    /// units with synthesized timestamps and stripped picture hints.
    pub open spec fn drain_frames(self) -> Seq<PendingFrame> {
        self.encoder.buffered@ + encoder_frames_for(self.drain_synths())
    }

    /// How many of those frames come out of the encoder during the drain:
    /// the live encoder keeps its latency's worth, the rest cascades to
    /// the muxer.
    pub open spec fn drain_pops(self) -> int {
        if self.drain_frames().len() <= self.encoder.latency {
            0
        } else {
            self.drain_frames().len() - self.encoder.latency
        }
    }

    /// The stream of frames a flush pushes through the encoder: what it
    /// already buffered, then everything still inside the decoder, with
    /// synthesized timestamps.  A flush drives all of it to the muxer.
    pub open spec fn flush_frames(self) -> Seq<PendingFrame> {
        self.encoder.buffered@ + encoder_frames_for(
            synth_pts_seq(self.last_pts as int, source_pts_of(self.decoder.buffered@)),
        )
    }

    /// Repeatedly pulls encoded units until the encode context reports no
    /// more output: each is tagged with this transcoder's output stream,
    /// rescaled from the working time base into the output time base, and
    /// handed to the muxer.  A failed write is dropped and the drain
    /// continues.
    pub fn drain_encoded(&mut self, sink: &mut OutputSink)
        requires
            old(self).wf(),
            old(sink).wf(),
            old(sink).header_written,
            !old(sink).trailer_written,
            old(self).output_index < old(sink).streams@.len(),
        ensures
            final(self).output_index == old(self).output_index,
            final(self).decoder_time_base == old(self).decoder_time_base,
            final(self).output_time_base == old(self).output_time_base,
            final(self).decoder == old(self).decoder,
            final(self).frame_count == old(self).frame_count,
            final(self).last_pts == old(self).last_pts,
            final(self).encoder.latency == old(self).encoder.latency,
            final(self).encoder.eof == old(self).encoder.eof,
            final(self).encoder.buffered@ == old(self).encoder.buffered@.skip(
                drainable(
                    old(self).encoder.buffered@.len() as int,
                    old(self).encoder.latency as int,
                    old(self).encoder.eof,
                ),
            ),
            old(self).encoder.eof ==> final(self).encoder.buffered@.len() == 0,
            !old(self).encoder.eof ==> final(self).encoder_settled(),
            final(sink).attempted@ == old(sink).attempted@ + packets_for(
                old(self).output_index,
                old(self).decoder_time_base,
                old(self).output_time_base,
                old(self).encoder.buffered@.take(
                    drainable(
                        old(self).encoder.buffered@.len() as int,
                        old(self).encoder.latency as int,
                        old(self).encoder.eof,
                    ),
                ),
            ),
            final(sink).streams@ == old(sink).streams@,
            final(sink).header_written,
            !final(sink).trailer_written,
            final(sink).fail_attempts == old(sink).fail_attempts,
            final(sink).wf(),
            final(self).wf(),
    {
        let ghost e0 = old(self).encoder.buffered@;
        let ghost m = drainable(e0.len() as int, old(self).encoder.latency as int, old(self).encoder.eof);
        let ghost a0 = old(sink).attempted@;
        let ghost mut k: int = 0;
        proof {
            assert(e0.skip(0) =~= e0);
            assert(a0 + packets_for(
                old(self).output_index,
                old(self).decoder_time_base,
                old(self).output_time_base,
                e0.take(0),
            ) =~= a0);
        }
        loop
            invariant_except_break
                self.wf(),
                sink.wf(),
                sink.header_written,
                !sink.trailer_written,
                self.output_index == old(self).output_index,
                self.decoder_time_base == old(self).decoder_time_base,
                self.output_time_base == old(self).output_time_base,
                self.decoder == old(self).decoder,
                self.frame_count == old(self).frame_count,
                self.last_pts == old(self).last_pts,
                self.encoder.latency == old(self).encoder.latency,
                self.encoder.eof == old(self).encoder.eof,
                sink.streams@ == old(sink).streams@,
                sink.fail_attempts == old(sink).fail_attempts,
                self.output_index < sink.streams@.len(),
                m == drainable(e0.len() as int, self.encoder.latency as int, self.encoder.eof),
                0 <= k <= m <= e0.len(),
                self.encoder.buffered@ == e0.skip(k),
                sink.attempted@ == a0 + packets_for(
                    old(self).output_index,
                    old(self).decoder_time_base,
                    old(self).output_time_base,
                    e0.take(k),
                ),
                self.encoder.ready() <==> k < m,
            ensures
                self.wf(),
                sink.wf(),
                sink.header_written,
                !sink.trailer_written,
                self.output_index == old(self).output_index,
                self.decoder_time_base == old(self).decoder_time_base,
                self.output_time_base == old(self).output_time_base,
                self.decoder == old(self).decoder,
                self.frame_count == old(self).frame_count,
                self.last_pts == old(self).last_pts,
                self.encoder.latency == old(self).encoder.latency,
                self.encoder.eof == old(self).encoder.eof,
                sink.streams@ == old(sink).streams@,
                sink.fail_attempts == old(sink).fail_attempts,
                self.encoder.buffered@ == e0.skip(m),
                sink.attempted@ == a0 + packets_for(
                    old(self).output_index,
                    old(self).decoder_time_base,
                    old(self).output_time_base,
                    e0.take(m),
                ),
            decreases m - k,
        {
            let r = self.encoder.retrieve();
            match r {
                Option::Some(f) => {
                    proof {
                        assert(f == e0.skip(k)[0]);
                        assert(e0.skip(k)[0] == e0[k]);
                    }
                    let pts = rescale(f.pts, self.decoder_time_base, self.output_time_base);
                    let pkt = OutputPacket {
                        stream_index: self.output_index,
                        pts: Some(pts),
                        position: -1,
                    };
                    // A failed write is logged by the caller's front end
                    // and the unit is dropped; the pipeline continues.
                    let _ = sink.write_interleaved(pkt);
                    proof {
                        assert(e0.skip(k).skip(1) =~= e0.skip(k + 1));
                        assert(pkt == packet_for(
                            old(self).output_index,
                            old(self).decoder_time_base,
                            old(self).output_time_base,
                            e0[k].pts,
                        ));
                        assert((a0 + packets_for(
                            old(self).output_index,
                            old(self).decoder_time_base,
                            old(self).output_time_base,
                            e0.take(k),
                        )).push(pkt) =~= a0 + packets_for(
                            old(self).output_index,
                            old(self).decoder_time_base,
                            old(self).output_time_base,
                            e0.take(k + 1),
                        ));
                        k = k + 1;
                    }
                },
                Option::None => {
                    proof {
                        assert(k == m);
                    }
                    break ;
                },
            }
        }
    }

    /// Repeatedly pulls decoded units until the decode context reports no
    /// more output available.  Each unit is counted, given a synthesized
    /// timestamp where the decoder recovered none, stripped of its source
    /// picture-type hint, pushed into the encode context — and the encoder
    /// is drained immediately.  Interleaving the two drains keeps
    /// encoder-side buffering bounded by the codec's own latency instead
    /// of accumulating all decoded units before encoding.
    pub fn drain_decoded(&mut self, sink: &mut OutputSink)
        requires
            old(self).wf(),
            old(sink).wf(),
            old(sink).header_written,
            !old(sink).trailer_written,
            old(self).output_index < old(sink).streams@.len(),
            !old(self).encoder.eof,
            old(self).encoder_settled(),
        ensures
            final(self).output_index == old(self).output_index,
            final(self).decoder_time_base == old(self).decoder_time_base,
            final(self).output_time_base == old(self).output_time_base,
            final(self).decoder.latency == old(self).decoder.latency,
            final(self).decoder.eof == old(self).decoder.eof,
            final(self).decoder.buffered@ == old(self).decoder.buffered@.skip(
                old(self).decoder_output().len() as int,
            ),
            final(self).frame_count as int == if old(self).frame_count
                + old(self).decoder_output().len() <= u64::MAX {
                old(self).frame_count + old(self).decoder_output().len()
            } else {
                u64::MAX as int
            },
            final(self).last_pts as int == emitted_before(
                old(self).last_pts as int,
                source_pts_of(old(self).decoder_output()),
                old(self).decoder_output().len() as int,
            ),
            final(self).encoder.latency == old(self).encoder.latency,
            !final(self).encoder.eof,
            final(self).encoder.buffered@ == old(self).drain_frames().skip(
                old(self).drain_pops(),
            ),
            final(self).encoder_settled(),
            final(sink).attempted@ == old(sink).attempted@ + packets_for(
                old(self).output_index,
                old(self).decoder_time_base,
                old(self).output_time_base,
                old(self).drain_frames().take(old(self).drain_pops()),
            ),
            final(sink).streams@ == old(sink).streams@,
            final(sink).header_written,
            !final(sink).trailer_written,
            final(sink).fail_attempts == old(sink).fail_attempts,
            final(sink).wf(),
            final(self).wf(),
    {
        let ghost d0 = old(self).decoder.buffered@;
        let ghost m = drainable(
            d0.len() as int,
            old(self).decoder.latency as int,
            old(self).decoder.eof,
        );
        let ghost srcs = source_pts_of(old(self).decoder_output());
        let ghost synths = old(self).drain_synths();
        let ghost pend = encoder_frames_for(synths);
        let ghost f_all = old(self).drain_frames();
        let ghost len0 = old(self).encoder.buffered@.len() as int;
        let ghost lat = old(self).encoder.latency as int;
        let ghost fc0 = old(self).frame_count as int;
        let ghost lp0 = old(self).last_pts as int;
        let ghost a0 = old(sink).attempted@;
        let ghost mut t: int = 0;
        let ghost mut k: int = 0;
        proof {
            lemma_synth_pts_seq_len(lp0, srcs);
            assert(0 <= m <= d0.len());
            assert(srcs.len() == m);
            assert(synths.len() == m);
            assert(pend.len() == m);
            assert(f_all.len() == len0 + m);
            assert(d0.skip(0) =~= d0);
            assert(f_all.take(len0).skip(0) =~= old(self).encoder.buffered@);
            assert(a0 + packets_for(
                old(self).output_index,
                old(self).decoder_time_base,
                old(self).output_time_base,
                f_all.take(0),
            ) =~= a0);
        }
        loop
            invariant
                self.wf(),
                sink.wf(),
                sink.header_written,
                !sink.trailer_written,
                self.output_index == old(self).output_index,
                self.decoder_time_base == old(self).decoder_time_base,
                self.output_time_base == old(self).output_time_base,
                sink.streams@ == old(sink).streams@,
                sink.fail_attempts == old(sink).fail_attempts,
                self.output_index < sink.streams@.len(),
                self.decoder.latency == old(self).decoder.latency,
                self.decoder.eof == old(self).decoder.eof,
                self.encoder.latency == old(self).encoder.latency,
                !self.encoder.eof,
                d0 == old(self).decoder.buffered@,
                m == drainable(d0.len() as int, self.decoder.latency as int, self.decoder.eof),
                0 <= t <= m <= d0.len(),
                srcs == source_pts_of(old(self).decoder_output()),
                srcs.len() == m,
                synths == synth_pts_seq(lp0, srcs),
                synths.len() == m,
                pend == encoder_frames_for(synths),
                pend.len() == m,
                f_all == old(self).drain_frames(),
                f_all.len() == len0 + m,
                len0 == old(self).encoder.buffered@.len() as int,
                lat == old(self).encoder.latency as int,
                fc0 == old(self).frame_count as int,
                lp0 == old(self).last_pts as int,
                a0 == old(sink).attempted@,
                0 <= len0 <= lat,
                self.decoder.buffered@ == d0.skip(t),
                (self.decoder.ready() <==> t < m),
                self.frame_count as int == if fc0 + t <= u64::MAX {
                    fc0 + t
                } else {
                    u64::MAX as int
                },
                self.last_pts as int == emitted_before(lp0, srcs, t),
                k == if len0 + t <= lat {
                    0int
                } else {
                    len0 + t - lat
                },
                self.encoder.buffered@ == f_all.take(len0 + t).skip(k),
                sink.attempted@ == a0 + packets_for(
                    old(self).output_index,
                    old(self).decoder_time_base,
                    old(self).output_time_base,
                    f_all.take(k),
                ),
            ensures
                t == m,
                k == if len0 + m <= lat {
                    0int
                } else {
                    len0 + m - lat
                },
                self.wf(),
                sink.wf(),
                sink.header_written,
                !sink.trailer_written,
                self.output_index == old(self).output_index,
                self.decoder_time_base == old(self).decoder_time_base,
                self.output_time_base == old(self).output_time_base,
                sink.streams@ == old(sink).streams@,
                sink.fail_attempts == old(sink).fail_attempts,
                self.decoder.latency == old(self).decoder.latency,
                self.decoder.eof == old(self).decoder.eof,
                self.encoder.latency == old(self).encoder.latency,
                !self.encoder.eof,
                self.decoder.buffered@ == d0.skip(t),
                self.frame_count as int == if fc0 + t <= u64::MAX {
                    fc0 + t
                } else {
                    u64::MAX as int
                },
                self.last_pts as int == emitted_before(lp0, srcs, t),
                self.encoder.buffered@ == f_all.take(len0 + t).skip(k),
                sink.attempted@ == a0 + packets_for(
                    old(self).output_index,
                    old(self).decoder_time_base,
                    old(self).output_time_base,
                    f_all.take(k),
                ),
            decreases m - t,
        {
            let r = self.decoder.retrieve();
            match r {
                Option::Some(frame) => {
                    proof {
                        assert(frame == d0.skip(t)[0]);
                        assert(d0.skip(t)[0] == d0[t]);
                        assert(old(self).decoder_output()[t] == d0.take(m)[t]);
                        assert(d0.take(m)[t] == d0[t]);
                        assert(srcs[t] == frame.pts);
                    }
                    self.frame_count = self.frame_count.saturating_add(1);
                    let pts = synth_next_pts(self.last_pts, frame.pts);
                    proof {
                        lemma_synth_pts_seq_index(lp0, srcs, t);
                        assert(pts as int == synths[t]);
                    }
                    self.last_pts = pts;
                    let out_frame = DecodedUnit { pts: Some(pts), hint: PictureHint::Unspecified };
                    self.encoder.submit(&out_frame);
                    proof {
                        assert(pend[t] == PendingFrame {
                            pts: synths[t] as i64,
                            hint: PictureHint::Unspecified,
                        });
                        assert(pts == synths[t] as i64);
                        assert(f_all[len0 + t] == pend[t]);
                        assert(f_all.take(len0 + t).skip(k).push(pend[t]) =~= f_all.take(
                            len0 + t + 1,
                        ).skip(k));
                    }
                    self.drain_encoded(sink);
                    proof {
                        let held = len0 + t + 1 - k;
                        let popped: int = if held <= lat {
                            0
                        } else {
                            held - lat
                        };
                        assert(f_all.take(len0 + t + 1).skip(k).len() == held);
                        assert(self.encoder.buffered@ == f_all.take(len0 + t + 1).skip(k).skip(
                            popped,
                        ));
                        assert(f_all.take(len0 + t + 1).skip(k).skip(popped) =~= f_all.take(
                            len0 + t + 1,
                        ).skip(k + popped));
                        assert(f_all.take(len0 + t + 1).skip(k).take(popped) =~= f_all.take(
                            k + popped,
                        ).skip(k));
                        assert(f_all.take(k).add(f_all.take(k + popped).skip(k)) =~= f_all.take(
                            k + popped,
                        ));
                        assert(sink.attempted@ =~= a0 + packets_for(
                            old(self).output_index,
                            old(self).decoder_time_base,
                            old(self).output_time_base,
                            f_all.take(k + popped),
                        ));
                        k = k + popped;
                        t = t + 1;
                        assert(d0.skip(t - 1).skip(1) =~= d0.skip(t));
                    }
                },
                Option::None => {
                    proof {
                        assert(t == m);
                    }
                    break ;
                },
            }
        }
        proof {
            assert(d0.skip(m) == old(self).decoder.buffered@.skip(
                old(self).decoder_output().len() as int,
            ));
            assert(f_all.take(len0 + m) =~= f_all);
            assert(k == old(self).drain_pops());
        }
    }

    /// End-of-stream: signals the decoder, drains it once more so that
    /// every unit still buffered inside it cascades through timestamp
    /// synthesis into the encoder, and only then signals the encoder and
    /// drains the units it still buffered.  The order is mandatory: the
    /// decoder flush must fully complete before the encoder is told to
    /// flush, or the decoder's remaining units would never be encoded.
    pub fn flush(&mut self, sink: &mut OutputSink)
        requires
            old(self).wf(),
            old(sink).wf(),
            old(sink).header_written,
            !old(sink).trailer_written,
            old(self).output_index < old(sink).streams@.len(),
            !old(self).decoder.eof,
            !old(self).encoder.eof,
            old(self).encoder_settled(),
        ensures
            final(self).output_index == old(self).output_index,
            final(self).decoder_time_base == old(self).decoder_time_base,
            final(self).output_time_base == old(self).output_time_base,
            final(self).decoder.eof,
            final(self).decoder.buffered@.len() == 0,
            final(self).encoder.eof,
            final(self).encoder.buffered@.len() == 0,
            final(self).frame_count as int == if old(self).frame_count
                + old(self).decoder.buffered@.len() <= u64::MAX {
                old(self).frame_count + old(self).decoder.buffered@.len()
            } else {
                u64::MAX as int
            },
            final(self).last_pts as int == emitted_before(
                old(self).last_pts as int,
                source_pts_of(old(self).decoder.buffered@),
                old(self).decoder.buffered@.len() as int,
            ),
            final(sink).attempted@ == old(sink).attempted@ + packets_for(
                old(self).output_index,
                old(self).decoder_time_base,
                old(self).output_time_base,
                old(self).flush_frames(),
            ),
            // Flushing a transcoder with nothing buffered yields nothing.
            old(self).decoder.buffered@.len() == 0 && old(self).encoder.buffered@.len() == 0
                ==> final(sink).attempted@ == old(sink).attempted@,
            final(sink).streams@ == old(sink).streams@,
            final(sink).header_written,
            !final(sink).trailer_written,
            final(sink).fail_attempts == old(sink).fail_attempts,
            final(sink).wf(),
            final(self).wf(),
    {
        let ghost d0 = old(self).decoder.buffered@;
        let ghost e0 = old(self).encoder.buffered@;
        let ghost lp0 = old(self).last_pts as int;
        let ghost a0 = old(sink).attempted@;
        let ghost f_all = old(self).flush_frames();
        proof {
            lemma_synth_pts_seq_len(lp0, source_pts_of(d0));
            assert(f_all.len() == e0.len() + d0.len());
        }
        self.decoder.signal_eof();
        proof {
            assert(self.decoder_output() == self.decoder.buffered@.take(
                self.decoder.buffered@.len() as int,
            ));
            assert(self.decoder.buffered@.take(self.decoder.buffered@.len() as int) =~= d0);
            assert(self.drain_frames() == f_all);
        }
        self.drain_decoded(sink);
        let ghost p = e0.len() as int + d0.len() as int - self.encoder.buffered@.len() as int;
        proof {
            assert(self.encoder.buffered@ == f_all.skip(p));
            assert(d0.skip(d0.len() as int) =~= Seq::<DecodedUnit>::empty());
        }
        self.encoder.signal_eof();
        self.drain_encoded(sink);
        proof {
            assert(f_all.skip(p).take(f_all.skip(p).len() as int) =~= f_all.skip(p));
            assert(a0 + packets_for(
                old(self).output_index,
                old(self).decoder_time_base,
                old(self).output_time_base,
                f_all.take(p),
            ) + packets_for(
                old(self).output_index,
                old(self).decoder_time_base,
                old(self).output_time_base,
                f_all.skip(p),
            ) =~= a0 + packets_for(
                old(self).output_index,
                old(self).decoder_time_base,
                old(self).output_time_base,
                f_all,
            ));
            if d0.len() == 0 && e0.len() == 0 {
                assert(f_all.len() == 0);
                assert(a0 + packets_for(
                    old(self).output_index,
                    old(self).decoder_time_base,
                    old(self).output_time_base,
                    f_all,
                ) =~= a0);
            }
        }
    }
}
/// Monotonicity of transcoded presentation timestamps, end to end: as long
/// as every decoded unit that carries its own timestamp does not step
/// backwards, the units the muxer receives for this stream — synthesized
/// timestamps included — have non-decreasing presentation timestamps when
/// measured in the output stream's time base.
pub proof fn lemma_transcoded_pts_monotone(
    prev: int,
    srcs: Seq<Option<i64>>,
    output_index: usize,
    from: Rational,
    to: Rational,
)
    requires
        i64::MIN <= prev <= i64::MAX,
        from.wf(),
        to.wf(),
        forall|i: int|
            0 <= i < srcs.len() ==> (#[trigger] srcs[i] matches Some(p) ==> p as int
                >= emitted_before(prev, srcs, i)),
    ensures
        ({
            let pkts = packets_for(
                output_index,
                from,
                to,
                encoder_frames_for(synth_pts_seq(prev, srcs)),
            );
            forall|i: int| 0 < i < pkts.len() ==> (#[trigger] pkts[i]).pts->0 >= pkts[i - 1].pts->0
        }),
{
    let synths = synth_pts_seq(prev, srcs);
    let frames = encoder_frames_for(synths);
    let pkts = packets_for(output_index, from, to, frames);
    crate::timing::lemma_synth_pts_monotone(prev, srcs);
    lemma_synth_pts_seq_len(prev, srcs);
    assert forall|i: int| 0 < i < pkts.len() implies (#[trigger] pkts[i]).pts->0 >= pkts[i
        - 1].pts->0 by {
        assert(frames[i].pts as int == synths[i]);
        assert(frames[i - 1].pts as int == synths[i - 1]);
        assert(synths[i] >= emitted_before(prev, srcs, i));
        assert(emitted_before(prev, srcs, i) == synths[i - 1]);
        crate::rational::lemma_rescale_monotone(
            frames[i - 1].pts as int,
            frames[i].pts as int,
            from,
            to,
        );
    }
}

} // verus!

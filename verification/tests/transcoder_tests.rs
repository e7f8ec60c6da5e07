use transcode::rational::Rational;
use transcode::sink::OutputSink;
use transcode::streams::MediaKind;
use transcode::transcoder::{encoder_settings, DecoderInfo, Transcoder};
use transcode::units::{CompressedUnit, PictureHint};

fn tb(num: i32, den: i32) -> Rational {
    Rational::new(num, den)
}

fn unit(pts: Option<i64>) -> CompressedUnit {
    CompressedUnit { stream_index: 0, pts, position: 0, malformed: false, hint: PictureHint::Intra }
}

fn ready_sink() -> OutputSink {
    let mut sink = OutputSink::new(vec![]);
    sink.add_stream(MediaKind::Video, tb(1, 25));
    sink.write_header();
    sink
}

/// A transcoder whose engine contexts pass units through immediately.
fn eager_transcoder() -> Transcoder {
    Transcoder::new(0, tb(1, 25), tb(1, 25), 0, 0, 0)
}

#[test]
fn missing_timestamps_get_monotonic_fallbacks() {
    let mut sink = ready_sink();
    let mut tx = eager_transcoder();
    let inputs = [Some(10), None, None, Some(20), None];
    for pts in inputs {
        tx.submit_compressed(&unit(pts)).unwrap();
        tx.drain_decoded(&mut sink);
    }
    tx.flush(&mut sink);
    let emitted: Vec<i64> = sink.attempted.iter().map(|p| p.pts.unwrap()).collect();
    // Absent timestamps continue the counter: previous + 1.
    assert_eq!(emitted, vec![10, 11, 12, 20, 21]);
    // Non-decreasing throughout, strictly increasing across the gaps.
    for w in emitted.windows(2) {
        assert!(w[0] <= w[1]);
    }
}

#[test]
fn flush_on_drained_transcoder_adds_nothing() {
    let mut sink = ready_sink();
    let mut tx = eager_transcoder();
    for i in 0..3 {
        tx.submit_compressed(&unit(Some(i))).unwrap();
        tx.drain_decoded(&mut sink);
    }
    // With zero-latency contexts everything has already come out.
    let written_before = sink.attempted.len();
    assert_eq!(written_before, 3);
    tx.flush(&mut sink);
    assert_eq!(sink.attempted.len(), written_before);
}

#[test]
fn flush_releases_buffered_units_decoder_before_encoder() {
    let mut sink = ready_sink();
    // Decoder holds 2 units back, encoder 3: nothing comes out during the
    // pump, everything at flush.
    let mut tx = Transcoder::new(0, tb(1, 25), tb(1, 25), 2, 3, 0);
    for i in 0..4 {
        tx.submit_compressed(&unit(Some(i))).unwrap();
        tx.drain_decoded(&mut sink);
    }
    assert_eq!(sink.attempted.len(), 0);
    tx.flush(&mut sink);
    let emitted: Vec<i64> = sink.attempted.iter().map(|p| p.pts.unwrap()).collect();
    assert_eq!(emitted, vec![0, 1, 2, 3]);
    assert_eq!(tx.frame_count, 4);
}

#[test]
fn picture_hints_are_stripped_before_encoding() {
    let mut sink = ready_sink();
    // Encoder latency 1 keeps the frame buffered where we can inspect it.
    let mut tx = Transcoder::new(0, tb(1, 25), tb(1, 25), 0, 1, 0);
    tx.submit_compressed(&unit(Some(5))).unwrap();
    tx.drain_decoded(&mut sink);
    assert_eq!(tx.encoder.buffered.len(), 1);
    assert_eq!(tx.encoder.buffered[0].hint, PictureHint::Unspecified);
    assert_eq!(tx.encoder.buffered[0].pts, 5);
}

#[test]
fn encoded_units_are_tagged_and_rescaled() {
    let mut sink = OutputSink::new(vec![]);
    sink.add_stream(MediaKind::Audio, tb(1, 48000));
    sink.add_stream(MediaKind::Video, tb(1, 50));
    sink.write_header();
    // Output stream 1, engine clock 1/25, output clock 1/50.
    let mut tx = Transcoder::new(1, tb(1, 25), tb(1, 50), 0, 0, 0);
    tx.submit_compressed(&unit(Some(7))).unwrap();
    tx.drain_decoded(&mut sink);
    assert_eq!(sink.attempted.len(), 1);
    assert_eq!(sink.attempted[0].stream_index, 1);
    assert_eq!(sink.attempted[0].pts, Some(14));
    assert_eq!(sink.attempted[0].position, -1);
}

#[test]
fn malformed_units_are_rejected_without_state_change() {
    let mut sink = ready_sink();
    let mut tx = eager_transcoder();
    let mut bad = unit(Some(1));
    bad.malformed = true;
    assert!(tx.submit_compressed(&bad).is_err());
    tx.drain_decoded(&mut sink);
    assert_eq!(sink.attempted.len(), 0);
    assert_eq!(tx.frame_count, 0);
}

#[test]
fn encoder_settings_copy_geometry_and_invert_the_rate() {
    let dec = DecoderInfo {
        width: 1920,
        height: 1080,
        pixel_format: 0,
        aspect_ratio: Rational::new(16, 9),
        frame_rate: Some(tb(30, 1)),
    };
    // The container-declared rate wins over the decoder's.
    let s = encoder_settings(&dec, Some(tb(25, 1)), tb(24, 1), true);
    assert_eq!((s.width, s.height), (1920, 1080));
    assert_eq!((s.aspect_ratio.num, s.aspect_ratio.den), (16, 9));
    assert_eq!((s.time_base.num, s.time_base.den), (1, 25));
    assert!(s.global_header);
    // Without a container rate the decoder's rate is used.
    let s2 = encoder_settings(&dec, None, tb(24, 1), false);
    assert_eq!((s2.time_base.num, s2.time_base.den), (1, 30));
    // Without either, the configured default.
    let dec_no_rate = DecoderInfo { frame_rate: None, ..dec };
    let s3 = encoder_settings(&dec_no_rate, None, tb(24, 1), false);
    assert_eq!((s3.time_base.num, s3.time_base.den), (1, 24));
}

#[test]
fn fallback_saturates_at_the_top_of_the_range() {
    let mut sink = ready_sink();
    let mut tx = Transcoder::new(0, tb(1, 25), tb(1, 25), 0, 0, i64::MAX);
    tx.submit_compressed(&unit(None)).unwrap();
    tx.drain_decoded(&mut sink);
    assert_eq!(tx.last_pts, i64::MAX);
}

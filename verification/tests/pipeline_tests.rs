use transcode::pipeline::{run_pipeline, PipelineConfig};
use transcode::rational::Rational;
use transcode::streams::{MediaKind, StreamDescriptor};
use transcode::units::{CompressedUnit, OutputPacket, PictureHint};

fn tb(num: i32, den: i32) -> Rational {
    Rational::new(num, den)
}

fn config() -> PipelineConfig {
    PipelineConfig {
        decoder_time_base: tb(1, 25),
        output_time_base: tb(1, 25),
        decoder_latency: 2,
        encoder_latency: 3,
        initial_pts: 0,
    }
}

fn packet(stream_index: usize, pts: i64) -> CompressedUnit {
    CompressedUnit {
        stream_index,
        pts: Some(pts),
        position: 1234,
        malformed: false,
        hint: PictureHint::Predicted,
    }
}

fn packets_of_stream(attempted: &[OutputPacket], stream_index: usize) -> Vec<OutputPacket> {
    attempted.iter().copied().filter(|p| p.stream_index == stream_index).collect()
}

#[test]
fn end_to_end_video_transcode_with_audio_copy() {
    // One video stream (1000 packets, time base 1/25) and one audio stream
    // (time base 1/48000): the video is transcoded, the audio copied.
    let streams = vec![
        StreamDescriptor { kind: MediaKind::Video, time_base: tb(1, 25) },
        StreamDescriptor { kind: MediaKind::Audio, time_base: tb(1, 48000) },
    ];
    let mut packets = Vec::new();
    for i in 0..1000i64 {
        packets.push(packet(0, i));
        packets.push(packet(1, i * 1920));
    }
    let outcome = run_pipeline(&streams, &packets, config(), vec![]);

    assert!(outcome.sink.header_written);
    assert!(outcome.sink.trailer_written);
    assert_eq!(outcome.sink.streams.len(), 2);
    assert_eq!(outcome.sink.streams[0].kind, MediaKind::Video);
    assert_eq!(outcome.sink.streams[1].kind, MediaKind::Audio);
    assert_eq!(outcome.transcoders.len(), 1);
    assert_eq!(outcome.transcoders[0].frame_count, 1000);

    // Every video unit came out, with strictly monotonic timestamps.
    let video = packets_of_stream(&outcome.sink.attempted, 0);
    assert_eq!(video.len(), 1000);
    for w in video.windows(2) {
        assert!(w[0].pts.unwrap() < w[1].pts.unwrap());
    }

    // Every audio unit was copied, its timestamp rescaled from the input
    // time base into the output stream's time base (the same here, so the
    // value is preserved), and its stale position cleared.
    let audio = packets_of_stream(&outcome.sink.attempted, 1);
    assert_eq!(audio.len(), 1000);
    for (i, p) in audio.iter().enumerate() {
        assert_eq!(p.pts, Some(i as i64 * 1920));
        assert_eq!(p.position, -1);
    }
}

#[test]
fn data_only_container_produces_no_output_streams() {
    let streams = vec![StreamDescriptor { kind: MediaKind::Other, time_base: tb(1, 1000) }];
    let packets = vec![packet(0, 1), packet(0, 2), packet(0, 3)];
    let outcome = run_pipeline(&streams, &packets, config(), vec![]);
    assert_eq!(outcome.sink.streams.len(), 0);
    assert_eq!(outcome.sink.attempted.len(), 0);
    assert_eq!(outcome.discarded_units, 3);
    assert!(outcome.sink.trailer_written);
}

#[test]
fn simulated_write_failure_does_not_abort_the_pipeline() {
    // Inject a failure on unit #500 (attempt number 499) of 1000: every
    // unit is still attempted and the run completes with a trailer.
    let streams = vec![StreamDescriptor { kind: MediaKind::Video, time_base: tb(1, 25) }];
    let mut packets = Vec::new();
    for i in 0..1000i64 {
        packets.push(packet(0, i));
    }
    let outcome = run_pipeline(&streams, &packets, config(), vec![499]);

    assert!(outcome.sink.trailer_written);
    assert_eq!(outcome.sink.attempted.len(), 1000);
    assert_eq!(outcome.sink.accepted.len(), 1000);
    let written: Vec<bool> = outcome.sink.accepted.clone();
    assert_eq!(written.iter().filter(|ok| **ok).count(), 999);
    assert!(!written[499]);
    for (j, ok) in written.iter().enumerate() {
        assert_eq!(*ok, j != 499);
    }
}

#[test]
fn malformed_units_are_skipped_and_counted() {
    let streams = vec![StreamDescriptor { kind: MediaKind::Video, time_base: tb(1, 25) }];
    let mut packets = vec![packet(0, 0), packet(0, 1), packet(0, 2)];
    packets[1].malformed = true;
    let outcome = run_pipeline(&streams, &packets, config(), vec![]);
    assert_eq!(outcome.rejected_units, 1);
    assert!(outcome.sink.trailer_written);
    let video = packets_of_stream(&outcome.sink.attempted, 0);
    let pts: Vec<i64> = video.iter().map(|p| p.pts.unwrap()).collect();
    assert_eq!(pts, vec![0, 2]);
}

#[test]
fn copy_streams_keep_parameters_with_cleared_codec_tag() {
    let streams = vec![
        StreamDescriptor { kind: MediaKind::Subtitle, time_base: tb(1, 1000) },
        StreamDescriptor { kind: MediaKind::Video, time_base: tb(1, 25) },
    ];
    let outcome = run_pipeline(&streams, &vec![], config(), vec![]);
    assert_eq!(outcome.sink.streams.len(), 2);
    // The subtitle copy keeps its native time base; every output stream's
    // codec tag is cleared for cross-container remuxing.
    assert_eq!(outcome.sink.streams[0].kind, MediaKind::Subtitle);
    assert_eq!((outcome.sink.streams[0].time_base.num, outcome.sink.streams[0].time_base.den), (1, 1000));
    assert_eq!(outcome.sink.streams[0].codec_tag, 0);
    // The transcoded video stream gets the configured output time base.
    assert_eq!(outcome.sink.streams[1].kind, MediaKind::Video);
    assert_eq!((outcome.sink.streams[1].time_base.num, outcome.sink.streams[1].time_base.den), (1, 25));
    assert_eq!(outcome.sink.streams[1].codec_tag, 0);
}

#[test]
fn transcoders_end_fully_flushed() {
    let streams = vec![StreamDescriptor { kind: MediaKind::Video, time_base: tb(1, 25) }];
    let packets = vec![packet(0, 0), packet(0, 1)];
    let outcome = run_pipeline(&streams, &packets, config(), vec![]);
    let tx = &outcome.transcoders[0];
    assert!(tx.decoder.eof);
    assert!(tx.encoder.eof);
    assert!(tx.decoder.buffered.is_empty());
    assert!(tx.encoder.buffered.is_empty());
    let video = packets_of_stream(&outcome.sink.attempted, 0);
    assert_eq!(video.len(), 2);
}

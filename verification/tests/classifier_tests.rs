use transcode::rational::Rational;
use transcode::streams::{classify_streams, has_video_stream, MediaKind, StreamDescriptor, StreamRoute};

fn stream(kind: MediaKind) -> StreamDescriptor {
    StreamDescriptor { kind, time_base: Rational::new(1, 1000) }
}

#[test]
fn classify_assigns_dense_output_indices() {
    let streams = vec![
        stream(MediaKind::Audio),
        stream(MediaKind::Other),
        stream(MediaKind::Video),
        stream(MediaKind::Subtitle),
    ];
    let routes = classify_streams(&streams);
    assert_eq!(routes.len(), 4);
    assert_eq!(routes[0], StreamRoute::Copy { output_index: 0 });
    assert_eq!(routes[1], StreamRoute::Discard);
    assert_eq!(routes[2], StreamRoute::Transcode { output_index: 1 });
    assert_eq!(routes[3], StreamRoute::Copy { output_index: 2 });

    // The assigned output indices are exactly 0, 1, 2: no gaps.
    let mut assigned: Vec<usize> = routes
        .iter()
        .filter_map(|r| match r {
            StreamRoute::Transcode { output_index } => Some(*output_index),
            StreamRoute::Copy { output_index } => Some(*output_index),
            StreamRoute::Discard => None,
        })
        .collect();
    assigned.sort();
    assert_eq!(assigned, vec![0, 1, 2]);
}

#[test]
fn classify_drops_everything_else() {
    let streams = vec![stream(MediaKind::Other), stream(MediaKind::Other)];
    let routes = classify_streams(&streams);
    assert_eq!(routes, vec![StreamRoute::Discard, StreamRoute::Discard]);
}

#[test]
fn classify_empty_container() {
    let streams: Vec<StreamDescriptor> = vec![];
    let routes = classify_streams(&streams);
    assert!(routes.is_empty());
}

#[test]
fn video_stream_detection() {
    let with_video = vec![stream(MediaKind::Audio), stream(MediaKind::Video)];
    let without_video = vec![stream(MediaKind::Audio), stream(MediaKind::Subtitle)];
    assert!(has_video_stream(&with_video));
    assert!(!has_video_stream(&without_video));
    assert!(!has_video_stream(&vec![]));
}

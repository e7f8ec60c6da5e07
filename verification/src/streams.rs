//! Stream classification and output index assignment.
//!
//! Each input stream is inspected once, after the container is opened:
//! video, audio and subtitle streams are kept, anything else is dropped.
//! Kept streams receive dense output indices in input order, so that the set
//! of output indices is exactly `0 .. k` for `k` kept streams.  Video
//! streams are routed through a transcoder; the other kept streams are
//! copied compressed.

use vstd::prelude::*;

verus! {

use crate::rational::Rational;

/// The media kind of an input stream, as the demuxer reports it.
#[derive(Clone, Copy, Debug, PartialEq, Eq, Structural)]
pub enum MediaKind {
    Video,
    Audio,
    Subtitle,
    /// Data, attachment and every other kind the orchestrator does not carry.
    Other,
}

impl MediaKind {
    /// Streams of these kinds are carried into the output container.
    pub open spec fn is_kept(self) -> bool {
        self == MediaKind::Video || self == MediaKind::Audio || self == MediaKind::Subtitle
    }
}

/// What the orchestrator reads of one input stream: its media kind and its
/// native time base.  The codec parameters stay with the demuxer and are
/// only handed through, so they do not appear here.
#[derive(Clone, Copy, Debug)]
pub struct StreamDescriptor {
    pub kind: MediaKind,
    pub time_base: Rational,
}

impl StreamDescriptor {
    pub open spec fn wf(self) -> bool {
        self.time_base.wf()
    }
}

/// The route of one input stream: dropped, re-encoded through a transcoder,
/// or copied compressed, each with the output stream it writes to.
#[derive(Clone, Copy, Debug, PartialEq, Eq, Structural)]
pub enum StreamRoute {
    Discard,
    Transcode { output_index: usize },
    Copy { output_index: usize },
}

/// How many of the first `i` streams are kept.  The stream at index `i`
/// (when kept) writes to output stream `kept_before(streams, i)`: dense
/// output indices in input order.
pub open spec fn kept_before(streams: Seq<StreamDescriptor>, i: int) -> int
    decreases i,
{
    if i <= 0 {
        0
    } else {
        kept_before(streams, i - 1) + if streams[i - 1].kind.is_kept() {
            1int
        } else {
            0int
        }
    }
}

/// How many of the first `i` streams are video streams, hence routed
/// through a transcoder.
pub open spec fn video_before(streams: Seq<StreamDescriptor>, i: int) -> int
    decreases i,
{
    if i <= 0 {
        0
    } else {
        video_before(streams, i - 1) + if streams[i - 1].kind == MediaKind::Video {
            1int
        } else {
            0int
        }
    }
}

/// The number of output streams: one per kept input stream.
pub open spec fn kept_count(streams: Seq<StreamDescriptor>) -> int {
    kept_before(streams, streams.len() as int)
}

/// The route the classifier owes to input stream `i`.
pub open spec fn route_of(streams: Seq<StreamDescriptor>, i: int) -> StreamRoute {
    if !streams[i].kind.is_kept() {
        StreamRoute::Discard
    } else if streams[i].kind == MediaKind::Video {
        StreamRoute::Transcode { output_index: kept_before(streams, i) as usize }
    } else {
        StreamRoute::Copy { output_index: kept_before(streams, i) as usize }
    }
}

pub proof fn lemma_kept_before_bounds(streams: Seq<StreamDescriptor>, i: int)
    requires
        0 <= i,
    ensures
        0 <= kept_before(streams, i) <= i,
    decreases i,
{
    if i > 0 {
        lemma_kept_before_bounds(streams, i - 1);
    }
}

/// Builds the stream mapping: one route per input stream, with dense output
/// indices assigned to kept streams in input order.
pub fn classify_streams(streams: &Vec<StreamDescriptor>) -> (routes: Vec<StreamRoute>)
    ensures
        routes@.len() == streams@.len(),
        forall|i: int| 0 <= i < streams@.len() ==> routes@[i] == route_of(streams@, i),
{
    let mut routes: Vec<StreamRoute> = Vec::new();
    let mut output_index: usize = 0;
    let n = streams.len();
    let mut i: usize = 0;
    while i < n
        invariant
            n == streams@.len(),
            0 <= i <= n,
            routes@.len() == i as int,
            output_index as int == kept_before(streams@, i as int),
            forall|j: int| 0 <= j < i as int ==> routes@[j] == route_of(streams@, j),
        decreases n - i,
    {
        proof {
            lemma_kept_before_bounds(streams@, i as int);
        }
        let kind = streams[i].kind;
        match kind {
            MediaKind::Video => {
                routes.push(StreamRoute::Transcode { output_index });
                output_index = output_index + 1;
            },
            MediaKind::Audio | MediaKind::Subtitle => {
                routes.push(StreamRoute::Copy { output_index });
                output_index = output_index + 1;
            },
            MediaKind::Other => {
                routes.push(StreamRoute::Discard);
            },
        }
        i = i + 1;
    }
    routes
}

/// Whether any input stream is a video stream.  The orchestrator's primary
/// mode requires one; a container without video degrades to pure remuxing,
/// which the caller may accept or reject.
pub fn has_video_stream(streams: &Vec<StreamDescriptor>) -> (r: bool)
    ensures
        r == exists|i: int|
            0 <= i < streams@.len() && streams@[i].kind == MediaKind::Video,
{
    let n = streams.len();
    let mut i: usize = 0;
    while i < n
        invariant
            n == streams@.len(),
            0 <= i <= n,
            forall|j: int| 0 <= j < i as int ==> streams@[j].kind != MediaKind::Video,
        decreases n - i,
    {
        if matches!(streams[i].kind, MediaKind::Video) {
            return true;
        }
        i = i + 1;
    }
    false
}

pub proof fn lemma_kept_before_mono(streams: Seq<StreamDescriptor>, i: int, j: int)
    requires
        0 <= i <= j,
    ensures
        kept_before(streams, i) <= kept_before(streams, j),
    decreases j - i,
{
    if i < j {
        lemma_kept_before_mono(streams, i, j - 1);
    }
}

proof fn lemma_kept_surjective(streams: Seq<StreamDescriptor>, j: int, n: int)
    requires
        0 <= n <= streams.len(),
        0 <= j < kept_before(streams, n),
    ensures
        exists|i: int|
            0 <= i < n && streams[i].kind.is_kept() && #[trigger] kept_before(streams, i) == j,
    decreases n,
{
    lemma_kept_before_bounds(streams, n);
    if kept_before(streams, n - 1) <= j {
        // Only the last stream can supply output index j, so it is kept and
        // its output index is exactly j.
        assert(streams[n - 1].kind.is_kept());
        assert(kept_before(streams, n - 1) == j);
    } else {
        lemma_kept_surjective(streams, j, n - 1);
    }
}

/// Some kept input stream writes to output stream `j`.
pub open spec fn output_index_assigned(streams: Seq<StreamDescriptor>, j: int) -> bool {
    exists|i: int|
        0 <= i < streams.len() && streams[i].kind.is_kept() && #[trigger] kept_before(
            streams,
            i,
        ) == j
}

/// Density of output stream indices: among `k` kept input streams, the
/// assigned output indices are exactly `0 .. k`, without gaps and without
/// repetition, in input order.
pub proof fn lemma_output_indices_dense(streams: Seq<StreamDescriptor>)
    ensures
        // order-preserving, hence injective
        forall|i1: int, i2: int|
            0 <= i1 < i2 < streams.len() && streams[i1].kind.is_kept()
                && streams[i2].kind.is_kept()
                ==> kept_before(streams, i1) < kept_before(streams, i2),
        // every assigned index lies in 0 .. kept_count
        forall|i: int|
            0 <= i < streams.len() && streams[i].kind.is_kept()
                ==> 0 <= kept_before(streams, i) < kept_count(streams),
        // no gaps: every index in 0 .. kept_count is assigned
        forall|j: int| 0 <= j < kept_count(streams) ==> output_index_assigned(streams, j),
{
    assert forall|i1: int, i2: int|
        0 <= i1 < i2 < streams.len() && streams[i1].kind.is_kept()
            && streams[i2].kind.is_kept() implies kept_before(streams, i1) < kept_before(
        streams,
        i2,
    ) by {
        lemma_kept_before_mono(streams, i1 + 1, i2);
    }
    assert forall|i: int|
        0 <= i < streams.len() && streams[i].kind.is_kept() implies 0 <= kept_before(
        streams,
        i,
    ) < kept_count(streams) by {
        lemma_kept_before_bounds(streams, i);
        lemma_kept_before_mono(streams, i + 1, streams.len() as int);
    }
    assert forall|j: int| 0 <= j < kept_count(streams) implies output_index_assigned(
        streams,
        j,
    ) by {
        lemma_kept_surjective(streams, j, streams.len() as int);
    }
}

} // verus!

//! Rate-limited progress reporting.
//!
//! Only the primary ("best") video stream's transcoder reports progress,
//! and at most once per hundred frames or per second of wall time,
//! whichever comes first.  The reporter is purely observational: it decides
//! whether a status line is due and remembers when it last spoke, and never
//! affects control flow.  Reading the clock and rendering the line belong
//! to the unverified front end, which hands elapsed milliseconds in and
//! formats what this module decides to report.

use vstd::prelude::*;

verus! {

/// How many frames may pass silently before a report is due.
pub const REPORT_FRAME_INTERVAL: u64 = 100;

/// How many milliseconds may pass silently before a report is due.
pub const REPORT_MILLIS_INTERVAL: u64 = 1000;

pub struct ProgressReporter {
    /// Whether this stream reports at all (only the primary video stream
    /// does).
    pub enabled: bool,
    /// The cumulative frame count at the last report.
    pub last_report_frames: u64,
    /// Elapsed milliseconds since pipeline start at the last report.
    pub last_report_millis: u64,
}

impl ProgressReporter {
    /// A report is due when reporting is enabled and at least
    /// `REPORT_FRAME_INTERVAL` frames or `REPORT_MILLIS_INTERVAL`
    /// milliseconds have passed since the last one.
    pub open spec fn due(self, frames: u64, now_millis: u64) -> bool {
        self.enabled && (frames >= self.last_report_frames + REPORT_FRAME_INTERVAL || now_millis
            >= self.last_report_millis + REPORT_MILLIS_INTERVAL)
    }

    pub fn new(enabled: bool) -> (r: ProgressReporter)
        ensures
            r.enabled == enabled,
            r.last_report_frames == 0,
            r.last_report_millis == 0,
    {
        ProgressReporter { enabled, last_report_frames: 0, last_report_millis: 0 }
    }

    /// Notes that the frame counter has reached `frames` at elapsed time
    /// `now_millis`, and decides whether a status line is due now.  When
    /// one is, the rate limiter remembers this moment; when none is, the
    /// state is untouched.
    pub fn note_frame(&mut self, frames: u64, now_millis: u64) -> (report: bool)
        ensures
            report == old(self).due(frames, now_millis),
            final(self).enabled == old(self).enabled,
            report ==> final(self).last_report_frames == frames && final(self).last_report_millis
                == now_millis,
            !report ==> final(self).last_report_frames == old(self).last_report_frames
                && final(self).last_report_millis == old(self).last_report_millis,
    {
        let due = self.enabled && (frames.saturating_sub(self.last_report_frames)
            >= REPORT_FRAME_INTERVAL || now_millis.saturating_sub(self.last_report_millis)
            >= REPORT_MILLIS_INTERVAL);
        if due {
            self.last_report_frames = frames;
            self.last_report_millis = now_millis;
            true
        } else {
            false
        }
    }
}

} // verus!

//! Change detection and the monitor state machine.
//!
//! `TextDiffer` compares two text snapshots line by line, as sets: lines of
//! the new text absent from the old are "added", lines of the old text
//! absent from the new are "removed". `ScreenMonitor` owns the state that
//! survives across ticks (the last seen text, the running flag, the
//! cancellation flag) and decides, for each tick's recognition outcome,
//! which change events to emit. The timer, the worker thread and the
//! event channel live with the caller; the decisions live here.

use vstd::prelude::*;
use vstd::utf8::encode_utf8;

use crate::capture::CaptureRegion;
use crate::capture::ScreenCapture;
use crate::text::lines_spec;
use crate::text::split_lines;
use crate::text::contains_line;

verus! {

/// A change in the recognized text, emitted once per observation.
#[derive(Debug, Clone)]
pub enum TextChangeEvent {
    /// Text appeared where none was known before.
    NewText(String),
    /// The text changed from `old` to `new`.
    TextChanged { old: String, new: String },
    /// The text disappeared; carries the last text seen.
    TextCleared(String),
    /// The line-set difference of a change: lines only in the new text,
    /// and lines only in the old text.
    DiffDetected { added: Vec<String>, removed: Vec<String> },
    /// A tick failed; carries a description of the failure.
    Error(String),
}

/// A control call arrived in the wrong state.
#[derive(Debug, Clone, Copy, PartialEq, Eq, Structural)]
pub enum MonitorError {
    /// `start_monitoring` was called while already running.
    AlreadyMonitoring,
    /// `stop_monitoring` was called while idle.
    NotMonitoring,
}

/// Whether a monitor is between `start_monitoring` and `stop_monitoring`.
#[derive(Debug, Clone, Copy, PartialEq, Eq, Structural)]
pub enum MonitorStatus {
    /// Not monitoring.
    Idle,
    /// Monitoring; ticks are being processed.
    Running,
}

/// Whether a line is kept in a line-set difference: it must not occur in
/// `excl` and its encoded length must reach `min` bytes.
pub open spec fn keep_line(excl: Seq<Seq<char>>, min: nat, l: Seq<char>) -> bool {
    !excl.contains(l) && (encode_utf8(l).len() as usize) >= min
}

/// The subsequence of `ls` whose elements are kept with respect to `excl`
/// and `min`, in order.
pub open spec fn kept_lines(excl: Seq<Seq<char>>, min: nat, ls: Seq<Seq<char>>) -> Seq<Seq<char>>
    decreases ls.len(),
{
    if ls.len() == 0 {
        Seq::empty()
    } else {
        let rest = kept_lines(excl, min, ls.drop_last());
        if keep_line(excl, min, ls.last()) {
            rest.push(ls.last())
        } else {
            rest
        }
    }
}

/// The lines of `new` that are absent from `old` (by exact membership) and
/// at least `min` bytes long.
pub open spec fn added_lines(old: Seq<char>, new: Seq<char>, min: nat) -> Seq<Seq<char>> {
    kept_lines(lines_spec(old), min, lines_spec(new))
}

/// Detects which lines two texts do not share.
#[derive(Debug, Clone)]
pub struct TextDiffer {
    /// Lines shorter than this many bytes are ignored.
    pub min_change_length: usize,
}

impl TextDiffer {
    /// Makes a differ that ignores lines shorter than `min_change_length`
    /// bytes.
    pub fn new(min_change_length: usize) -> (r: Self)
        ensures
            r.min_change_length == min_change_length,
    {
        Self { min_change_length }
    }

    /// The line-set difference of two texts: lines only in `new_text`, and
    /// lines only in `old_text`. Membership is exact; order within each
    /// list follows the text the line comes from.
    pub fn detect_changes(&self, old_text: &str, new_text: &str) -> (r: (Vec<String>, Vec<String>))
        ensures
            r.0.deep_view() == added_lines(old_text@, new_text@, self.min_change_length as nat),
            r.1.deep_view() == added_lines(new_text@, old_text@, self.min_change_length as nat),
    {
        let old_lines = split_lines(old_text);
        let new_lines = split_lines(new_text);
        let added = self.kept_of(&old_lines, &new_lines);
        let removed = self.kept_of(&new_lines, &old_lines);
        (added, removed)
    }

    /// Collects the elements of `lines` that are absent from `excl` and
    /// long enough.
    fn kept_of(&self, excl: &Vec<String>, lines: &Vec<String>) -> (r: Vec<String>)
        ensures
            r.deep_view() == kept_lines(
                excl.deep_view(),
                self.min_change_length as nat,
                lines.deep_view(),
            ),
    {
        let ghost ex = excl.deep_view();
        let ghost min: nat = self.min_change_length as nat;
        let mut out: Vec<String> = Vec::new();
        let mut i: usize = 0;
        proof {
            assert(lines.deep_view().take(0) =~~= Seq::<Seq<char>>::empty());
        }

        while i < lines.len()
            invariant
                i <= lines.len(),
                out.deep_view() == kept_lines(ex, min, lines.deep_view().take(i as int)),
                ex == excl.deep_view(),
                min == self.min_change_length as nat,
            decreases lines.len() - i,
        {
            let ghost pre = out.deep_view();
            let line: &String = &lines[i];
            let long_enough = line.as_str().len() >= self.min_change_length;
            if !contains_line(excl, line) && long_enough {
                out.push(line.clone());
                proof {
                    assert(out.deep_view() =~~= pre.push(line@));
                }
            }
            proof {
                let dv = lines.deep_view();
                assert(dv.take(i + 1).drop_last() =~= dv.take(i as int));
                assert(dv.take(i + 1).last() == dv[i as int]);
                assert(dv[i as int] == line@);
            }
            i = i + 1;
        }
        proof {
            assert(lines.deep_view().take(lines.len() as int) =~= lines.deep_view());
        }
        out
    }
}

/// The fields of a monitor that a tick never touches.
pub open spec fn control_unchanged(a: ScreenMonitor, b: ScreenMonitor) -> bool {
    &&& a.capture == b.capture
    &&& a.text_differ == b.text_differ
    &&& a.interval_ms == b.interval_ms
    &&& a.status == b.status
    &&& a.cancel_requested == b.cancel_requested
}

/// The state machine of one monitored region.
///
/// The monitor is `Idle` until `start_monitoring` succeeds, then `Running`
/// until `stop_monitoring` succeeds. While running, the caller drives it
/// by handing each tick's recognition outcome to `process_tick` and
/// emitting the returned events; the caller's loop must poll
/// `cancel_requested` (mirrored by a shared flag in the host) at every
/// tick boundary and exit once it is set.
pub struct ScreenMonitor {
    /// The capture configuration for the monitored region.
    pub capture: ScreenCapture,
    /// The differ applied between consecutive snapshots.
    pub text_differ: TextDiffer,
    /// Milliseconds between ticks.
    pub interval_ms: u64,
    /// Whether the monitor is running.
    pub status: MonitorStatus,
    /// Set by `stop_monitoring`; observed by the caller's loop at tick
    /// boundaries.
    pub cancel_requested: bool,
    /// The text recognized by the last tick that saw any, if one did.
    pub last_text: Option<String>,
}

impl ScreenMonitor {
    /// Makes an idle monitor for the given region and tick interval. The
    /// differ reports every differing non-empty line.
    pub fn new(region: CaptureRegion, interval_ms: u64) -> (r: Self)
        ensures
            r.capture.region == region,
            r.text_differ.min_change_length == 1,
            r.interval_ms == interval_ms,
            r.status is Idle,
            !r.cancel_requested,
            r.last_text is None,
    {
        Self {
            capture: ScreenCapture::new(region),
            text_differ: TextDiffer::new(1),
            interval_ms,
            status: MonitorStatus::Idle,
            cancel_requested: false,
            last_text: None,
        }
    }

    /// Whether the monitor is running.
    pub fn is_running(&self) -> (r: bool)
        ensures
            r == (self.status is Running),
    {
        match self.status {
            MonitorStatus::Running => true,
            MonitorStatus::Idle => false,
        }
    }

    /// Begins monitoring: resets the last seen text and the cancellation
    /// flag and becomes running. Fails when already running, leaving the
    /// state untouched.
    pub fn start_monitoring(&mut self) -> (r: Result<(), MonitorError>)
        ensures
            old(self).status is Running ==> r == Err::<(), MonitorError>(
                MonitorError::AlreadyMonitoring,
            ) && *final(self) == *old(self),
            old(self).status is Idle ==> {
                &&& r == Ok::<(), MonitorError>(())
                &&& final(self).status is Running
                &&& final(self).last_text is None
                &&& !final(self).cancel_requested
                &&& final(self).capture == old(self).capture
                &&& final(self).text_differ == old(self).text_differ
                &&& final(self).interval_ms == old(self).interval_ms
            },
    {
        match self.status {
            MonitorStatus::Running => Err(MonitorError::AlreadyMonitoring),
            MonitorStatus::Idle => {
                self.status = MonitorStatus::Running;
                self.last_text = None;
                self.cancel_requested = false;
                Ok(())
            },
        }
    }

    /// Requests the end of monitoring: raises the cancellation flag and
    /// becomes idle. The caller's loop observes the flag within one tick
    /// interval. Fails when not running, leaving the state untouched.
    pub fn stop_monitoring(&mut self) -> (r: Result<(), MonitorError>)
        ensures
            old(self).status is Idle ==> r == Err::<(), MonitorError>(MonitorError::NotMonitoring)
                && *final(self) == *old(self),
            old(self).status is Running ==> {
                &&& r == Ok::<(), MonitorError>(())
                &&& final(self).status is Idle
                &&& final(self).cancel_requested
                &&& final(self).last_text == old(self).last_text
                &&& final(self).capture == old(self).capture
                &&& final(self).text_differ == old(self).text_differ
                &&& final(self).interval_ms == old(self).interval_ms
            },
    {
        match self.status {
            MonitorStatus::Idle => Err(MonitorError::NotMonitoring),
            MonitorStatus::Running => {
                self.cancel_requested = true;
                self.status = MonitorStatus::Idle;
                Ok(())
            },
        }
    }

    /// Replaces the monitored region.
    pub fn update_region(&mut self, region: CaptureRegion)
        ensures
            final(self).capture.region == region,
            final(self).text_differ == old(self).text_differ,
            final(self).interval_ms == old(self).interval_ms,
            final(self).status == old(self).status,
            final(self).cancel_requested == old(self).cancel_requested,
            final(self).last_text == old(self).last_text,
    {
        self.capture = ScreenCapture::new(region);
    }

    /// Replaces the tick interval.
    pub fn update_interval(&mut self, interval_ms: u64)
        ensures
            final(self).interval_ms == interval_ms,
            final(self).capture == old(self).capture,
            final(self).text_differ == old(self).text_differ,
            final(self).status == old(self).status,
            final(self).cancel_requested == old(self).cancel_requested,
            final(self).last_text == old(self).last_text,
    {
        self.interval_ms = interval_ms;
    }

    /// Turns one tick's recognition outcome into the events to emit and
    /// the next state.
    ///
    /// A failed tick yields one `Error` event and changes nothing else.
    /// Otherwise the new text is classified against the last seen text:
    /// first text seen is `NewText`; identical text yields nothing; text
    /// gone yields `TextCleared` and forgets the snapshot; differing text
    /// yields `DiffDetected` (when any line differs by the differ's
    /// threshold) followed by `TextChanged`, and the snapshot is replaced.
    pub fn process_tick(&mut self, recognition: Result<String, String>) -> (events: Vec<
        TextChangeEvent,
    >)
        ensures
            control_unchanged(*final(self), *old(self)),
            recognition matches Err(msg) ==> events@ == seq![TextChangeEvent::Error(msg)]
                && final(self).last_text == old(self).last_text,
            recognition matches Ok(cur) ==> {
                let prev = old(self).last_text;
                let min = old(self).text_differ.min_change_length as nat;
                &&& prev is None && cur@.len() == 0 ==> events@ == Seq::<
                    TextChangeEvent,
                >::empty() && final(self).last_text is None
                &&& prev is None && cur@.len() > 0 ==> events@ == seq![
                    TextChangeEvent::NewText(cur),
                ] && final(self).last_text == Some(cur)
                &&& prev matches Some(p) ==> {
                    let a = added_lines(p@, cur@, min);
                    let d = added_lines(cur@, p@, min);
                    &&& p@ == cur@ ==> events@ == Seq::<TextChangeEvent>::empty()
                        && final(self).last_text == old(self).last_text
                    &&& p@ != cur@ && cur@.len() == 0 ==> events@ == seq![
                        TextChangeEvent::TextCleared(p),
                    ] && final(self).last_text is None
                    &&& p@ != cur@ && cur@.len() > 0 ==> {
                        &&& final(self).last_text == Some(cur)
                        &&& a.len() == 0 && d.len() == 0 ==> events@ == seq![
                            TextChangeEvent::TextChanged { old: p, new: cur },
                        ]
                        &&& a.len() > 0 || d.len() > 0 ==> {
                            &&& events@.len() == 2
                            &&& events@[0] matches TextChangeEvent::DiffDetected {
                                added,
                                removed,
                            } && added.deep_view() == a && removed.deep_view() == d
                            &&& events@[1] == (TextChangeEvent::TextChanged { old: p, new: cur })
                        }
                    }
                }
            },
    {
        let mut events: Vec<TextChangeEvent> = Vec::new();
        match recognition {
            Err(msg) => {
                events.push(TextChangeEvent::Error(msg));
            },
            Ok(cur) => {
                match &self.last_text {
                    None => {
                        if !cur.as_str().is_empty() {
                            events.push(TextChangeEvent::NewText(cur.clone()));
                            self.last_text = Some(cur);
                        }
                    },
                    Some(prev) => {
                        if !prev.eq(&cur) {
                            if cur.as_str().is_empty() {
                                events.push(TextChangeEvent::TextCleared(prev.clone()));
                                self.last_text = None;
                            } else {
                                let p = prev.clone();
                                let diff = self.text_differ.detect_changes(
                                    p.as_str(),
                                    cur.as_str(),
                                );
                                let (added, removed) = diff;
                                if added.len() > 0 || removed.len() > 0 {
                                    events.push(TextChangeEvent::DiffDetected { added, removed });
                                }
                                events.push(
                                    TextChangeEvent::TextChanged { old: p, new: cur.clone() },
                                );
                                self.last_text = Some(cur);
                            }
                        }
                    },
                }
            },
        }
        events
    }
}

} // verus!

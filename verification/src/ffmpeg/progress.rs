//! `ffmpeg -progress pipe:1` output: `key=value` lines, each block closed by
//! `progress=continue` or `progress=end`.
//!
//! The bitrate is a decimal fraction ("1536.2kbits/s"); its number is handed
//! out as text, to be read as a float by the caller.

use crate::text::{chars_are, chars_of, find_char, parse_u64, parse_u64_chars, strip_suffix,
    strip_suffix_chars, sub_chars, trim, trim_chars};
use vstd::prelude::*;

verus! {

/// One recognized progress line.
#[derive(Debug, Clone, PartialEq)]
pub enum ProgressField {
    /// `frame=..`: recognized, not shown.
    Frame,
    /// `bitrate=..`: the number before `kbits/s`, trimmed; none for `N/A`
    /// and other values without that unit.
    Bitrate(Option<String>),
    /// `drop_frames=..`: the count, none when it is no number.
    DropFrames(Option<u64>),
    /// `out_time_us=..`: microseconds of output, none when no number.
    OutTimeUs(Option<u64>),
    /// `progress=..`: whether the stream goes on (anything but `end`).
    Progress(bool),
}

/// A [`ProgressField`] with its text taken as characters.
pub enum FieldView {
    Frame,
    Bitrate(Option<Seq<char>>),
    DropFrames(Option<nat>),
    OutTimeUs(Option<nat>),
    Progress(bool),
}

impl View for ProgressField {
    type V = FieldView;

    open spec fn view(&self) -> FieldView {
        match self {
            ProgressField::Frame => FieldView::Frame,
            ProgressField::Bitrate(t) => FieldView::Bitrate(
                match t {
                    Some(s) => Some(s@),
                    None => None,
                },
            ),
            ProgressField::DropFrames(n) => FieldView::DropFrames(
                match n {
                    Some(k) => Some(*k as nat),
                    None => None,
                },
            ),
            ProgressField::OutTimeUs(n) => FieldView::OutTimeUs(
                match n {
                    Some(k) => Some(*k as nat),
                    None => None,
                },
            ),
            ProgressField::Progress(b) => FieldView::Progress(*b),
        }
    }
}

/// The counters of the stream status that progress lines update.
#[derive(Debug, Clone, Copy, PartialEq, Eq, Default)]
pub struct ProgressCounters {
    pub dropped_frames: u64,
    pub duration_sec: u64,
    pub is_live: bool,
}

/// What a line means: the key is everything before the first `=`, the value
/// everything after it, trimmed of white space.
pub open spec fn progress_field(line: Seq<char>) -> Option<FieldView> {
    match crate::text::first_index(line, '=') {
        None => None,
        Some(i) => {
            let key = line.take(i);
            let value = trim(line.skip(i + 1));
            if key == "frame"@ {
                Some(FieldView::Frame)
            } else if key == "bitrate"@ {
                Some(
                    FieldView::Bitrate(
                        match strip_suffix(value, "kbits/s"@) {
                            Some(num) => Some(trim(num)),
                            None => None,
                        },
                    ),
                )
            } else if key == "drop_frames"@ {
                Some(FieldView::DropFrames(parse_u64(value)))
            } else if key == "out_time_us"@ {
                Some(FieldView::OutTimeUs(parse_u64(value)))
            } else if key == "progress"@ {
                Some(FieldView::Progress(value != "end"@))
            } else {
                None
            }
        },
    }
}

/// The counters after one recognized line: a drop count that is a number
/// replaces the old one, a time in microseconds sets the whole seconds,
/// `progress` sets whether the stream is live.
pub open spec fn applied(c: ProgressCounters, f: FieldView) -> ProgressCounters {
    match f {
        FieldView::DropFrames(Some(n)) => ProgressCounters { dropped_frames: n as u64, ..c },
        FieldView::OutTimeUs(Some(us)) => ProgressCounters {
            duration_sec: (us / 1_000_000) as u64,
            ..c
        },
        FieldView::Progress(live) => ProgressCounters { is_live: live, ..c },
        _ => c,
    }
}

/// Reads one progress line.
pub fn parse_progress_line(line: &str) -> (r: Option<ProgressField>)
    ensures
        match r {
            Some(f) => progress_field(line@) == Some(f@),
            None => progress_field(line@) is None,
        },
{
    let v = chars_of(line);
    let eq = match find_char(&v, '=') {
        Some(i) => i,
        None => return None,
    };
    assert(eq < v.len());
    let key = sub_chars(&v, 0, eq);
    let rest = sub_chars(&v, eq + 1, v.len());
    assert(key@ == line@.take(eq as int));
    assert(rest@ == line@.skip(eq + 1));
    let value = trim_chars(&rest);
    if chars_are(&key, "frame") {
        Some(ProgressField::Frame)
    } else if chars_are(&key, "bitrate") {
        let num = match strip_suffix_chars(&value, "kbits/s") {
            Some(n) => Some(crate::text::string_of(&trim_chars(&n))),
            None => None,
        };
        Some(ProgressField::Bitrate(num))
    } else if chars_are(&key, "drop_frames") {
        Some(ProgressField::DropFrames(parse_u64_chars(&value)))
    } else if chars_are(&key, "out_time_us") {
        Some(ProgressField::OutTimeUs(parse_u64_chars(&value)))
    } else if chars_are(&key, "progress") {
        Some(ProgressField::Progress(!chars_are(&value, "end")))
    } else {
        None
    }
}

/// Updates the counters with one recognized line.
pub fn apply_field(status: &mut ProgressCounters, field: &ProgressField)
    ensures
        *final(status) == applied(*old(status), field@),
{
    match field {
        ProgressField::DropFrames(Some(n)) => {
            status.dropped_frames = *n;
        },
        ProgressField::OutTimeUs(Some(us)) => {
            status.duration_sec = *us / 1_000_000;
        },
        ProgressField::Progress(live) => {
            status.is_live = *live;
        },
        _ => {},
    }
}

/// Consumes one progress line: updates `status` and gives back what the line
/// was, or `None` (and no change) when it is not a progress line.
pub fn apply_line(status: &mut ProgressCounters, line: &str) -> (r: Option<ProgressField>)
    ensures
        match progress_field(line@) {
            Some(f) => r is Some && r->0@ == f && *final(status) == applied(*old(status), f),
            None => r is None && *final(status) == *old(status),
        },
{
    let parsed = parse_progress_line(line);
    match &parsed {
        Some(f) => apply_field(status, f),
        None => {},
    }
    parsed
}

/// Progress lines are snapshots, not increments: applying the same line
/// again changes nothing more.
pub proof fn lemma_progress_idempotent(c: ProgressCounters, f: FieldView)
    ensures
        applied(applied(c, f), f) == applied(c, f),
{
}

} // verus!

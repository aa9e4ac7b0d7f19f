//! The decisions of the command-line recorder: which monitor to record, and
//! the lines it prints about monitors and progress.

use vstd::prelude::*;
use crate::text::{decimal, decimal_chars, string_from_chars};

verus! {

/// Why no monitor could be chosen.
#[derive(Debug, Clone, Copy, PartialEq, Eq, Structural)]
pub enum MonitorError {
    /// The system reports no monitor at all.
    NoMonitors,
    /// The requested index is past the last monitor.
    NotFound { index: usize, available: usize },
}

/// The monitor chosen from `count` monitors when `requested` (or else the
/// first one) is asked for.
pub open spec fn select_monitor_spec(requested: Option<usize>, count: usize) -> Result<usize, MonitorError> {
    let idx = match requested {
        Some(i) => i,
        None => 0,
    };
    if count == 0 {
        Err(MonitorError::NoMonitors)
    } else if idx < count {
        Ok(idx)
    } else {
        Err(MonitorError::NotFound { index: idx, available: count })
    }
}

/// Chooses the monitor to record: the requested index, or the first monitor.
pub fn select_monitor(requested: Option<usize>, count: usize) -> (r: Result<usize, MonitorError>)
    ensures
        r == select_monitor_spec(requested, count),
        r matches Ok(i) ==> i < count,
{
    let idx = match requested {
        Some(i) => i,
        None => 0,
    };
    if count == 0 {
        Err(MonitorError::NoMonitors)
    } else if idx < count {
        Ok(idx)
    } else {
        Err(MonitorError::NotFound { index: idx, available: count })
    }
}

/// The message for a monitor that could not be chosen.
pub open spec fn monitor_error_message(e: MonitorError) -> Seq<char> {
    match e {
        MonitorError::NoMonitors => "No monitors found"@,
        MonitorError::NotFound { index, available } => "Monitor "@ + decimal(index as nat)
            + " not found ("@ + decimal(available as nat) + " available)"@,
    }
}

fn append_decimal(s: &mut String, n: u64)
    ensures
        final(s)@ == old(s)@ + decimal(n as nat),
{
    let d = decimal_chars(n);
    s.append(string_from_chars(&d).as_str());
}

impl MonitorError {
    /// The message shown for this error.
    pub fn message(&self) -> (m: String)
        ensures
            m@ == monitor_error_message(*self),
    {
        match self {
            MonitorError::NoMonitors => String::from_str("No monitors found"),
            MonitorError::NotFound { index, available } => {
                let mut m = String::from_str("Monitor ");
                append_decimal(&mut m, *index as u64);
                m.append(" not found (");
                append_decimal(&mut m, *available as u64);
                m.append(" available)");
                m
            },
        }
    }
}

/// The line that lists one monitor: its index, name, size and whether it is
/// the primary one.
pub open spec fn monitor_summary_spec(
    index: usize,
    name: Seq<char>,
    width: u32,
    height: u32,
    primary: bool,
) -> Seq<char> {
    "["@ + decimal(index as nat) + "] "@ + name + " ("@ + decimal(width as nat) + "x"@ + decimal(
        height as nat,
    ) + " @ "@ + (if primary {
        "primary"@
    } else {
        "secondary"@
    }) + ")"@
}

/// Formats the line that lists one monitor.
pub fn monitor_summary(index: usize, name: &str, width: u32, height: u32, primary: bool) -> (line: String)
    ensures
        line@ == monitor_summary_spec(index, name@, width, height, primary),
{
    let mut s = String::from_str("[");
    append_decimal(&mut s, index as u64);
    s.append("] ");
    s.append(name);
    s.append(" (");
    append_decimal(&mut s, width as u64);
    s.append("x");
    append_decimal(&mut s, height as u64);
    s.append(" @ ");
    s.append(if primary { "primary" } else { "secondary" });
    s.append(")");
    s
}

/// The progress line printed while recording: elapsed seconds and frames,
/// after a carriage return so that it overwrites itself.
pub open spec fn progress_line_spec(secs: u64, frames: u64) -> Seq<char> {
    "\r  "@ + decimal(secs as nat) + "s  "@ + decimal(frames as nat) + " frames"@
}

/// Formats the progress line.
pub fn progress_line(secs: u64, frames: u64) -> (line: String)
    ensures
        line@ == progress_line_spec(secs, frames),
{
    let mut s = String::from_str("\r  ");
    append_decimal(&mut s, secs);
    s.append("s  ");
    append_decimal(&mut s, frames);
    s.append(" frames");
    s
}

} // verus!

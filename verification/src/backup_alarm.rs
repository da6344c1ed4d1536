//! The backup alarm: the dead-man beep behind an unanswered primary alarm.
//!
//! The contract is one file, `/psp/ifalarm`: the panel arms by writing the
//! fire time (epoch seconds) and disarms by deleting it. The watcher polls
//! the file; what it does with each reading is decided here.

use vstd::prelude::*;
use crate::text::{chars_of, parse_i64, parse_int, push_all, push_str, string_of, trim, trim_chars};
use crate::xml::{decimal, push_decimal};

verus! {

/// A fire time older than this (seconds) is a stale leftover, not a wake-up
/// anyone still wants; it is cleared without sounding.
pub const STALE_WINDOW: i64 = 3600;

/// What the watcher does with an armed fire time.
#[derive(Debug, Clone, Copy, PartialEq, Eq)]
pub enum Action {
    /// The fire time is still ahead.
    Wait,
    /// The primary alarm went unanswered: sound the tone.
    Fire { late_by: i64 },
    /// Too late to be wanted: clear the file silently.
    ClearStale { late_by: i64 },
}

/// The decision for a fire time `now - armed` seconds in the past. The
/// lateness reported for a stale one is capped at `i64::MAX`.
pub open spec fn decide_spec(now: int, armed: int) -> Action {
    let late_by = now - armed;
    if late_by < 0 {
        Action::Wait
    } else if late_by <= STALE_WINDOW {
        Action::Fire { late_by: late_by as i64 }
    } else if late_by <= i64::MAX {
        Action::ClearStale { late_by: late_by as i64 }
    } else {
        Action::ClearStale { late_by: i64::MAX }
    }
}

/// What to do at time `now` about the fire time `armed`: wait before it,
/// sound within the stale window after it, clear it silently once it is
/// older than that, however old.
pub fn decide(now: i64, armed: i64) -> (a: Action)
    ensures
        a == decide_spec(now as int, armed as int),
        a matches Action::Wait ==> now < armed,
        a matches Action::Fire { late_by } ==> late_by == now - armed && 0 <= late_by
            <= STALE_WINDOW,
        a matches Action::ClearStale { late_by } ==> now - armed > STALE_WINDOW && (now - armed
            <= i64::MAX ==> late_by == now - armed),
{
    let late_by: i128 = (now as i128) - (armed as i128);
    if late_by < 0 {
        Action::Wait
    } else if late_by <= STALE_WINDOW as i128 {
        Action::Fire { late_by: late_by as i64 }
    } else if late_by <= i64::MAX as i128 {
        Action::ClearStale { late_by: late_by as i64 }
    } else {
        Action::ClearStale { late_by: i64::MAX }
    }
}

/// The content of `/psp/ifalarm` read as epoch seconds: trimmed, parsed as
/// an `i64`.
pub fn read_epoch(text: &str) -> (r: Option<i64>)
    ensures
        r matches Some(v) ==> parse_int(trim(text@), 10, true, i64::MIN as int, i64::MAX as int)
            == Some(v as int),
        r is None ==> parse_int(trim(text@), 10, true, i64::MIN as int, i64::MAX as int) is None,
{
    let c = chars_of(text);
    parse_i64(&trim_chars(&c))
}

/// A `/psp` knob: its trimmed content as an `i64`, the default when the file
/// is missing or does not parse.
pub fn read_knob(contents: Option<&str>, default: i64) -> (r: i64)
    ensures
        contents is None ==> r == default,
        contents matches Some(t) ==> r == match parse_int(
            trim(t@),
            10,
            true,
            i64::MIN as int,
            i64::MAX as int,
        ) {
            Some(v) => v,
            None => default as int,
        },
{
    match contents {
        None => default,
        Some(t) => match read_epoch(t) {
            Some(v) => v,
            None => default,
        },
    }
}

/// One poll of the watcher at time `now`, given the content of
/// `/psp/ifalarm` (`None` when the file is absent): nothing to do unless the
/// file holds a fire time, else the decision for it.
pub fn watch_step(now: i64, contents: Option<&str>) -> (r: Option<Action>)
    ensures
        contents is None ==> r is None,
        contents matches Some(t) ==> match parse_int(
            trim(t@),
            10,
            true,
            i64::MIN as int,
            i64::MAX as int,
        ) {
            None => r is None,
            Some(armed) => r == Some(decide_spec(now as int, armed)),
        },
{
    let t = match contents {
        None => return None,
        Some(t) => t,
    };
    let armed = match read_epoch(t) {
        None => return None,
        Some(a) => a,
    };
    Some(decide(now, armed))
}

/// How long the tone sounds: the `/psp/backup_alarm_duration` knob, at
/// least one second.
pub fn tone_duration(knob: i64) -> (r: u64)
    ensures
        knob < 1 ==> r == 1,
        knob >= 1 ==> r == knob,
{
    if knob < 1 {
        1
    } else {
        knob as u64
    }
}


/// The tone's mpv command line, after the binary: looped forever at the
/// given volume, on the configured audio device when one is set, playing
/// `source` (the local Klaxon, or a generated sine when it is missing).
pub open spec fn tone_command(volume: int, device: Option<Seq<char>>, source: Seq<char>) -> Seq<Seq<char>> {
    seq!["--no-video"@, "--no-terminal"@, "--really-quiet"@, "--loop=inf"@, "--volume="@ + decimal(volume)]
        + (match device {
        Some(d) => if d.len() > 0 {
            seq!["--audio-device="@ + d]
        } else {
            Seq::empty()
        },
        None => Seq::empty(),
    }) + seq![source]
}

pub open spec fn string_views(v: Seq<String>) -> Seq<Seq<char>> {
    v.map_values(|s: String| s@)
}

/// The tone's mpv arguments.
pub fn tone_args(volume: i64, device: Option<&str>, source: &str) -> (r: Vec<String>)
    ensures
        string_views(r@) == tone_command(
            volume as int,
            match device {
                Some(d) => Some(d@),
                None => None,
            },
            source@,
        ),
{
    let mut args: Vec<String> = Vec::new();
    args.push("--no-video".to_string());
    args.push("--no-terminal".to_string());
    args.push("--really-quiet".to_string());
    args.push("--loop=inf".to_string());
    let mut v: Vec<char> = Vec::new();
    push_str(&mut v, "--volume=");
    push_decimal(&mut v, volume);
    args.push(string_of(&v));
    match device {
        Some(d) => {
            let dc = chars_of(d);
            if dc.len() > 0 {
                let mut a: Vec<char> = Vec::new();
                push_str(&mut a, "--audio-device=");
                push_all(&mut a, &dc);
                args.push(string_of(&a));
            }
        },
        None => {},
    }
    args.push(string_of(&chars_of(source)));
    assert(string_views(args@) =~= tone_command(
        volume as int,
        match device {
            Some(d) => Some(d@),
            None => None,
        },
        source@,
    ));
    args
}

} // verus!

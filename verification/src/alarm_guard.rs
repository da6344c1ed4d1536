//! A silent alarm must not cancel a sounding one. `Alarm.ringAlarm` opens
//! with `_alarmSet.stopAlarmsExcept(this)`, which stops every other ringing
//! alarm; a `type="none"` alarm (the silent kind, whose only job is a side
//! effect such as leaving night mode) ran that cancel too. The wrapped
//! method lets a silent canceller cancel nobody; every other call takes the
//! original path unchanged.

use vstd::prelude::*;
use crate::text::{chars_of, eq_str};

verus! {

/// What the wrapped `stopAlarmsExcept` does.
#[derive(Debug, Clone, Copy, PartialEq, Eq)]
pub enum StopDecision {
    /// The alarm that rang is silent: cancel nothing.
    Skip,
    /// Call the panel's own implementation with the same arguments.
    Delegate,
}

/// The decision for a call whose first argument is an alarm object of the
/// given `_type` (empty when absent or not a string), or `None` when the
/// first argument is missing or not an object.
pub fn stop_unless_silent(alarm_type: Option<&str>) -> (r: StopDecision)
    ensures
        r == StopDecision::Skip <==> (alarm_type matches Some(t) && t@ == "none"@),
{
    match alarm_type {
        Some(t) => {
            let c = chars_of(t);
            if eq_str(&c, "none") {
                StopDecision::Skip
            } else {
                StopDecision::Delegate
            }
        },
        None => StopDecision::Delegate,
    }
}

} // verus!

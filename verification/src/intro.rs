//! The INTRO button plays `intro.swf` inside the panel. While it does, the
//! intro's own `fscommand("quit")` must not exit the player: on real
//! hardware it only killed the slave instance.

use vstd::prelude::*;
use crate::text::{chars_of, eq_str};

verus! {

/// Whether `fscommand(command)` is swallowed: a `quit` while the panel
/// reports the in-panel intro playing (`g_playingIntro`, false when the
/// panel has no such flag). Standalone runs (boot-time intro) and the
/// panel's own quit paths keep their behaviour.
pub fn swallow_fscommand_quit(command: &str, playing_intro: bool) -> (r: bool)
    ensures
        r == (command@ == "quit"@ && playing_intro),
{
    let c = chars_of(command);
    if !eq_str(&c, "quit") {
        return false;
    }
    playing_intro
}

} // verus!

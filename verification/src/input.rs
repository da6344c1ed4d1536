//! The simulated-input control channel: one command per line on stdin or a
//! FIFO.

use vstd::prelude::*;
use crate::text::{chars_of, eq_str};

verus! {

/// A control-channel command, as far as the bend sensor is concerned.
#[derive(Debug, Clone, Copy, PartialEq, Eq)]
pub enum Control {
    /// An empty line: nothing.
    Nothing,
    /// `bend` or `tap`: pressed for one poll, then released.
    Tap,
    /// `bend down`: press and hold.
    BendDown,
    /// `bend up`: release.
    BendUp,
    /// Anything else: a pointer command, or unknown.
    Other,
}

/// What a (trimmed) control line asks of the bend sensor.
pub fn control_command(command: &str) -> (c: Control)
    ensures
        command@ == ""@ ==> c == Control::Nothing,
        command@ == "bend"@ || command@ == "tap"@ ==> c == Control::Tap,
        command@ == "bend down"@ ==> c == Control::BendDown,
        command@ == "bend up"@ ==> c == Control::BendUp,
        command@ != ""@ && command@ != "bend"@ && command@ != "tap"@ && command@ != "bend down"@
            && command@ != "bend up"@ ==> c == Control::Other,
{
    let s = chars_of(command);
    proof {
        reveal_strlit("");
        reveal_strlit("bend");
        reveal_strlit("tap");
        reveal_strlit("bend down");
        reveal_strlit("bend up");
        assert("bend"@.len() == 4 && "tap"@.len() == 3 && "bend down"@.len() == 9);
        assert("bend up"@.len() == 7 && ""@.len() == 0);
    }
    if eq_str(&s, "") {
        Control::Nothing
    } else if eq_str(&s, "bend") || eq_str(&s, "tap") {
        Control::Tap
    } else if eq_str(&s, "bend down") {
        Control::BendDown
    } else if eq_str(&s, "bend up") {
        Control::BendUp
    } else {
        Control::Other
    }
}

} // verus!

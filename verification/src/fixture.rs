//! The decisions of the fixtures-backed host: which chumby hosts a URL
//! names, how a rootfs path resolves, which native or shell command gets
//! which treatment, and how the exec manifest and `{FIXTURES}` token work.

use vstd::prelude::*;
use crate::path::{components, path_components};
use crate::text::{
    char_pos, char_position, chars_of, ends_with, eq_str, has_prefix, has_suffix, lines, lines_of,
    slice_of, split_char, split_chars, starts_with, strip_prefix, string_of, trim, trim_chars,
    trim_end_char, trim_end_matches, views,
};

verus! {

/// The host part of `host[:port]`.
pub open spec fn host_name(host: Seq<char>) -> Seq<char> {
    split_char(host, ':')[0]
}

fn host_name_of(host: &str) -> (r: Vec<char>)
    ensures
        r@ == host_name(host@),
{
    let h = chars_of(host);
    let parts = split_chars(&h, ':');
    let first = slice_of(&parts[0], 0, parts[0].len());
    proof {
        assert(views(parts@)[0] == parts@[0]@);
        assert(first@ =~= parts@[0]@);
    }
    first
}

pub open spec fn is_chumby_host_spec(host: Seq<char>) -> bool {
    let h = host_name(host);
    h == "chumby.com"@ || has_suffix(h, ".chumby.com"@) || h == "127.0.0.1"@ || h == "localhost"@
}

/// chumby.com, any of its subdomains, or the local daemons; any port.
pub fn is_chumby_host(host: &str) -> (b: bool)
    ensures
        b == is_chumby_host_spec(host@),
{
    let h = host_name_of(host);
    eq_str(&h, "chumby.com") || ends_with(&h, ".chumby.com") || eq_str(&h, "127.0.0.1") || eq_str(
        &h,
        "localhost",
    )
}

pub open spec fn is_using_host_spec(host: Seq<char>) -> bool {
    let h = host_name(host);
    h == "xml.chumby.com"@ || h == "widgets.chumby.com"@
}

/// The chumby.com hosts that carry the "using chumby.com" surface: device
/// identity and registration, the account channel, widget and thumbnail
/// loads. `update.chumby.com` is deliberately not one of them.
pub fn is_using_host(host: &str) -> (b: bool)
    ensures
        b == is_using_host_spec(host@),
{
    let h = host_name_of(host);
    eq_str(&h, "xml.chumby.com") || eq_str(&h, "widgets.chumby.com")
}

pub open spec fn is_music_host_spec(host: Seq<char>) -> bool {
    let h = host_name(host);
    h == "shoutcast.chumby.com"@ || h == "bor.chumby.com"@
}

/// The music-proxy hosts eligible for passthrough.
pub fn is_music_host(host: &str) -> (b: bool)
    ensures
        b == is_music_host_spec(host@),
{
    let h = host_name_of(host);
    eq_str(&h, "shoutcast.chumby.com") || eq_str(&h, "bor.chumby.com")
}

pub open spec fn is_brightness_knob_spec(path: Seq<char>) -> bool {
    path_components(path) == seq!["proc"@, "sys"@, "sense1"@, "brightness"@]
}

fn components_are(cs: &Vec<Vec<char>>, names: &[&str]) -> (b: bool)
    ensures
        b == (views(cs@) == names@.map_values(|n: &str| n@)),
{
    let ghost want = names@.map_values(|n: &str| n@);
    if cs.len() != names.len() {
        assert(views(cs@).len() != want.len());
        return false;
    }
    let mut i: usize = 0;
    while i < cs.len()
        invariant
            i <= cs@.len(),
            cs@.len() == names@.len(),
            want == names@.map_values(|n: &str| n@),
            forall|k: int| 0 <= k < i ==> views(cs@)[k] == want[k],
        decreases cs@.len() - i,
    {
        if !eq_str(&cs[i], names[i]) {
            assert(views(cs@)[i as int] != want[i as int]);
            return false;
        }
        i = i + 1;
    }
    assert(views(cs@) =~= want);
    true
}

/// The panel's backlight knob, `/proc/sys/sense1/brightness`, in any of its
/// multi-slash spellings.
pub fn is_brightness_knob(path: &str) -> (b: bool)
    ensures
        b == is_brightness_knob_spec(path@),
{
    let p = chars_of(path);
    let cs = components(&p);
    let names = ["proc", "sys", "sense1", "brightness"];
    let b = components_are(&cs, &names);
    proof {
        assert(names@.map_values(|n: &str| n@) =~= seq!["proc"@, "sys"@, "sense1"@, "brightness"@]);
    }
    b
}

pub open spec fn is_local_profile_path_spec(path: Seq<char>) -> bool {
    let c = path_components(path);
    ||| c == seq!["tmp"@, "profile.xml"@]
    ||| c == seq!["mnt"@, "usb"@, "profile.xml"@]
    ||| c == seq!["mnt"@, "storage"@, "profile.xml"@]
    ||| c == seq!["psp"@, "profile.xml"@]
}

/// `mergeLocalProfile`'s probe list, exactly.
pub fn is_local_profile_path(path: &str) -> (b: bool)
    ensures
        b == is_local_profile_path_spec(path@),
{
    let p = chars_of(path);
    let cs = components(&p);
    let a = ["tmp", "profile.xml"];
    let b = ["mnt", "usb", "profile.xml"];
    let c = ["mnt", "storage", "profile.xml"];
    let d = ["psp", "profile.xml"];
    proof {
        assert(a@.map_values(|n: &str| n@) =~= seq!["tmp"@, "profile.xml"@]);
        assert(b@.map_values(|n: &str| n@) =~= seq!["mnt"@, "usb"@, "profile.xml"@]);
        assert(c@.map_values(|n: &str| n@) =~= seq!["mnt"@, "storage"@, "profile.xml"@]);
        assert(d@.map_values(|n: &str| n@) =~= seq!["psp"@, "profile.xml"@]);
    }
    components_are(&cs, &a) || components_are(&cs, &b) || components_are(&cs, &c)
        || components_are(&cs, &d)
}

/// The rootfs-relative components a panel path names; `None` when a `..`
/// would leave the root.
pub open spec fn resolve_spec(path: Seq<char>) -> Option<Seq<Seq<char>>> {
    let c = path_components(path);
    if exists|k: int| 0 <= k < c.len() && #[trigger] c[k] == ".."@ {
        None
    } else {
        Some(c)
    }
}

/// Rootfs-relative components of a panel path, `None` for a path that would
/// escape the rootfs.
pub fn resolve(path: &str) -> (r: Option<Vec<String>>)
    ensures
        r is None ==> resolve_spec(path@) is None,
        r matches Some(v) ==> resolve_spec(path@) == Some(v@.map_values(|s: String| s@)),
{
    let p = chars_of(path);
    let cs = components(&p);
    let ghost c = views(cs@);
    let mut out: Vec<String> = Vec::new();
    let mut i: usize = 0;
    while i < cs.len()
        invariant
            i <= cs@.len(),
            c == views(cs@),
            c == path_components(path@),
            forall|k: int| 0 <= k < i ==> c[k] != ".."@,
            out@.map_values(|s: String| s@) =~= c.take(i as int),
        decreases cs@.len() - i,
    {
        if eq_str(&cs[i], "..") {
            assert(c[i as int] == ".."@);
            return None;
        }
        let ghost before = out@.map_values(|s: String| s@);
        out.push(string_of(&cs[i]));
        proof {
            assert(out@.map_values(|s: String| s@) =~= before.push(c[i as int]));
        }
        i = i + 1;
    }
    proof {
        assert(c.take(cs@.len() as int) =~= c);
    }
    Some(out)
}

/// A path is hidden from every read when the local profile is hidden and the
/// path is one of its probe paths.
pub fn hidden(hide_local_profile: bool, path: &str) -> (b: bool)
    ensures
        b == (hide_local_profile && is_local_profile_path_spec(path@)),
{
    hide_local_profile && is_local_profile_path(path)
}


/// How the fixture host answers a host native, by wrapper name.
#[derive(Debug, Clone, Copy, PartialEq, Eq)]
pub enum NativeAction {
    /// (5,202) `"ironforge"`: the fork emulates a Chumby Classic.
    Platform,
    /// (5,205) `LANGUAGE` and `CONFIGNAME`, everything else empty.
    Environment,
    /// (5,16) nominal supply, 12 V.
    DcVolts,
    /// (5,41) external power, 1.
    PowerSource,
    /// (5,38) headphones not plugged, 0.
    HeadphonesIn,
    /// (5,25) the simulated bend sensor.
    Bent,
    /// (5,60) version probe or a level axis.
    Accelerometer,
    /// (5,177) `/psp/timezone` from the rootfs, `"UTC"` when absent.
    GetTimeZone,
    /// (5,178) writes `/psp/timezone`, trimmed.
    SetTimeZone,
    /// (5,80) the slave-variable store.
    SetSlaveVar,
    /// (5,81) the slave-variable store, `_chumby_widget_done` defaulting.
    GetSlaveVar,
    /// (5,140) whether the audio backend is installed.
    IsAudioPlayerAvailable,
    /// (5,131) polled playback state.
    GetAudioPlayerState,
    /// (5,146) loop count for the next play.
    PlayAudioLoopCount,
    /// (5,144) play a URL or rootfs path.
    PlayAudio,
    /// (5,134) and (5,141).
    StopAudio,
    /// (5,132)
    PauseAudio,
    /// (5,133)
    ResumeAudio,
    /// (5,142) and (5,143): daemon lifecycle, nothing to do.
    AudioDaemon,
    /// (5,181) clamp, store, persist and apply the volume.
    SetSystemVolume,
    /// (5,185) store the mute and drive the player volume.
    SetSystemMute,
    /// (5,20) store the level, and run `brightness_ctl` when configured.
    SetLcdMute,
    /// Any other `_setX`: store the first argument under `X`.
    Store,
    /// Any other `_getX`: the stored value, or the getter's default.
    Load,
    /// Anything else: undefined.
    Other,
}

pub open spec fn native_action_spec(name: Seq<char>) -> NativeAction {
    if name == "_getPlatform"@ {
        NativeAction::Platform
    } else if name == "_getEnvironment"@ {
        NativeAction::Environment
    } else if name == "_dcVolts"@ {
        NativeAction::DcVolts
    } else if name == "_powerSource"@ {
        NativeAction::PowerSource
    } else if name == "_headphonesIn"@ {
        NativeAction::HeadphonesIn
    } else if name == "_bent"@ {
        NativeAction::Bent
    } else if name == "_accelerometer"@ {
        NativeAction::Accelerometer
    } else if name == "_getTimeZone"@ {
        NativeAction::GetTimeZone
    } else if name == "_setTimeZone"@ {
        NativeAction::SetTimeZone
    } else if name == "_setSlaveVar"@ {
        NativeAction::SetSlaveVar
    } else if name == "_getSlaveVar"@ {
        NativeAction::GetSlaveVar
    } else if name == "_isAudioPlayerAvailable"@ {
        NativeAction::IsAudioPlayerAvailable
    } else if name == "_getAudioPlayerState"@ {
        NativeAction::GetAudioPlayerState
    } else if name == "_playAudioLoopCount"@ {
        NativeAction::PlayAudioLoopCount
    } else if name == "_playAudio"@ {
        NativeAction::PlayAudio
    } else if name == "_stopAudioPlayer"@ || name == "_terminateAudioPlayer"@ {
        NativeAction::StopAudio
    } else if name == "_pauseAudioPlayer"@ {
        NativeAction::PauseAudio
    } else if name == "_resumeAudioPlayer"@ {
        NativeAction::ResumeAudio
    } else if name == "_startAudioPlayer"@ || name == "_restartAudioPlayer"@ {
        NativeAction::AudioDaemon
    } else if name == "_setSystemVolume"@ {
        NativeAction::SetSystemVolume
    } else if name == "_setSystemMute"@ {
        NativeAction::SetSystemMute
    } else if name == "_setLCDMute"@ {
        NativeAction::SetLcdMute
    } else if has_prefix(name, "_set"@) {
        NativeAction::Store
    } else if has_prefix(name, "_get"@) {
        NativeAction::Load
    } else {
        NativeAction::Other
    }
}

/// Which behaviour of the fixture host answers the native `name`.
pub fn native_action(name: &str) -> (a: NativeAction)
    ensures
        a == native_action_spec(name@),
{
    let n = chars_of(name);
    if eq_str(&n, "_getPlatform") {
        NativeAction::Platform
    } else if eq_str(&n, "_getEnvironment") {
        NativeAction::Environment
    } else if eq_str(&n, "_dcVolts") {
        NativeAction::DcVolts
    } else if eq_str(&n, "_powerSource") {
        NativeAction::PowerSource
    } else if eq_str(&n, "_headphonesIn") {
        NativeAction::HeadphonesIn
    } else if eq_str(&n, "_bent") {
        NativeAction::Bent
    } else if eq_str(&n, "_accelerometer") {
        NativeAction::Accelerometer
    } else if eq_str(&n, "_getTimeZone") {
        NativeAction::GetTimeZone
    } else if eq_str(&n, "_setTimeZone") {
        NativeAction::SetTimeZone
    } else if eq_str(&n, "_setSlaveVar") {
        NativeAction::SetSlaveVar
    } else if eq_str(&n, "_getSlaveVar") {
        NativeAction::GetSlaveVar
    } else if eq_str(&n, "_isAudioPlayerAvailable") {
        NativeAction::IsAudioPlayerAvailable
    } else if eq_str(&n, "_getAudioPlayerState") {
        NativeAction::GetAudioPlayerState
    } else if eq_str(&n, "_playAudioLoopCount") {
        NativeAction::PlayAudioLoopCount
    } else if eq_str(&n, "_playAudio") {
        NativeAction::PlayAudio
    } else if eq_str(&n, "_stopAudioPlayer") || eq_str(&n, "_terminateAudioPlayer") {
        NativeAction::StopAudio
    } else if eq_str(&n, "_pauseAudioPlayer") {
        NativeAction::PauseAudio
    } else if eq_str(&n, "_resumeAudioPlayer") {
        NativeAction::ResumeAudio
    } else if eq_str(&n, "_startAudioPlayer") || eq_str(&n, "_restartAudioPlayer") {
        NativeAction::AudioDaemon
    } else if eq_str(&n, "_setSystemVolume") {
        NativeAction::SetSystemVolume
    } else if eq_str(&n, "_setSystemMute") {
        NativeAction::SetSystemMute
    } else if eq_str(&n, "_setLCDMute") {
        NativeAction::SetLcdMute
    } else if starts_with(&n, "_set") {
        NativeAction::Store
    } else if starts_with(&n, "_get") {
        NativeAction::Load
    } else {
        NativeAction::Other
    }
}

/// The store key of a `_setX` / `_getX` name: `X`.
pub fn state_key(name: &str) -> (k: String)
    requires
        has_prefix(name@, "_set"@) || has_prefix(name@, "_get"@),
    ensures
        k@ == name@.skip(4),
{
    let n = chars_of(name);
    proof {
        reveal_strlit("_set");
        reveal_strlit("_get");
    }
    string_of(&slice_of(&n, 4, n.len()))
}

/// What a store-backed getter answers before its setter has run: a number,
/// or `None` for undefined.
pub open spec fn getter_default_spec(name: Seq<char>) -> Option<u32> {
    if name == "_getSystemVolume"@ {
        Some(60)
    } else if name == "_getSystemBalance"@ {
        Some(0)
    } else if name == "_getSystemMute"@ || name == "_getSpeakerMute"@ || name == "_getLCDMute"@ {
        Some(0)
    } else if name == "_getTouchClick"@ {
        Some(0)
    } else if name == "_getLCDBrightness"@ {
        Some(65536)
    } else {
        None
    }
}

/// Defaults for store-backed getters whose setter has not run yet: audible
/// volume, centered balance, nothing muted, click sound off, full backlight.
pub fn default_for_getter(name: &str) -> (r: Option<u32>)
    ensures
        r == getter_default_spec(name@),
{
    let n = chars_of(name);
    if eq_str(&n, "_getSystemVolume") {
        Some(60)
    } else if eq_str(&n, "_getSystemBalance") {
        Some(0)
    } else if eq_str(&n, "_getSystemMute") || eq_str(&n, "_getSpeakerMute") || eq_str(
        &n,
        "_getLCDMute",
    ) {
        Some(0)
    } else if eq_str(&n, "_getTouchClick") {
        Some(0)
    } else if eq_str(&n, "_getLCDBrightness") {
        Some(65536)
    } else {
        None
    }
}

/// `_getEnvironment(var)`: the two variables the panel reads at startup.
pub fn environment_value(var: &str) -> (r: &'static str)
    ensures
        var@ == "LANGUAGE"@ ==> r@ == "en_US"@,
        var@ == "CONFIGNAME"@ ==> r@ == "ironforge"@,
        var@ != "LANGUAGE"@ && var@ != "CONFIGNAME"@ ==> r@ == ""@,
{
    let v = chars_of(var);
    proof {
        reveal_strlit("LANGUAGE");
        reveal_strlit("CONFIGNAME");
        assert("LANGUAGE"@.len() != "CONFIGNAME"@.len());
    }
    if eq_str(&v, "LANGUAGE") {
        "en_US"
    } else if eq_str(&v, "CONFIGNAME") {
        "ironforge"
    } else {
        ""
    }
}

/// `_getSlaveVar` for a variable never set: `_chumby_widget_done` reads
/// `"true"` so intro and widget handoffs never hang; anything else is
/// undefined.
pub fn slave_var_default(key: &str) -> (r: Option<&'static str>)
    ensures
        key@ == "_chumby_widget_done"@ ==> (r matches Some(v) && v@ == "true"@),
        key@ != "_chumby_widget_done"@ ==> r is None,
{
    let k = chars_of(key);
    if eq_str(&k, "_chumby_widget_done") {
        Some("true")
    } else {
        None
    }
}

/// The variables by name, the later of two entries of one name winning.
pub open spec fn vars_map(entries: Seq<(Seq<char>, Seq<char>)>) -> Map<Seq<char>, Seq<char>>
    decreases entries.len(),
{
    if entries.len() == 0 {
        Map::empty()
    } else {
        vars_map(entries.drop_last()).insert(entries.last().0, entries.last().1)
    }
}

pub open spec fn pair_views(v: Seq<(String, String)>) -> Seq<(Seq<char>, Seq<char>)> {
    v.map_values(|p: (String, String)| (p.0@, p.1@))
}

proof fn lemma_vars_map_last(e: Seq<(Seq<char>, Seq<char>)>, j: int, k: Seq<char>)
    requires
        -1 <= j < e.len(),
        forall|m: int| j < m < e.len() ==> (#[trigger] e[m]).0 != k,
        j >= 0 ==> e[j].0 == k,
    ensures
        j >= 0 ==> vars_map(e).contains_key(k) && vars_map(e)[k] == e[j].1,
        j < 0 ==> !vars_map(e).contains_key(k),
    decreases e.len(),
{
    if e.len() > 0 {
        let init = e.drop_last();
        if j == e.len() - 1 {
        } else {
            assert forall|m: int| j < m < init.len() implies (#[trigger] init[m]).0 != k by {
                assert(init[m] == e[m]);
            }
            if j >= 0 {
                assert(init[j] == e[j]);
            }
            lemma_vars_map_last(init, j, k);
            assert(e[e.len() - 1].0 != k);
        }
    }
}

proof fn lemma_vars_map_update(e: Seq<(Seq<char>, Seq<char>)>, i: int, v: Seq<char>)
    requires
        0 <= i < e.len(),
        forall|m: int| i < m < e.len() ==> (#[trigger] e[m]).0 != e[i].0,
    ensures
        vars_map(e.update(i, (e[i].0, v))) == vars_map(e).insert(e[i].0, v),
    decreases e.len(),
{
    let k = e[i].0;
    let u = e.update(i, (k, v));
    let init = e.drop_last();
    assert(u.drop_last() =~= if i == e.len() - 1 {
        init
    } else {
        init.update(i, (k, v))
    });
    if i < e.len() - 1 {
        assert forall|m: int| i < m < init.len() implies (#[trigger] init[m]).0 != init[i].0 by {
            assert(init[m] == e[m]);
        }
        lemma_vars_map_update(init, i, v);
        assert(e[e.len() - 1].0 != k);
        assert(vars_map(u) =~= vars_map(e).insert(k, v));
    } else {
        assert(vars_map(u) =~= vars_map(e).insert(k, v));
    }
}

/// The variables widgets set with `_setSlaveVar`, by name.
pub struct SlaveVars {
    entries: Vec<(String, String)>,
}

impl View for SlaveVars {
    type V = Map<Seq<char>, Seq<char>>;

    closed spec fn view(&self) -> Map<Seq<char>, Seq<char>> {
        vars_map(pair_views(self.entries@))
    }
}

impl SlaveVars {
    /// No variable set.
    pub fn new() -> (r: SlaveVars)
        ensures
            r@ == Map::<Seq<char>, Seq<char>>::empty(),
    {
        let r = SlaveVars { entries: Vec::new() };
        assert(pair_views(r.entries@) =~= Seq::<(Seq<char>, Seq<char>)>::empty());
        r
    }

    /// The last entry named `key`, if any.
    fn position(&self, key: &str) -> (r: Option<usize>)
        ensures
            match r {
                Some(j) => {
                    &&& j < self.entries@.len()
                    &&& self.entries@[j as int].0@ == key@
                    &&& forall|m: int|
                        j < m < self.entries@.len() ==> (#[trigger] self.entries@[m]).0@ != key@
                },
                None => forall|m: int|
                    0 <= m < self.entries@.len() ==> (#[trigger] self.entries@[m]).0@ != key@,
            },
    {
        let mut i: usize = self.entries.len();
        while i > 0
            invariant
                i <= self.entries@.len(),
                forall|m: int| i <= m < self.entries@.len() ==> (#[trigger] self.entries@[m]).0@ != key@,
            decreases i,
        {
            let k = chars_of(self.entries[i - 1].0.as_str());
            if eq_str(&k, key) {
                return Some(i - 1);
            }
            i = i - 1;
        }
        None
    }

    /// The value set for `key`, if one was.
    pub fn get(&self, key: &str) -> (r: Option<String>)
        ensures
            match r {
                Some(v) => self@.contains_key(key@) && self@[key@] == v@,
                None => !self@.contains_key(key@),
            },
    {
        let ghost e = pair_views(self.entries@);
        match self.position(key) {
            Some(j) => {
                proof {
                    assert forall|m: int| j < m < e.len() implies (#[trigger] e[m]).0 != key@ by {
                        assert(e[m].0 == self.entries@[m].0@);
                    }
                    lemma_vars_map_last(e, j as int, key@);
                }
                Some(self.entries[j].1.clone())
            },
            None => {
                proof {
                    assert forall|m: int| -1 < m < e.len() implies (#[trigger] e[m]).0 != key@ by {
                        assert(e[m].0 == self.entries@[m].0@);
                    }
                    lemma_vars_map_last(e, -1, key@);
                }
                None
            },
        }
    }

    /// Sets `key` to `value`.
    pub fn set(&mut self, key: &str, value: &str)
        ensures
            final(self)@ == old(self)@.insert(key@, value@),
    {
        let ghost e = pair_views(self.entries@);
        match self.position(key) {
            Some(j) => {
                proof {
                    assert forall|m: int| j < m < e.len() implies (#[trigger] e[m]).0 != e[j as int].0 by {
                        assert(e[m].0 == self.entries@[m].0@);
                    }
                    lemma_vars_map_update(e, j as int, value@);
                }
                let k = self.entries[j].0.clone();
                self.entries.set(j, (k, value.to_string()));
                assert(pair_views(self.entries@) =~= e.update(j as int, (e[j as int].0, value@)));
            },
            None => {
                self.entries.push((key.to_string(), value.to_string()));
                proof {
                    let n = pair_views(self.entries@);
                    assert(n.drop_last() =~= e);
                }
            },
        }
    }

    /// `_getSlaveVar`: the value set for `key`, else its default.
    pub fn lookup(&self, key: &str) -> (r: Option<String>)
        ensures
            self@.contains_key(key@) ==> (r matches Some(v) && v@ == self@[key@]),
            !self@.contains_key(key@) ==> match r {
                Some(v) => key@ == "_chumby_widget_done"@ && v@ == "true"@,
                None => key@ != "_chumby_widget_done"@,
            },
    {
        match self.get(key) {
            Some(v) => Some(v),
            None => match slave_var_default(key) {
                Some(d) => Some(d.to_string()),
                None => None,
            },
        }
    }
}

/// A variable reads back what was last set for it, and setting one leaves
/// every other as it was.
pub proof fn law_slave_var_read_back(
    vars: Map<Seq<char>, Seq<char>>,
    key: Seq<char>,
    value: Seq<char>,
    other: Seq<char>,
)
    ensures
        vars.insert(key, value).contains_key(key),
        vars.insert(key, value)[key] == value,
        other != key ==> vars.insert(key, value).contains_key(other) == vars.contains_key(other),
        other != key && vars.contains_key(other) ==> vars.insert(key, value)[other] == vars[other],
{
}

/// `_getTimeZone`: the rootfs file's text, trimmed; `"UTC"` when absent.
pub fn timezone_answer(contents: Option<&[u8]>) -> (r: String)
    ensures
        contents matches Some(b) ==> r@ == trim(crate::text::utf8_lossy(b@)),
        contents matches Some(b) ==> (vstd::utf8::valid_utf8(b@) ==> r@ == trim(
            vstd::utf8::decode_utf8(b@),
        )),
        contents is None ==> r@ == "UTC"@,
{
    match contents {
        Some(b) => {
            let t = crate::text::lossy_string(b);
            let c = chars_of(t.as_str());
            string_of(&trim_chars(&c))
        },
        None => {
            let s = String::from_str("UTC");
            s
        },
    }
}

/// `_setTimeZone(tz)`: what goes into `/psp/timezone` (no trailing
/// newline, like the seeded fixture).
pub fn timezone_file(tz: &str) -> (r: Vec<u8>)
    ensures
        r@ == vstd::utf8::encode_utf8(trim(tz@)),
{
    let c = chars_of(tz);
    let t = string_of(&trim_chars(&c));
    crate::text::utf8_bytes(t.as_str())
}

/// The shell commands with real semantics rather than canned fixtures.
#[derive(Debug, Clone, Copy, PartialEq, Eq)]
pub enum ExecRoute {
    /// `rm /psp/ifalarm…`: delete the arm file and stop a sounding tone.
    DismissBackupAlarm,
    /// `reload_backup_alarm`: nothing to do, the watcher polls the file.
    ReloadBackupAlarm,
    /// `chumby_version -h` in `brightness_ctl` mode: `"3.7"`.
    HardwareVersion,
    /// `…/scripts/enable_intro`: remove `/psp/disable_intro`.
    EnableIntro,
    /// `…/scripts/disable_intro`: create `/psp/disable_intro`.
    DisableIntro,
    /// Everything else: the exec manifest.
    Manifest,
}

pub open spec fn exec_route_spec(command: Seq<char>, brightness_ctl: bool) -> ExecRoute {
    if has_prefix(command, "rm /psp/ifalarm"@) {
        ExecRoute::DismissBackupAlarm
    } else if command == "reload_backup_alarm"@ {
        ExecRoute::ReloadBackupAlarm
    } else if command == "chumby_version -h"@ && brightness_ctl {
        ExecRoute::HardwareVersion
    } else if has_suffix(command, "/scripts/enable_intro"@) {
        ExecRoute::EnableIntro
    } else if has_suffix(command, "/scripts/disable_intro"@) {
        ExecRoute::DisableIntro
    } else {
        ExecRoute::Manifest
    }
}

/// Which treatment a shell command gets from the fixture host.
pub fn exec_route(command: &str, brightness_ctl: bool) -> (r: ExecRoute)
    ensures
        r == exec_route_spec(command@, brightness_ctl),
{
    let c = chars_of(command);
    if starts_with(&c, "rm /psp/ifalarm") {
        ExecRoute::DismissBackupAlarm
    } else if eq_str(&c, "reload_backup_alarm") {
        ExecRoute::ReloadBackupAlarm
    } else if eq_str(&c, "chumby_version -h") && brightness_ctl {
        ExecRoute::HardwareVersion
    } else if ends_with(&c, "/scripts/enable_intro") {
        ExecRoute::EnableIntro
    } else if ends_with(&c, "/scripts/disable_intro") {
        ExecRoute::DisableIntro
    } else {
        ExecRoute::Manifest
    }
}

/// One manifest line: `prefix<TAB>file`, trimmed; blank lines, `#` comments
/// and lines without a TAB give nothing.
pub open spec fn manifest_entry(line: Seq<char>) -> Option<(Seq<char>, Seq<char>)> {
    let t = trim(line);
    if t.len() == 0 || t[0] == '#' {
        None
    } else {
        match char_pos(t, '\t') {
            Some(i) => Some((t.take(i), trim(t.skip(i + 1)))),
            None => None,
        }
    }
}

/// The entries of a sequence of manifest lines, in file order.
pub open spec fn manifest_entries(ls: Seq<Seq<char>>) -> Seq<(Seq<char>, Seq<char>)>
    decreases ls.len(),
{
    if ls.len() == 0 {
        Seq::empty()
    } else {
        match manifest_entry(ls.last()) {
            Some(e) => manifest_entries(ls.drop_last()).push(e),
            None => manifest_entries(ls.drop_last()),
        }
    }
}

pub open spec fn entry_views(v: Seq<(String, String)>) -> Seq<(Seq<char>, Seq<char>)> {
    v.map_values(|e: (String, String)| (e.0@, e.1@))
}

/// `exec/manifest.txt`: (command prefix, response file) pairs in file order.
pub fn parse_manifest(text: &str) -> (r: Vec<(String, String)>)
    ensures
        entry_views(r@) == manifest_entries(lines(text@)),
{
    let t = chars_of(text);
    let ls = lines_of(&t);
    let ghost lv = views(ls@);
    let mut out: Vec<(String, String)> = Vec::new();
    let mut i: usize = 0;
    while i < ls.len()
        invariant
            i <= ls@.len(),
            lv == views(ls@),
            lv == lines(text@),
            entry_views(out@) == manifest_entries(lv.take(i as int)),
        decreases ls@.len() - i,
    {
        proof {
            assert(lv.take(i + 1).drop_last() =~= lv.take(i as int));
            assert(lv.take(i + 1).last() == ls@[i as int]@);
        }
        let line = trim_chars(&ls[i]);
        if line.len() > 0 && line[0] != '#' {
            match char_position(&line, '\t') {
                Some(k) => {
                    let prefix = slice_of(&line, 0, k);
                    let file = trim_chars(&slice_of(&line, k + 1, line.len()));
                    let ghost before = entry_views(out@);
                    out.push((string_of(&prefix), string_of(&file)));
                    proof {
                        assert(prefix@ =~= line@.take(k as int));
                        assert(line@.subrange(k + 1, line@.len() as int) =~= line@.skip(k + 1));
                        assert(entry_views(out@) =~= before.push((prefix@, file@)));
                    }
                },
                None => {},
            }
        }
        i = i + 1;
    }
    proof {
        assert(lv.take(ls@.len() as int) =~= lv);
    }
    out
}

/// The entry a command matches: the longest prefix of it, the earliest such
/// entry on a tie (the manifest is searched longest prefix first).
pub open spec fn best_entry(es: Seq<(Seq<char>, Seq<char>)>, command: Seq<char>) -> Option<int>
    decreases es.len(),
{
    if es.len() == 0 {
        None
    } else {
        let b = best_entry(es.drop_last(), command);
        let n = es.len() - 1;
        if has_prefix(command, es[n].0) && (b is None || es[n].0.len() > es[b.unwrap()].0.len()) {
            Some(n)
        } else {
            b
        }
    }
}

proof fn lemma_best_entry_bound(es: Seq<(Seq<char>, Seq<char>)>, command: Seq<char>)
    ensures
        best_entry(es, command) matches Some(k) ==> 0 <= k < es.len() && has_prefix(command, es[k].0),
    decreases es.len(),
{
    if es.len() > 0 {
        lemma_best_entry_bound(es.drop_last(), command);
    }
}

fn has_prefix_chars(s: &[char], p: &[char]) -> (b: bool)
    ensures
        b == has_prefix(s@, p@),
{
    let b = crate::text::match_at(s, p, 0);
    proof {
        if b {
            assert(s@.subrange(0, p@.len() as int) =~= p@);
        }
    }
    b
}

/// The manifest entry that answers `command`, by index.
pub fn manifest_lookup(entries: &Vec<(String, String)>, command: &str) -> (r: Option<usize>)
    ensures
        r matches Some(k) ==> best_entry(entry_views(entries@), command@) == Some(k as int),
        r is None ==> best_entry(entry_views(entries@), command@) is None,
{
    let c = chars_of(command);
    let ghost es = entry_views(entries@);
    let mut best: Option<usize> = None;
    let mut best_len: usize = 0;
    let mut i: usize = 0;
    while i < entries.len()
        invariant
            i <= entries@.len(),
            c@ == command@,
            es == entry_views(entries@),
            best matches Some(k) ==> best_entry(es.take(i as int), command@) == Some(k as int)
                && k < i && best_len == es[k as int].0.len(),
            best is None ==> best_entry(es.take(i as int), command@) is None,
        decreases entries@.len() - i,
    {
        proof {
            assert(es.take(i + 1).drop_last() =~= es.take(i as int));
            assert(es.take(i + 1)[i as int] == es[i as int]);
            lemma_best_entry_bound(es.take(i as int), command@);
        }
        let p = chars_of(entries[i].0.as_str());
        assert(p@ == es[i as int].0);
        if has_prefix_chars(&c, &p) {
            let better = match best {
                None => true,
                Some(_) => p.len() > best_len,
            };
            if better {
                best = Some(i);
                best_len = p.len();
            }
        }
        i = i + 1;
    }
    proof {
        assert(es.take(entries@.len() as int) =~= es);
    }
    best
}

/// Where a URL fetch goes.
#[derive(Debug, PartialEq, Eq)]
pub enum FetchRoute {
    /// Not an http(s) URL to a chumby host: the real navigator's.
    NotOurs,
    /// A music proxy under `access_chumby_com`: live traffic.
    MusicPassthrough,
    /// The "using chumby.com" surface under the flag and a stable identity:
    /// live traffic.
    UsingPassthrough,
    /// Answered from `http/<host>/<path>`: the path without its query string
    /// and trailing slashes.
    Fixture { host: String, path: String },
}

/// The part of an http(s) URL after the scheme.
pub open spec fn after_scheme(url: Seq<char>) -> Option<Seq<char>> {
    if has_prefix(url, "http://"@) {
        Some(url.skip(7))
    } else if has_prefix(url, "https://"@) {
        Some(url.skip(8))
    } else {
        None
    }
}

/// `host/path` split at the first `/` (`str::split_once`); no `/` means an
/// empty path.
pub open spec fn host_and_path(s: Seq<char>) -> (Seq<char>, Seq<char>) {
    match char_pos(s, '/') {
        Some(i) => (s.take(i), s.skip(i + 1)),
        None => (s, Seq::empty()),
    }
}

/// The fixture path for a request path: query string and trailing slashes
/// dropped.
pub open spec fn fixture_path(path: Seq<char>) -> Seq<char> {
    trim_end_char(split_char(path, '?')[0], '/')
}

pub open spec fn fetch_route_spec(
    url: Seq<char>,
    access_chumby_com: bool,
    wire_identity: bool,
) -> Option<(int, Seq<char>, Seq<char>)> {
    match after_scheme(url) {
        None => None,
        Some(rest) => {
            let (host, path) = host_and_path(rest);
            if !is_chumby_host_spec(host) {
                None
            } else if access_chumby_com && is_music_host_spec(host) {
                Some((1, host, path))
            } else if access_chumby_com && is_using_host_spec(host) && wire_identity {
                Some((2, host, path))
            } else {
                Some((3, host, fixture_path(path)))
            }
        },
    }
}

/// How the fixture host answers a URL fetch: chumby hosts are
/// fixture-answered, except the music proxies under `access_chumby_com`
/// and the using surface under the flag plus a stable identity, which pass
/// through; every other URL is not ours.
pub fn fetch_route(url: &str, access_chumby_com: bool, wire_identity: bool) -> (r: FetchRoute)
    ensures
        match fetch_route_spec(url@, access_chumby_com, wire_identity) {
            None => r == FetchRoute::NotOurs,
            Some((kind, host, path)) => {
                &&& kind == 1 ==> r == FetchRoute::MusicPassthrough
                &&& kind == 2 ==> r == FetchRoute::UsingPassthrough
                &&& kind == 3 ==> (r matches FetchRoute::Fixture { host: h, path: p } && h@ == host
                    && p@ == path)
            },
        },
{
    let u = chars_of(url);
    let rest = match strip_prefix(&u, "http://") {
        Some(r) => r,
        None => match strip_prefix(&u, "https://") {
            Some(r) => r,
            None => return FetchRoute::NotOurs,
        },
    };
    proof {
        reveal_strlit("http://");
        reveal_strlit("https://");
    }
    let (host, path) = match char_position(&rest, '/') {
        Some(i) => (slice_of(&rest, 0, i), slice_of(&rest, i + 1, rest.len())),
        None => (slice_of(&rest, 0, rest.len()), Vec::new()),
    };
    proof {
        assert(host@ =~= host_and_path(rest@).0);
        assert(path@ =~= host_and_path(rest@).1);
    }
    let host_s = string_of(&host);
    if !is_chumby_host(host_s.as_str()) {
        return FetchRoute::NotOurs;
    }
    if access_chumby_com && is_music_host(host_s.as_str()) {
        return FetchRoute::MusicPassthrough;
    }
    if access_chumby_com && is_using_host(host_s.as_str()) && wire_identity {
        return FetchRoute::UsingPassthrough;
    }
    let pieces = split_chars(&path, '?');
    let trimmed = trim_end_matches(&pieces[0], '/');
    proof {
        assert(views(pieces@)[0] == pieces@[0]@);
    }
    FetchRoute::Fixture { host: host_s, path: string_of(&trimmed) }
}

/// The token fixture bodies use for the absolute fixtures directory.
pub open spec fn fixtures_token() -> Seq<u8> {
    seq![123u8, 70, 73, 88, 84, 85, 82, 69, 83, 125]
}

/// `{FIXTURES}` replaced by `root` everywhere, left to right.
pub open spec fn expand_tokens_spec(body: Seq<u8>, root: Seq<u8>) -> Seq<u8>
    decreases body.len(),
{
    if body.len() == 0 {
        Seq::empty()
    } else if body.len() >= 10 && body.take(10) == fixtures_token() {
        root + expand_tokens_spec(body.skip(10), root)
    } else {
        seq![body[0]] + expand_tokens_spec(body.drop_first(), root)
    }
}

fn token_at(body: &[u8], i: usize) -> (b: bool)
    requires
        i <= body@.len(),
    ensures
        b == (body@.len() - i >= 10 && body@.skip(i as int).take(10) == fixtures_token()),
{
    if body.len() - i < 10 {
        return false;
    }
    let b = body[i] == 123u8 && body[i + 1] == 70u8 && body[i + 2] == 73u8 && body[i + 3] == 88u8
        && body[i + 4] == 84u8 && body[i + 5] == 85u8 && body[i + 6] == 82u8 && body[i + 7] == 69u8
        && body[i + 8] == 83u8 && body[i + 9] == 125u8;
    proof {
        let w = body@.skip(i as int).take(10);
        if b {
            assert(w =~= fixtures_token());
        } else {
            if w == fixtures_token() {
                assert(w[0] == body@[i as int]);
                assert(w[1] == body@[i + 1]);
                assert(w[2] == body@[i + 2]);
                assert(w[3] == body@[i + 3]);
                assert(w[4] == body@[i + 4]);
                assert(w[5] == body@[i + 5]);
                assert(w[6] == body@[i + 6]);
                assert(w[7] == body@[i + 7]);
                assert(w[8] == body@[i + 8]);
                assert(w[9] == body@[i + 9]);
            }
        }
    }
    b
}

/// Expands `{FIXTURES}` in a fixture body to the absolute fixtures
/// directory, so fixture files need not hardcode install paths.
pub fn expand_tokens(body: &[u8], root: &[u8]) -> (r: Vec<u8>)
    ensures
        r@ == expand_tokens_spec(body@, root@),
{
    let mut out: Vec<u8> = Vec::new();
    let mut i: usize = 0;
    assert(body@.skip(0) =~= body@);
    assert(out@ + expand_tokens_spec(body@.skip(0), root@) =~= expand_tokens_spec(body@, root@));
    while i < body.len()
        invariant
            i <= body@.len(),
            out@ + expand_tokens_spec(body@.skip(i as int), root@) == expand_tokens_spec(body@, root@),
        decreases body@.len() - i,
    {
        let ghost rest = body@.skip(i as int);
        let ghost before = out@;
        if token_at(body, i) {
            let mut k: usize = 0;
            while k < root.len()
                invariant
                    k <= root@.len(),
                    out@ == before + root@.take(k as int),
                decreases root@.len() - k,
            {
                out.push(root[k]);
                k = k + 1;
                proof {
                    assert(out@ =~= before + root@.take(k as int));
                }
            }
            proof {
                assert(root@.take(root@.len() as int) =~= root@);
                assert(rest.skip(10) =~= body@.skip(i + 10));
                assert(out@ + expand_tokens_spec(body@.skip(i + 10), root@) =~= before
                    + expand_tokens_spec(rest, root@));
            }
            i = i + 10;
        } else {
            out.push(body[i]);
            proof {
                assert(rest.drop_first() =~= body@.skip(i + 1));
                assert(rest[0] == body@[i as int]);
                assert(out@ + expand_tokens_spec(body@.skip(i + 1), root@) =~= before
                    + expand_tokens_spec(rest, root@));
            }
            i = i + 1;
        }
    }
    proof {
        assert(body@.skip(body@.len() as int) =~= Seq::<u8>::empty());
        assert(out@ =~= out@ + expand_tokens_spec(body@.skip(i as int), root@));
    }
    out
}


/// `_setTimeZone` then `_getTimeZone` round-trips through `/psp/timezone`:
/// what is read back is the name that was set, trimmed (the file is valid
/// UTF-8, so it reads back exactly).
pub proof fn law_timezone_round_trip(tz: Seq<char>)
    ensures
        vstd::utf8::valid_utf8(vstd::utf8::encode_utf8(trim(tz))),
        trim(vstd::utf8::decode_utf8(vstd::utf8::encode_utf8(trim(tz)))) == trim(tz),
{
    vstd::utf8::encode_utf8_valid_utf8(trim(tz));
    vstd::utf8::encode_utf8_decode_utf8(trim(tz));
    crate::text::lemma_trim_idempotent(tz);
}


/// `{FIXTURES}` starts at position `k` of `body`.
pub open spec fn token_at_spec(body: Seq<u8>, k: int) -> bool {
    0 <= k && k + 10 <= body.len() && body.subrange(k, k + 10) == fixtures_token()
}

/// A fixture body without a `{FIXTURES}` token is served unchanged.
pub proof fn law_expand_without_token(body: Seq<u8>, root: Seq<u8>)
    requires
        forall|k: int| !#[trigger] token_at_spec(body, k),
    ensures
        expand_tokens_spec(body, root) == body,
    decreases body.len(),
{
    if body.len() > 0 {
        if body.len() >= 10 {
            assert(!token_at_spec(body, 0));
            assert(body.take(10) =~= body.subrange(0, 10));
        }
        let rest = body.drop_first();
        assert forall|k: int| !#[trigger] token_at_spec(rest, k) by {
            assert(!token_at_spec(body, k + 1));
            if 0 <= k && k + 10 <= rest.len() {
                assert(rest.subrange(k, k + 10) =~= body.subrange(k + 1, k + 11));
            }
        }
        law_expand_without_token(rest, root);
        assert(seq![body[0]] + rest =~= body);
    }
}


/// A setter and its getter share one store key, so `_setX(v)` then
/// `_getX()` answers `v`: the key of `_setX` and of `_getX` is `X`.
pub proof fn law_setter_and_getter_share_a_key(x: Seq<char>)
    ensures
        ("_set"@ + x).skip(4) == x,
        ("_get"@ + x).skip(4) == x,
        has_prefix("_set"@ + x, "_set"@),
        has_prefix("_get"@ + x, "_get"@),
{
    reveal_strlit("_set");
    reveal_strlit("_get");
    assert(("_set"@ + x).skip(4) =~= x);
    assert(("_get"@ + x).skip(4) =~= x);
    assert(("_set"@ + x).subrange(0, 4) =~= "_set"@);
    assert(("_get"@ + x).subrange(0, 4) =~= "_get"@);
}

} // verus!

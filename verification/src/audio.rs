//! The decisions of the mpv-backed audio player for alarm tones and URL
//! streams: its playback state machine, the mpv command line, the IPC
//! commands, and where a chumby path lies in the virtual rootfs. Spawning
//! mpv and talking to its socket is the caller's part.

use vstd::prelude::*;
use crate::path::{components, path_components};
use crate::text::{chars_of, eq_str, has_prefix, push_all, push_str, string_of, views};
use crate::xml::{digits, push_digits};

verus! {

/// Playback state, as `_getAudioPlayerState` reports it.
#[derive(Debug, Clone, Copy, PartialEq, Eq, Structural)]
pub enum AudioState {
    Stopped,
    Playing,
    Paused,
}

/// The player's state and the loop count `_playAudioLoopCount` set for the
/// next `_playAudio`.
pub struct AudioControl {
    pub state: AudioState,
    pub pending_loops: u32,
}

/// Where mpv's IPC socket lives.
pub open spec fn socket_path() -> Seq<char> {
    "/tmp/chumby-mpv.sock"@
}

/// The state after a pause: only a playing player pauses.
pub open spec fn paused_spec(s: AudioState) -> AudioState {
    if s == AudioState::Playing {
        AudioState::Paused
    } else {
        s
    }
}

/// The state after a resume: only a paused player resumes.
pub open spec fn resumed_spec(s: AudioState) -> AudioState {
    if s == AudioState::Paused {
        AudioState::Playing
    } else {
        s
    }
}

/// A pause and a resume bring a playing player back to playing; a stopped
/// player stays stopped through both; pausing twice is pausing once.
pub proof fn law_pause_resume(s: AudioState)
    ensures
        resumed_spec(paused_spec(AudioState::Playing)) == AudioState::Playing,
        paused_spec(AudioState::Stopped) == AudioState::Stopped,
        resumed_spec(AudioState::Stopped) == AudioState::Stopped,
        paused_spec(paused_spec(s)) == paused_spec(s),
        resumed_spec(resumed_spec(s)) == resumed_spec(s),
{
}

impl AudioControl {
    /// Stopped, one loop pending.
    pub fn new() -> (c: AudioControl)
        ensures
            c.state == AudioState::Stopped,
            c.pending_loops == 1,
    {
        AudioControl { state: AudioState::Stopped, pending_loops: 1 }
    }

    /// A play begins: the pending loop count is consumed (reset to 1) and
    /// returned for the spawn.
    pub fn begin_play(&mut self) -> (loops: u32)
        ensures
            loops == old(self).pending_loops,
            final(self).pending_loops == 1,
            final(self).state == old(self).state,
    {
        let loops = self.pending_loops;
        self.pending_loops = 1;
        loops
    }

    /// The play's outcome: playing when mpv started (or no mpv is
    /// installed and the player is a silent stub), stopped when the spawn
    /// failed.
    pub fn played(&mut self, started: bool)
        ensures
            final(self).state == (if started {
                AudioState::Playing
            } else {
                AudioState::Stopped
            }),
            final(self).pending_loops == old(self).pending_loops,
    {
        self.state = if started {
            AudioState::Playing
        } else {
            AudioState::Stopped
        };
    }

    /// Pause: only a playing player pauses; the IPC command to send.
    pub fn pause(&mut self) -> (cmd: Option<&'static str>)
        ensures
            final(self).state == paused_spec(old(self).state),
            old(self).state == AudioState::Playing ==> (cmd matches Some(c) && c@ == "{\"command\":[\"set_property\",\"pause\",true]}"@),
            old(self).state != AudioState::Playing ==> cmd is None,
            final(self).pending_loops == old(self).pending_loops,
    {
        if self.state == AudioState::Playing {
            self.state = AudioState::Paused;
            Some("{\"command\":[\"set_property\",\"pause\",true]}")
        } else {
            None
        }
    }

    /// Resume: only a paused player resumes; the IPC command to send.
    pub fn resume(&mut self) -> (cmd: Option<&'static str>)
        ensures
            final(self).state == resumed_spec(old(self).state),
            old(self).state == AudioState::Paused ==> (cmd matches Some(c) && c@ == "{\"command\":[\"set_property\",\"pause\",false]}"@),
            old(self).state != AudioState::Paused ==> cmd is None,
            final(self).pending_loops == old(self).pending_loops,
    {
        if self.state == AudioState::Paused {
            self.state = AudioState::Playing;
            Some("{\"command\":[\"set_property\",\"pause\",false]}")
        } else {
            None
        }
    }

    /// Stop, or mpv exited on its own: stopped.
    pub fn stopped(&mut self)
        ensures
            final(self).state == AudioState::Stopped,
            final(self).pending_loops == old(self).pending_loops,
    {
        self.state = AudioState::Stopped;
    }
}

/// The state `_getAudioPlayerState` reports, in the panel's constants
/// (IDLE -1, PAUSED 0, WAITING 1, PLAYING 2): a stopped player is idle.
/// The panel's stream watchdog stops any player that does not read 2, so a
/// playing one must.
pub fn state_code(s: AudioState) -> (code: i32)
    ensures
        s == AudioState::Stopped ==> code == -1,
        s == AudioState::Playing ==> code == 2,
        s == AudioState::Paused ==> code == 0,
{
    match s {
        AudioState::Stopped => -1,
        AudioState::Playing => 2,
        AudioState::Paused => 0,
    }
}

/// The IPC command that sets the volume (0–100).
pub fn volume_command(vol: u32) -> (r: String)
    ensures
        r@ == "{\"command\":[\"set_property\",\"volume\","@ + digits(vol as nat) + "]}"@,
{
    let mut out: Vec<char> = Vec::new();
    push_str(&mut out, "{\"command\":[\"set_property\",\"volume\",");
    push_digits(&mut out, vol as u128);
    push_str(&mut out, "]}");
    string_of(&out)
}

/// mpv's command line, after the binary: no video, no terminal, quiet, the
/// volume, the IPC socket, `--loop` when more than one loop is asked, the
/// audio device when one is set, then what to play.
pub open spec fn mpv_command(vol: nat, loops: nat, device: Option<Seq<char>>, path: Seq<char>) -> Seq<Seq<char>> {
    seq![
        "--no-video"@,
        "--no-terminal"@,
        "--really-quiet"@,
        "--volume="@ + digits(vol),
        "--input-ipc-server="@ + socket_path(),
    ] + (if loops > 1 {
        seq!["--loop="@ + digits(loops)]
    } else {
        Seq::empty()
    }) + (match device {
        Some(d) => if d.len() > 0 {
            seq!["--audio-device="@ + d]
        } else {
            Seq::empty()
        },
        None => Seq::empty(),
    }) + seq![path]
}

pub open spec fn string_views(v: Seq<String>) -> Seq<Seq<char>> {
    v.map_values(|s: String| s@)
}

fn flag(name: &str, value: &[char]) -> (r: String)
    ensures
        r@ == name@ + value@,
{
    let mut out: Vec<char> = Vec::new();
    push_str(&mut out, name);
    push_all(&mut out, value);
    string_of(&out)
}

fn number(n: u32) -> (r: Vec<char>)
    ensures
        r@ == digits(n as nat),
{
    let mut out: Vec<char> = Vec::new();
    push_digits(&mut out, n as u128);
    out
}

/// The mpv arguments for a play at volume `vol` (0–100), `loops` loops,
/// the configured audio device, of `path`.
pub fn mpv_args(vol: u32, loops: u32, device: Option<&str>, path: &str) -> (r: Vec<String>)
    ensures
        string_views(r@) == mpv_command(
            vol as nat,
            loops as nat,
            match device {
                Some(d) => Some(d@),
                None => None,
            },
            path@,
        ),
{
    let mut args: Vec<String> = Vec::new();
    args.push("--no-video".to_string());
    args.push("--no-terminal".to_string());
    args.push("--really-quiet".to_string());
    args.push(flag("--volume=", &number(vol)));
    args.push(flag("--input-ipc-server=", &chars_of("/tmp/chumby-mpv.sock")));
    let ghost head = string_views(args@);
    if loops > 1 {
        args.push(flag("--loop=", &number(loops)));
    }
    let ghost mid = string_views(args@);
    match device {
        Some(d) => {
            let dc = chars_of(d);
            if dc.len() > 0 {
                args.push(flag("--audio-device=", &dc));
            }
        },
        None => {},
    }
    let ghost tail = string_views(args@);
    args.push(string_of(&chars_of(path)));
    assert(string_views(args@) =~= mpv_command(
        vol as nat,
        loops as nat,
        match device {
            Some(d) => Some(d@),
            None => None,
        },
        path@,
    ));
    args
}

/// `base` with a component pushed as `PathBuf::push` does: a `/` between
/// unless `base` is empty or already ends with one.
pub open spec fn path_push(base: Seq<char>, c: Seq<char>) -> Seq<char> {
    if base.len() > 0 && base.last() != '/' {
        base + seq!['/'] + c
    } else {
        base + c
    }
}

pub open spec fn path_push_all(base: Seq<char>, cs: Seq<Seq<char>>) -> Seq<char>
    decreases cs.len(),
{
    if cs.len() == 0 {
        base
    } else {
        path_push(path_push_all(base, cs.drop_last()), cs.last())
    }
}

/// Where mpv finds a chumby URL: an absolute path lies under the virtual
/// rootfs (empty and `.` components dropped); a path with a `..` component
/// is refused and left as it is, as is anything not absolute (HTTP URLs).
pub open spec fn rootfs_url(rootfs: Seq<char>, url: Seq<char>) -> Seq<char> {
    if !has_prefix(url, "/"@) || path_components(url).contains(".."@) {
        url
    } else {
        path_push_all(rootfs, path_components(url))
    }
}

/// `rootfs_url` of the given rootfs directory and URL.
pub fn resolve_url(rootfs: &str, url: &str) -> (r: String)
    ensures
        r@ == rootfs_url(rootfs@, url@),
{
    proof {
        reveal_strlit("/");
        reveal_strlit("..");
    }
    let u = chars_of(url);
    if u.len() == 0 || u[0] != '/' {
        proof {
            if has_prefix(url@, "/"@) {
                assert(url@.subrange(0, 1)[0] == url@[0]);
            }
        }
        return string_of(&u);
    }
    assert(url@.subrange(0, 1) =~= "/"@);
    let cs = components(&u);
    let mut k: usize = 0;
    while k < cs.len()
        invariant
            k <= cs@.len(),
            u@ == url@,
            views(cs@) == path_components(url@),
            forall|m: int| 0 <= m < k ==> views(cs@)[m] != ".."@,
        decreases cs@.len() - k,
    {
        assert(views(cs@)[k as int] == cs@[k as int]@);
        if eq_str(&cs[k], "..") {
            assert(path_components(url@).contains(".."@));
            return string_of(&u);
        }
        k = k + 1;
    }
    assert(!path_components(url@).contains(".."@));
    let mut out = chars_of(rootfs);
    let mut i: usize = 0;
    assert(views(cs@).take(0) =~= Seq::<Seq<char>>::empty());
    while i < cs.len()
        invariant
            i <= cs@.len(),
            out@ == path_push_all(rootfs@, views(cs@).take(i as int)),
        decreases cs@.len() - i,
    {
        proof {
            assert(views(cs@).take(i + 1).drop_last() =~= views(cs@).take(i as int));
            assert(views(cs@).take(i + 1).last() == cs@[i as int]@);
        }
        let ghost before = out@;
        if out.len() > 0 && out[out.len() - 1] != '/' {
            out.push('/');
        }
        push_all(&mut out, &cs[i]);
        assert(out@ =~= path_push(before, cs@[i as int]@));
        i = i + 1;
    }
    assert(views(cs@).take(cs@.len() as int) =~= views(cs@));
    string_of(&out)
}

} // verus!

use chumby::alarm_guard::{stop_unless_silent, StopDecision};
use chumby::audio::{mpv_args, resolve_url, state_code, volume_command, AudioControl, AudioState};
use chumby::brightness::{choose_device, Backlight, DeviceChoice};
use chumby::host::{bent, dir_entry_status, set_bent, tap_bend, BendSensor, DirEntry, DirEntryResult};
use chumby::input::{control_command, Control};
use chumby::intro::swallow_fscommand_quit;

#[test]
fn a_tap_reads_pressed_exactly_once() {
    let mut s = BendSensor::new();
    assert!(!bent(&mut s));
    tap_bend(&mut s);
    assert!(bent(&mut s));
    assert!(!bent(&mut s));
    set_bent(&mut s, true);
    assert!(bent(&mut s));
    assert!(bent(&mut s));
    tap_bend(&mut s);
    set_bent(&mut s, false);
    assert!(bent(&mut s));
    assert!(!bent(&mut s));
}

#[test]
fn directory_entry_status_codes() {
    let e = DirEntryResult::Entry(DirEntry {
        name: "a.mp3".to_string(),
        is_dir: false,
        is_dir_link: false,
        is_file: true,
    });
    assert_eq!(dir_entry_status(&e), 1);
    assert_eq!(dir_entry_status(&DirEntryResult::End), 0);
    assert_eq!(dir_entry_status(&DirEntryResult::InvalidPath), -1);
}

#[test]
fn control_lines() {
    assert_eq!(control_command(""), Control::Nothing);
    assert_eq!(control_command("bend"), Control::Tap);
    assert_eq!(control_command("tap"), Control::Tap);
    assert_eq!(control_command("bend down"), Control::BendDown);
    assert_eq!(control_command("bend up"), Control::BendUp);
    assert_eq!(control_command("click 10 20"), Control::Other);
}

#[test]
fn backlight_detection() {
    assert_eq!(choose_device(true, 3), DeviceChoice::Preferred);
    assert_eq!(choose_device(false, 1), DeviceChoice::Lone(0));
    assert_eq!(choose_device(false, 2), DeviceChoice::Unwired);
    assert_eq!(choose_device(false, 0), DeviceChoice::Unwired);
    let b = Backlight::detect("/sys/class/backlight/x/brightness".to_string(), Some("255\n")).unwrap();
    assert_eq!(b.max, 255);
    assert_eq!(b.brightness_file, "/sys/class/backlight/x/brightness");
    assert!(Backlight::detect("f".to_string(), Some("junk")).is_none());
    assert!(Backlight::detect("f".to_string(), Some("0")).is_none());
    assert!(Backlight::detect("f".to_string(), None).is_none());
}

#[test]
fn silent_alarms_cancel_nobody() {
    assert_eq!(stop_unless_silent(Some("none")), StopDecision::Skip);
    assert_eq!(stop_unless_silent(Some("stream")), StopDecision::Delegate);
    assert_eq!(stop_unless_silent(Some("")), StopDecision::Delegate);
    assert_eq!(stop_unless_silent(None), StopDecision::Delegate);
}

#[test]
fn quit_is_swallowed_only_during_the_intro() {
    assert!(swallow_fscommand_quit("quit", true));
    assert!(!swallow_fscommand_quit("quit", false));
    assert!(!swallow_fscommand_quit("fullscreen", true));
}

#[test]
fn audio_state_machine() {
    let mut a = AudioControl::new();
    assert_eq!(a.state, AudioState::Stopped);
    assert_eq!(a.pause(), None);
    a.pending_loops = 3;
    assert_eq!(a.begin_play(), 3);
    assert_eq!(a.pending_loops, 1);
    a.played(true);
    assert_eq!(state_code(a.state), 2);
    assert_eq!(a.pause(), Some("{\"command\":[\"set_property\",\"pause\",true]}"));
    assert_eq!(a.state, AudioState::Paused);
    assert_eq!(a.pause(), None);
    assert_eq!(a.resume(), Some("{\"command\":[\"set_property\",\"pause\",false]}"));
    assert_eq!(a.state, AudioState::Playing);
    a.stopped();
    assert_eq!(state_code(a.state), -1);
    assert_eq!(state_code(AudioState::Paused), 0);
    a.played(false);
    assert_eq!(a.state, AudioState::Stopped);
}

#[test]
fn mpv_command_line() {
    assert_eq!(volume_command(42), "{\"command\":[\"set_property\",\"volume\",42]}");
    assert_eq!(
        mpv_args(80, 1, None, "/r/a.mp3"),
        vec![
            "--no-video",
            "--no-terminal",
            "--really-quiet",
            "--volume=80",
            "--input-ipc-server=/tmp/chumby-mpv.sock",
            "/r/a.mp3",
        ]
    );
    assert_eq!(
        mpv_args(0, 3, Some("alsa/plughw:CARD=X"), "u"),
        vec![
            "--no-video",
            "--no-terminal",
            "--really-quiet",
            "--volume=0",
            "--input-ipc-server=/tmp/chumby-mpv.sock",
            "--loop=3",
            "--audio-device=alsa/plughw:CARD=X",
            "u",
        ]
    );
    assert_eq!(mpv_args(5, 0, Some(""), "u").len(), 6);
}

#[test]
fn urls_under_the_rootfs() {
    assert_eq!(resolve_url("/srv/rootfs", "//usr/chumby/./alarmtones/Beep.mp3"), "/srv/rootfs/usr/chumby/alarmtones/Beep.mp3");
    assert_eq!(resolve_url("/srv/rootfs/", "/a"), "/srv/rootfs/a");
    assert_eq!(resolve_url("/srv/rootfs", "http://x/stream"), "http://x/stream");
    assert_eq!(resolve_url("/srv/rootfs", "/mnt/../etc/passwd"), "/mnt/../etc/passwd");
    assert_eq!(resolve_url("/srv/rootfs", "/"), "/srv/rootfs");
}

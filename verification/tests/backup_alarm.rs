use chumby::backup_alarm::{decide, read_epoch, read_knob, tone_duration, watch_step, Action, STALE_WINDOW};

#[test]
fn waits_before_fire_time() {
    assert!(matches!(decide(1000, 1001), Action::Wait));
}

#[test]
fn fires_at_and_after_fire_time() {
    assert!(matches!(decide(1000, 1000), Action::Fire { late_by: 0 }));
    assert!(matches!(decide(1000 + STALE_WINDOW, 1000), Action::Fire { .. }));
}

#[test]
fn clears_stale_without_firing() {
    assert!(matches!(
        decide(1000 + STALE_WINDOW + 1, 1000),
        Action::ClearStale { .. }
    ));
}

#[test]
fn fire_reports_how_late() {
    assert_eq!(decide(1030, 1000), Action::Fire { late_by: 30 });
    assert_eq!(decide(5000, 1000), Action::ClearStale { late_by: 4000 });
}

#[test]
fn ifalarm_content_is_read_trimmed() {
    assert_eq!(read_epoch(" 4102444800\n"), Some(4102444800));
    assert_eq!(read_epoch("soon"), None);
    assert_eq!(read_epoch(""), None);
}

#[test]
fn watcher_polls() {
    assert_eq!(watch_step(1000, None), None);
    assert_eq!(watch_step(1000, Some("garbage")), None);
    assert_eq!(watch_step(1000, Some("2000\n")), Some(Action::Wait));
    assert_eq!(watch_step(1000, Some("1000")), Some(Action::Fire { late_by: 0 }));
    assert_eq!(
        watch_step(i64::MAX, Some("-9223372036854775808")),
        Some(Action::ClearStale { late_by: i64::MAX })
    );
    assert_eq!(watch_step(i64::MIN, Some("9223372036854775807")), Some(Action::Wait));
}

#[test]
fn knobs_fall_back_to_defaults() {
    assert_eq!(read_knob(None, 30), 30);
    assert_eq!(read_knob(Some("junk"), 30), 30);
    assert_eq!(read_knob(Some(" 45\n"), 30), 45);
    assert_eq!(tone_duration(0), 1);
    assert_eq!(tone_duration(-5), 1);
    assert_eq!(tone_duration(45), 45);
}

#[test]
fn tone_command_line() {
    assert_eq!(
        chumby::backup_alarm::tone_args(50, Some("alsa/default"), "/r/usr/chumby/alarmtones/Klaxon.mp3"),
        vec![
            "--no-video",
            "--no-terminal",
            "--really-quiet",
            "--loop=inf",
            "--volume=50",
            "--audio-device=alsa/default",
            "/r/usr/chumby/alarmtones/Klaxon.mp3",
        ]
    );
    assert_eq!(chumby::backup_alarm::tone_args(0, None, "av://lavfi:sine=frequency=880").len(), 6);
}

#[test]
fn ancient_fire_times_are_cleared() {
    assert_eq!(decide(100, i64::MIN), Action::ClearStale { late_by: i64::MAX });
    assert_eq!(decide(i64::MAX, 0), Action::ClearStale { late_by: i64::MAX });
    assert_eq!(decide(-1, i64::MAX), Action::Wait);
}

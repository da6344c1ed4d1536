use chumby::fixture::{
    environment_value, native_action, slave_var_default, state_key, NativeAction,
    default_for_getter, exec_route, expand_tokens, fetch_route, hidden, manifest_lookup,
    parse_manifest, resolve, timezone_answer, timezone_file, ExecRoute, FetchRoute,
};

#[test]
fn panel_paths_resolve_inside_the_rootfs() {
    assert_eq!(
        resolve("//mnt/usb/./Album/"),
        Some(vec!["mnt".to_string(), "usb".to_string(), "Album".to_string()])
    );
    assert_eq!(resolve("/mnt/../etc/passwd"), None);
    assert_eq!(resolve("/"), Some(vec![]));
}

#[test]
fn local_profile_probes_hide_only_when_asked() {
    assert!(hidden(true, "//psp//profile.xml"));
    assert!(!hidden(false, "/psp/profile.xml"));
    assert!(!hidden(true, "/psp/volume"));
}

#[test]
fn exec_routes() {
    assert_eq!(exec_route("rm /psp/ifalarm; reload_backup_alarm", false), ExecRoute::DismissBackupAlarm);
    assert_eq!(exec_route("reload_backup_alarm", false), ExecRoute::ReloadBackupAlarm);
    assert_eq!(exec_route("chumby_version -h", true), ExecRoute::HardwareVersion);
    assert_eq!(exec_route("chumby_version -h", false), ExecRoute::Manifest);
    assert_eq!(exec_route("/usr/chumby/scripts/enable_intro", false), ExecRoute::EnableIntro);
    assert_eq!(exec_route("/usr/chumby/scripts/disable_intro", false), ExecRoute::DisableIntro);
}

#[test]
fn manifest_longest_prefix_wins() {
    let m = parse_manifest("# comment\nls\tls.txt\nls /mnt\t mnt.txt\n\nbad line\n");
    assert_eq!(
        m,
        vec![
            ("ls".to_string(), "ls.txt".to_string()),
            ("ls /mnt".to_string(), "mnt.txt".to_string()),
        ]
    );
    assert_eq!(manifest_lookup(&m, "ls /mnt/usb"), Some(1));
    assert_eq!(manifest_lookup(&m, "ls /tmp"), Some(0));
    assert_eq!(manifest_lookup(&m, "cat x"), None);
}

#[test]
fn fetch_routes() {
    assert_eq!(fetch_route("http://example.com/x", false, false), FetchRoute::NotOurs);
    assert_eq!(
        fetch_route("http://shoutcast.chumby.com/shoutcast/list", true, false),
        FetchRoute::MusicPassthrough
    );
    assert_eq!(
        fetch_route("http://xml.chumby.com/xml/chumbies", true, true),
        FetchRoute::UsingPassthrough
    );
    assert_eq!(
        fetch_route("http://xml.chumby.com/xml/chumbies/?id=1", false, false),
        FetchRoute::Fixture { host: "xml.chumby.com".to_string(), path: "xml/chumbies".to_string() }
    );
}

#[test]
fn fixture_tokens_and_timezones() {
    assert_eq!(expand_tokens(b"<a href=\"{FIXTURES}/x\"/>", b"/srv/fx"), b"<a href=\"/srv/fx/x\"/>".to_vec());
    assert_eq!(timezone_answer(Some(b"America/New_York\n")), "America/New_York");
    assert_eq!(timezone_answer(None), "UTC");
    assert_eq!(timezone_file("America/New_York\n"), b"America/New_York".to_vec());
    assert_eq!(default_for_getter("_getLCDMute"), Some(0));
}

#[test]
fn natives_by_wrapper_name() {
    let cases = [
        ("_getPlatform", NativeAction::Platform),
        ("_bent", NativeAction::Bent),
        ("_stopAudioPlayer", NativeAction::StopAudio),
        ("_terminateAudioPlayer", NativeAction::StopAudio),
        ("_setSystemVolume", NativeAction::SetSystemVolume),
        ("_setLCDBrightness", NativeAction::Store),
        ("_getLCDBrightness", NativeAction::Load),
        ("_reboot", NativeAction::Other),
    ];
    for (name, action) in cases {
        assert_eq!(native_action(name), action, "{name}");
    }
    assert_eq!(state_key("_setLCDBrightness"), "LCDBrightness");
    assert_eq!(environment_value("LANGUAGE"), "en_US");
    assert_eq!(environment_value("HOME"), "");
    assert_eq!(slave_var_default("_chumby_widget_done"), Some("true"));
    assert_eq!(slave_var_default("x"), None);
    assert_eq!(default_for_getter("_getSystemVolume"), Some(60));
    assert_eq!(default_for_getter("_getNothing"), None);
}

#[test]
fn timezone_set_then_get_round_trips() {
    for tz in ["America/New_York\n", " Europe/Oslo ", "UTC"] {
        assert_eq!(timezone_answer(Some(&timezone_file(tz))), tz.trim());
    }
}

#[test]
fn bodies_without_the_token_are_unchanged() {
    let body = b"<profile>{FIXTURE}</profile>".to_vec();
    assert_eq!(expand_tokens(&body, b"/srv/fx"), body);
    assert_eq!(expand_tokens(b"{FIXTURES}{FIXTURES}", b"/r"), b"/r/r".to_vec());
}

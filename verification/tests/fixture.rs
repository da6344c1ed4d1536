use chumby::fixture::{is_chumby_host, is_music_host, is_using_host};

#[test]
fn using_host_covers_identity_channel_and_widgets_only() {
    // The whole using surface lives on these two hosts (port-tolerant).
    assert!(is_using_host("xml.chumby.com"));
    assert!(is_using_host("widgets.chumby.com"));
    assert!(is_using_host("xml.chumby.com:80"));
    // Firmware updates and everything else stay fixture-answered.
    assert!(!is_using_host("update.chumby.com"));
    assert!(!is_using_host("shoutcast.chumby.com"));
    assert!(!is_using_host("chumby.com"));
}

#[test]
fn chumby_and_music_hosts() {
    assert!(is_chumby_host("chumby.com"));
    assert!(is_chumby_host("update.chumby.com"));
    assert!(!is_chumby_host("example.com"));
    assert!(is_music_host("shoutcast.chumby.com"));
    assert!(!is_music_host("xml.chumby.com"));
}

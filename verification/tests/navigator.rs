use chumby::navigator::{
    intercept, is_using_url_host, local_path, parse_widget_curl, percent_decode, response_url,
    widget_download_allowed, Interception,
};

#[test]
fn local_schemes_map_to_rootfs_paths() {
    assert_eq!(local_path("file:////psp/theme.swf").as_deref(), Some("//psp/theme.swf"));
    assert_eq!(local_path("sys:///tmp/photo.jpg").as_deref(), Some("/tmp/photo.jpg"));
    assert_eq!(local_path("sys:////tmp/widgetcache/").as_deref(), Some("//tmp/widgetcache/"));
    assert_eq!(local_path("/tmp/widgetcache/abc?x=1").as_deref(), Some("/tmp/widgetcache/abc?x=1"));
    assert_eq!(local_path("http://xml.chumby.com/xml/chumbies"), None);
    assert_eq!(local_path("exec://list_mounts"), None);
}

#[test]
fn decodes_as2_escape_output() {
    assert_eq!(percent_decode("cat%20%2Fproc%2F1%2Fstat%20%7C%20cut%20%2Dd%20%22%20%22%20%2Df%2023"),
               "cat /proc/1/stat | cut -d \" \" -f 23");
    assert_eq!(percent_decode("plain -n 10 curl 'http://x/?id=AB%40CD'"), "plain -n 10 curl 'http://x/?id=AB@CD'");
    assert_eq!(percent_decode("100%"), "100%");
}

#[test]
fn parses_widget_cache_curl_command() {
    let url = "exec://nice -n 10 curl 'http://xml.chumby.com/xml/movie_files?id=AB%40CD' \
               > /tmp/widgetcache/32d53436-c9b5-ba1a-639b-ead60a734f4a; echo $?";
    let (fetch, dest) = parse_widget_curl(url).expect("should parse");
    assert_eq!(fetch, "http://xml.chumby.com/xml/movie_files?id=AB%40CD");
    assert_eq!(dest, "/tmp/widgetcache/32d53436-c9b5-ba1a-639b-ead60a734f4a");
    assert!(is_using_url_host(&fetch));
}

#[test]
fn ignores_non_widget_execs() {
    // Not a curl-to-widgetcache command.
    assert!(parse_widget_curl("exec://mkdir /tmp/widgetcache; sync; echo $?").is_none());
    assert!(parse_widget_curl("exec://curl 'http://x/y' > /tmp/other; echo $?").is_none());
    assert!(parse_widget_curl("http://xml.chumby.com/xml/chumbies").is_none());
    assert!(!is_using_url_host("http://update.chumby.com/update"));
}

#[test]
fn percent_decode_keeps_bad_escapes() {
    assert_eq!(percent_decode("%zz%4"), "%zz%4");
    assert_eq!(percent_decode("a%2fb"), "a/b");
}

#[test]
fn requests_are_intercepted_by_kind() {

    assert_eq!(
        intercept("exec://ls%20%2Fmnt"),
        Interception::Exec { command: "ls /mnt".to_string() }
    );
    assert_eq!(
        intercept("file:////psp/theme.swf?x=1"),
        Interception::Local { path: "//psp/theme.swf".to_string() }
    );
    assert_eq!(intercept("http://xml.chumby.com/xml/chumbies"), Interception::Fetch);
    assert_eq!(response_url("/tmp/widgetcache/abc?x=1"), "file:///tmp/widgetcache/abc?x=1");
    assert_eq!(response_url("http://x/y"), "http://x/y");
    assert!(widget_download_allowed(true, true, "http://widgets.chumby.com/w.swf"));
    assert!(!widget_download_allowed(true, false, "http://widgets.chumby.com/w.swf"));
    assert!(!widget_download_allowed(true, true, "http://update.chumby.com/x"));
}

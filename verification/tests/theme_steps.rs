use chumby::dash_theme::{
    file_plan, staging_target, status_reply, theme_catalog, theme_file_path, theme_names,
    theme_source_path, thumb_paths, FileOp,
};
use chumby::host::DirEntry;
use chumby::real_ident::md5_hex;

fn file(name: &str, is_file: bool) -> DirEntry {
    DirEntry { name: name.to_string(), is_dir: !is_file, is_dir_link: false, is_file }
}

#[test]
fn theme_names_keep_sorted_swf_files() {
    let entries = vec![
        file("zebra.swf", true),
        file("notes.txt", true),
        file("dir.swf", false),
        file("apple.swf", true),
        file("Mango.swf", true),
    ];
    assert_eq!(theme_names(&entries), vec!["Mango.swf", "apple.swf", "zebra.swf"]);
    assert!(theme_names(&Vec::new()).is_empty());
}

#[test]
fn theme_paths_are_in_the_themes_directory() {
    assert_eq!(theme_file_path("blue.swf"), "/psp/themes/blue.swf");
    let (jpg, png) = thumb_paths("space_theme.swf");
    assert_eq!(jpg, "/psp/themes/space_theme.jpg");
    assert_eq!(png, "/psp/themes/space_theme.png");
}

#[test]
fn theme_catalog_rows_from_rootfs_answers() {
    let names = vec!["a_b.swf".to_string(), "c.swf".to_string()];
    let bodies = vec![Some(b"FWS-a".to_vec()), None];
    let xml = theme_catalog(&names, &bodies, &vec![false, true], &vec![true, true]);
    let expected = format!(
        "<themes><theme id=\"1\" version=\"1\"><name>a b</name><description>local theme</description>\
         <author>local</author><thumbnailURL>file:////psp/themes/a_b.png</thumbnailURL>\
         <url>file:////psp/themes/a_b.swf</url><md5>{}</md5><layouts/></theme>\
         <theme id=\"2\" version=\"1\"><name>c</name><description>local theme</description>\
         <author>local</author><thumbnailURL>file:////psp/themes/c.jpg</thumbnailURL>\
         <url>file:////psp/themes/c.swf</url><md5></md5><layouts/></theme></themes>\n",
        md5_hex(b"FWS-a")
    );
    assert_eq!(xml, expected);
    assert_eq!(md5_hex(b"FWS-a").len(), 32);
}

#[test]
fn download_reads_the_file_url_path() {
    assert_eq!(theme_source_path("file:////psp/themes/blue.swf 00").as_deref(), Some("//psp/themes/blue.swf"));
    assert_eq!(theme_source_path("file:///a\\&b.swf 00").as_deref(), Some("/a&b.swf"));
    assert_eq!(theme_source_path("http://files.chumby.com/x.swf 00"), None);
    assert_eq!(theme_source_path("file:///x.swf"), None);
}

#[test]
fn download_stages_only_a_matching_body() {
    let md5 = md5_hex(b"FWS-blue").to_uppercase();
    let args = format!("file:///x.swf {md5}");
    assert_eq!(staging_target(&args, b"FWS-blue").as_deref(), Some("/tmp/theme.swf"));
    assert_eq!(staging_target(&args, b"FWS-other"), None);
    assert_eq!(staging_target("file:///x.swf", b"FWS-blue"), None);
}

#[test]
fn file_plan_lists_copies_and_removals_in_order() {
    let plan = file_plan("cp /tmp/theme.swf /psp/theme.swf; rm /tmp/theme.swf /tmp/theme.swf.sig; sync; echo $?");
    assert!(plan.complete);
    assert_eq!(
        plan.ops,
        vec![
            FileOp::Copy("/tmp/theme.swf".into(), "/psp/theme.swf".into()),
            FileOp::Unlink("/tmp/theme.swf".into()),
            FileOp::Unlink("/tmp/theme.swf.sig".into()),
        ]
    );
    let partial = file_plan("cp a\\&b c; reboot; rm d");
    assert!(!partial.complete);
    assert_eq!(partial.ops, vec![FileOp::Copy("a&b".into(), "c".into())]);
    let spaced = file_plan("cp a\\ b c");
    assert!(!spaced.complete);
    assert!(spaced.ops.is_empty());
    let empty_step = file_plan("rm x;; sync");
    assert!(!empty_step.complete);
    assert_eq!(empty_step.ops, vec![FileOp::Unlink("x".into())]);
}

#[test]
fn status_is_one_when_a_copy_failed() {
    assert_eq!(status_reply(&vec![]), b"0\n");
    assert_eq!(status_reply(&vec![true, true]), b"0\n");
    assert_eq!(status_reply(&vec![true, false]), b"1\n");
}

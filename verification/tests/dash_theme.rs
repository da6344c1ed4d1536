use chumby::dash_theme::{catalog_xml, download_answer, exec, is_catalog_path};
use chumby::host::{ChumbyFs, DirEntry, DirEntryResult, HostError};
use chumby::real_ident::md5_hex;
use std::collections::BTreeMap;
use std::sync::Mutex;

/// Files by path; directories are implied by their contents. Paths are
/// normalized as the rootfs does, since the panel spells them with doubled
/// slashes ("file:////psp/...").
struct MemFs(Mutex<BTreeMap<String, Vec<u8>>>);

fn norm(path: &str) -> String {
    let mut out = String::new();
    for c in path.split('/').filter(|c| !c.is_empty() && *c != ".") {
        out.push('/');
        out.push_str(c);
    }
    out
}

impl ChumbyFs for MemFs {
    fn get_file(&self, path: &str) -> Option<Vec<u8>> {
        self.0.lock().unwrap().get(&norm(path)).cloned()
    }
    fn put_file(&self, path: &str, data: &[u8]) -> Result<(), HostError> {
        self.0.lock().unwrap().insert(norm(path), data.to_vec());
        Ok(())
    }
    fn file_exists(&self, path: &str) -> bool {
        self.0.lock().unwrap().contains_key(&norm(path))
    }
    fn file_size(&self, path: &str) -> Option<u64> {
        self.get_file(path).map(|b| b.len() as u64)
    }
    fn unlink(&self, path: &str) -> Result<(), HostError> {
        self.0.lock().unwrap().remove(&norm(path));
        Ok(())
    }
    fn dir_listing(&self, dir: &str, index: u32) -> DirEntryResult {
        self.dir_entry(dir, index)
    }

    fn dir_entry(&self, path: &str, index: u32) -> DirEntryResult {
        let prefix = format!("{}/", norm(path));
        let names: Vec<String> = self
            .0
            .lock()
            .unwrap()
            .keys()
            .filter_map(|k| k.strip_prefix(&prefix).map(str::to_owned))
            .collect();
        match names.get(index as usize) {
            Some(name) => DirEntryResult::Entry(DirEntry {
                name: name.clone(),
                is_dir: false,
                is_dir_link: false,
                is_file: true,
            }),
            None => DirEntryResult::End,
        }
    }
}

fn fs() -> MemFs {
    let mut m = BTreeMap::new();
    m.insert("/psp/themes/space_theme.swf".to_owned(), b"FWS-space".to_vec());
    m.insert("/psp/themes/space_theme.png".to_owned(), b"png".to_vec());
    m.insert("/psp/themes/blue.swf".to_owned(), b"FWS-blue".to_vec());
    m.insert("/psp/themes/notes.txt".to_owned(), b"x".to_vec());
    MemFs(Mutex::new(m))
}

#[test]
fn catalog_lists_the_themes_directory() {
    let fs = fs();
    let xml = catalog_xml(&fs);
    assert!(xml.starts_with("<themes><theme id=\"1\" version=\"1\"><name>blue</name>"));
    assert!(xml.contains("<url>file:////psp/themes/blue.swf</url>"));
    assert!(xml.contains("<name>space theme</name>"));
    assert!(xml.contains("<thumbnailURL>file:////psp/themes/space_theme.png</thumbnailURL>"));
    assert!(xml.contains(&format!("<md5>{}</md5>", md5_hex(b"FWS-space"))));
    assert!(!xml.contains("notes"));
    assert!(is_catalog_path("dash/production/themes/themes.xml"));
    assert!(!is_catalog_path("dash/production/controlpanel/controlpanel.xml"));
}

#[test]
fn download_then_copy_installs_a_local_theme() {
    let fs = fs();
    let md5 = md5_hex(b"FWS-blue");
    let ok = exec(&fs, &format!("download_theme file:////psp/themes/blue.swf {md5}")).unwrap();
    assert_eq!(ok, b"<download_theme error=\"success\" />\n");
    assert_eq!(fs.get_file("/tmp/theme.swf").unwrap(), b"FWS-blue");
    let copied = exec(&fs, "cp /tmp/theme.swf /psp/theme.swf; rm /tmp/theme.swf /tmp/theme.swf.sig; sync; echo $?").unwrap();
    assert_eq!(copied, b"0\n");
    assert_eq!(fs.get_file("/psp/theme.swf").unwrap(), b"FWS-blue");
    assert!(!fs.file_exists("/tmp/theme.swf"));
    let bad = exec(&fs, "download_theme file:////psp/themes/blue.swf 00").unwrap();
    assert!(String::from_utf8_lossy(&bad).contains("checksum failed"));
    let remote = exec(&fs, "download_theme http://files.chumby.com/x.swf 00").unwrap();
    assert!(String::from_utf8_lossy(&remote).contains("theme not found"));
    assert_eq!(exec(&fs, "rm /psp/theme.swf /psp/theme.swf.sig; sync; echo $?").unwrap(), b"0\n");
    assert!(!fs.file_exists("/psp/theme.swf"));
    assert!(exec(&fs, "cp a b; reboot").is_none(), "unknown step: not ours");
    assert!(exec(&fs, "list_mounts").is_none());
}

#[test]
fn whole_catalog_document() {
    let fs = fs();
    let expected = format!(
        "<themes><theme id=\"1\" version=\"1\"><name>blue</name><description>local theme</description>\
         <author>local</author><thumbnailURL></thumbnailURL><url>file:////psp/themes/blue.swf</url><md5>{}</md5>\
         <layouts/></theme><theme id=\"2\" version=\"1\"><name>space theme</name><description>local theme</description>\
         <author>local</author><thumbnailURL>file:////psp/themes/space_theme.png</thumbnailURL>\
         <url>file:////psp/themes/space_theme.swf</url><md5>{}</md5><layouts/></theme></themes>\n",
        md5_hex(b"FWS-blue"),
        md5_hex(b"FWS-space")
    );
    assert_eq!(catalog_xml(&fs), expected);
    let empty = MemFs(Mutex::new(BTreeMap::new()));
    assert_eq!(catalog_xml(&empty), "<themes></themes>\n");
}

#[test]
fn catalog_path_ignores_outer_slashes() {
    assert!(is_catalog_path("/dash/x/themes/themes.xml/"));
    assert!(is_catalog_path("dash//themes/themes.xml"));
    assert!(!is_catalog_path("dash/themes/themes.xml"));
    assert!(!is_catalog_path("dash/x/themes/themes.xml/extra"));
}

#[test]
fn download_answers_for_each_outcome() {
    let md5 = md5_hex(b"FWS-blue");
    let args = format!("file:////psp/themes/blue.swf {}", md5.to_uppercase());
    assert_eq!(
        download_answer(&args, Some(b"FWS-blue"), true),
        "<download_theme error=\"success\" />\n"
    );
    assert_eq!(
        download_answer(&args, Some(b"FWS-blue"), false),
        "<download_theme error=\"cannot write theme\" />\n"
    );
    assert_eq!(
        download_answer(&args, Some(b"other"), true),
        "<download_theme error=\"checksum failed\nPlease choose a different theme\" />\n"
    );
    assert_eq!(
        download_answer(&args, None, true),
        "<download_theme error=\"theme not found\nPlease choose a different theme\" />\n"
    );
    assert_eq!(
        download_answer("onlyurl", None, true),
        "<download_theme error=\"Syntax: download_theme &lt;url> &lt;md5>\" />\n"
    );
}

#[test]
fn failed_copy_reports_one() {
    let fs = fs();
    assert_eq!(exec(&fs, "cp /nosuch /psp/theme.swf; sync; echo $?").unwrap(), b"1\n");
    assert_eq!(exec(&fs, "  /psp/download_theme file:////psp/themes/blue.swf 00 ").map(|v| String::from_utf8(v).unwrap().contains("checksum")), Some(true));
    assert!(exec(&fs, "rm").is_none());
    assert_eq!(exec(&fs, "rm \\/psp/themes/notes.txt").unwrap(), b"0\n");
    assert!(!fs.file_exists("/psp/themes/notes.txt"));
}

use chumby::real_ident::{acronym_from, format_guid, guid, hw_serial, md5_hex, md5sum_line, read_cstr, serial};

#[test]
fn md5_matches_coreutils() {
    // printf 'hello' | md5sum
    assert_eq!(md5_hex(b"hello"), "5d41402abc4b2a76b9719d911017c592");
}

#[test]
fn md5sum_line_matches_coreutils_format() {
    assert_eq!(
        md5sum_line(b"hello", "/tmp/.guidhash"),
        "5d41402abc4b2a76b9719d911017c592  /tmp/.guidhash\n"
    );
}

#[test]
fn model_acronyms() {
    assert_eq!(
        acronym_from("Raspberry Pi 3 Model B Rev 1.2").as_deref(),
        Some("RPI3B")
    );
    assert_eq!(
        acronym_from("Raspberry Pi 4 Model B Rev 1.5").as_deref(),
        Some("RPI4B")
    );
    assert_eq!(
        acronym_from("Raspberry Pi Zero 2 W Rev 1.0").as_deref(),
        Some("RPIZERO2W")
    );
    assert_eq!(acronym_from("Some x86 Board"), None);
}

#[test]
fn guid_shape() {
    let g = format_guid(&md5_hex(b"chumby-pi:10000000abcdef12"));
    assert_eq!(g.len(), 36);
    assert!(
        g.chars()
            .all(|c| c.is_ascii_hexdigit() && !c.is_ascii_lowercase() || c == '-')
    );
    assert_eq!(g.match_indices('-').count(), 4);
    // Deterministic: same seed, same GUID.
    assert_eq!(g, format_guid(&md5_hex(b"chumby-pi:10000000abcdef12")));
}

#[test]
fn md5_of_empty_input() {
    assert_eq!(md5_hex(b""), "d41d8cd98f00b204e9800998ecf8427e");
}

#[test]
fn guid_needs_a_serial() {
    assert_eq!(guid(None), None);
    let g = guid(Some("10000000abcdef12")).unwrap();
    assert_eq!(g, format_guid(&md5_hex(b"chumby-pi:10000000abcdef12")));
}

#[test]
fn serial_sources_in_order() {
    assert_eq!(read_cstr(b"abc\0\0"), Some("abc".to_string()));
    let sources = vec![None, Some(b"10000000abcdef12\0".to_vec())];
    assert_eq!(serial(&sources).as_deref(), Some("10000000abcdef12"));
    assert_eq!(serial(&vec![None, None]), None);
}

#[test]
fn hardware_serial_tags_the_model() {
    let s = hw_serial(Some("10000000abcdef12"), Some("Raspberry Pi 4 Model B Rev 1.5"));
    assert_eq!(s.as_deref(), Some("RPI4B-10000000ABCDEF12"));
    assert_eq!(hw_serial(Some("00ab"), None).as_deref(), Some("PC-AB"));
    assert_eq!(hw_serial(Some("000"), Some("Some x86 Board")), None);
    assert_eq!(hw_serial(None, Some("Raspberry Pi 4 Model B Rev 1.5")), None);
}

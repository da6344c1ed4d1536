use chumby::tzdump::{parse_tzif, tzdump, zone_file, zone_xml, Transition};

fn header(version: u8, counts: [u32; 6]) -> Vec<u8> {
    let mut h = b"TZif".to_vec();
    h.push(version);
    h.extend([0u8; 15]);
    for c in counts {
        h.extend(c.to_be_bytes());
    }
    h
}

/// A block's data: times (4 or 8 bytes each), type indices, types, chars,
/// one standard/wall and one UT/local indicator per type.
fn block(wide: bool, times: &[i64], idx: &[u8], types: &[(i32, u8, u8)], chars: &[u8]) -> Vec<u8> {
    let mut d = Vec::new();
    for &t in times {
        if wide {
            d.extend(t.to_be_bytes());
        } else {
            d.extend((t as i32).to_be_bytes());
        }
    }
    d.extend(idx);
    for &(off, dst, ai) in types {
        d.extend(off.to_be_bytes());
        d.push(dst);
        d.push(ai);
    }
    d.extend(chars);
    d.extend(vec![0u8; types.len() * 2]);
    d
}

fn tzif2(times: &[i64], idx: &[u8], types: &[(i32, u8, u8)], chars: &[u8]) -> Vec<u8> {
    let n = types.len() as u32;
    let counts = [n, n, 0, times.len() as u32, n, chars.len() as u32];
    let mut f = header(b'2', counts);
    f.extend(block(false, times, idx, types, chars));
    f.extend(header(b'2', counts));
    f.extend(block(true, times, idx, types, chars));
    f.extend(b"\nEST5EDT\n");
    f
}

fn utc_file() -> Vec<u8> {
    tzif2(&[], &[], &[(0, 0, 0)], b"UTC\0")
}

fn new_york_like() -> Vec<u8> {
    tzif2(
        &[-2_000_000, 1_762_066_800, 1_772_953_200],
        &[1, 0, 1],
        &[(-18000, 0, 0), (-14400, 1, 4)],
        b"EST\0EDT\0",
    )
}

#[test]
fn utc_has_one_entry() {
    let t = parse_tzif(&utc_file()).unwrap();
    assert_eq!(t, vec![Transition { utc: 0, gmtoff: 0, isdst: false, abbrev: "UTC".into() }]);
}

#[test]
fn transitions_from_1970_in_file_order() {
    let t = parse_tzif(&new_york_like()).unwrap();
    assert_eq!(
        t,
        vec![
            Transition { utc: 1_762_066_800, gmtoff: -18000, isdst: false, abbrev: "EST".into() },
            Transition { utc: 1_772_953_200, gmtoff: -14400, isdst: true, abbrev: "EDT".into() },
        ]
    );
    assert!(t.windows(2).all(|w| w[0].utc < w[1].utc), "ascending");
}

#[test]
fn version_one_files_use_the_32_bit_block() {
    let types = [(3600i32, 0u8, 0u8)];
    let mut f = header(0, [1, 1, 0, 1, 1, 4]);
    f.extend(block(false, &[86400], &[0], &types, b"CET\0"));
    let t = parse_tzif(&f).unwrap();
    assert_eq!(t, vec![Transition { utc: 86400, gmtoff: 3600, isdst: false, abbrev: "CET".into() }]);
}

#[test]
fn broken_files_are_refused() {
    assert_eq!(parse_tzif(b""), None);
    assert_eq!(parse_tzif(b"not a tzif file at all, just some text here....."), None);
    let mut short = new_york_like();
    short.truncate(60);
    assert_eq!(parse_tzif(&short), None);
    // A transition naming a type that does not exist.
    let bad = tzif2(&[100], &[5], &[(0, 0, 0)], b"UTC\0");
    assert_eq!(parse_tzif(&bad), None);
}

#[test]
fn zone_document_for_the_panel() {
    let xml = tzdump("America/New_York", &new_york_like()).unwrap();
    assert!(xml.starts_with("<zone name=\"America/New_York\"><time utc=\""));
    assert!(xml.contains("isdst=\"1\" abbrev=\"EDT\"/>"));
    assert_eq!(
        xml,
        "<zone name=\"America/New_York\">\
         <time utc=\"1762066800\" gmtoff=\"-18000\" isdst=\"0\" abbrev=\"EST\"/>\
         <time utc=\"1772953200\" gmtoff=\"-14400\" isdst=\"1\" abbrev=\"EDT\"/></zone>\n"
    );
    assert_eq!(tzdump("Bad", b"junk"), None);
    assert_eq!(zone_xml("A&B", &vec![]), "<zone name=\"A&amp;B\"></zone>\n");
}

#[test]
fn zone_names_cannot_leave_zoneinfo() {
    assert!(zone_file("../../etc/passwd").is_none());
    assert!(zone_file("/etc/passwd").is_none());
    assert!(zone_file("").is_none());
    assert!(zone_file("Europe//Oslo").is_none());
    assert!(zone_file("Europe/./Oslo").is_none());
    assert_eq!(
        zone_file("No/Such/Zone").as_deref(),
        Some("/usr/share/zoneinfo/No/Such/Zone")
    );
}

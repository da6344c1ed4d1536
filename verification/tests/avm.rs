use chumby::avm::{base64_decode, base64_encode, panel_path_join, route, wrapper_name, NativeRoute};

/// _path must come out clean even from the panel's messy path forms —
/// it feeds the breadcrumb, _fileExists and _playAudio.
#[test]
fn test_panel_path_join_normalizes() {
    assert_eq!(panel_path_join("//mnt/usb/", "a.mp3"), "/mnt/usb/a.mp3");
    assert_eq!(panel_path_join("/mnt/usb/Album", "t.mp3"), "/mnt/usb/Album/t.mp3");
    assert_eq!(panel_path_join("////mnt", "usb"), "/mnt/usb");
    assert_eq!(panel_path_join("/mnt/./usb", "x"), "/mnt/usb/x");
}

#[test]
fn panel_path_join_of_root_and_empty() {
    assert_eq!(panel_path_join("/", "a"), "/a");
    assert_eq!(panel_path_join("", ""), "/");
}

#[test]
fn base64_known_values() {
    assert_eq!(base64_encode(b""), "");
    assert_eq!(base64_encode(b"f"), "Zg==");
    assert_eq!(base64_encode(b"fo"), "Zm8=");
    assert_eq!(base64_encode(b"foo"), "Zm9v");
    assert_eq!(base64_encode(b"foobar"), "Zm9vYmFy");
    assert_eq!(base64_decode("Zm9vYmFy"), b"foobar".to_vec());
    assert_eq!(base64_decode("Zg=="), b"f".to_vec());
}

#[test]
fn base64_round_trips_every_byte() {
    let data: Vec<u8> = (0..=255u8).collect();
    assert_eq!(base64_decode(&base64_encode(&data)), data);
    for n in 0..8usize {
        let d: Vec<u8> = data[..n].to_vec();
        assert_eq!(base64_decode(&base64_encode(&d)), d);
    }
}

#[test]
fn wrapper_names_and_routes() {
    assert_eq!(wrapper_name(25), "_bent");
    assert!(matches!(route(25), NativeRoute::Host));
    assert!(matches!(route(50), NativeRoute::GetFile));
    assert!(matches!(route(320), NativeRoute::DirectoryEntry));
    assert!(matches!(route(160), NativeRoute::Base64Encode));
}

#[test]
fn bound_wrapper_names_are_distinct_and_underscored() {
    let mut seen = std::collections::HashSet::new();
    for i in 0..=u16::MAX {
        let name = wrapper_name(i);
        assert!(name.starts_with('_'));
        if name != "_unknown" {
            assert!(seen.insert(name), "{name} bound twice");
        }
    }
    assert_eq!(seen.len(), 157);
}

use chumby::music_sources::{filter_sources, hidden_selectors, SourcesPass};

/// The chumby.com-backed trio is hidden exactly when access is off,
/// Squeezebox exactly when enable_lyrion is off; the dead set always.
#[test]
fn test_hidden_selectors_follow_config() {
    assert_eq!(
        hidden_selectors(false, false),
        ["ipod", "noaa", "cbspodcasts", "shoutcast", "chumbcast", "sleepcast", "slimserver"]
    );
    assert_eq!(hidden_selectors(true, true), ["ipod", "noaa", "cbspodcasts"]);
}

#[test]
fn sources_are_filtered_in_order() {
    let hidden = hidden_selectors(true, false);
    let sel: Vec<String> = ["mp3files", "ipod", "shoutcast", "slimserver", ""]
        .iter()
        .map(|s| s.to_string())
        .collect();
    match filter_sources(&sel, &hidden) {
        SourcesPass::Edit(e) => {
            assert_eq!(e.kept, vec![0, 2, 4]);
            assert_eq!(e.removed, vec!["ipod".to_string(), "slimserver".to_string()]);
        }
        _ => panic!("expected an edit"),
    }
    assert!(matches!(filter_sources(&vec![], &hidden), SourcesPass::Retry));
    assert!(matches!(
        filter_sources(&vec!["mp3files".to_string()], &hidden),
        SourcesPass::Unchanged
    ));
}

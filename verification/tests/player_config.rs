use chumby::fixture::SlaveVars;
use chumby::player_config::parse_config_flags;

#[test]
fn config_flags_read_known_keys() {
    let f = parse_config_flags("access_chumby_com = 1\nenable_lyrion = true\nbrightness_ctl = \"/usr/bin/lcd\"\nvolume_cap = 50.0\n");
    assert!(f.access_chumby_com);
    assert!(f.enable_lyrion);
    assert_eq!(f.brightness_ctl.as_deref(), Some("/usr/bin/lcd"));
}

#[test]
fn config_flags_ignore_bad_values() {
    let f = parse_config_flags("access_chumby_com = 2\nenable_lyrion = \"yes\"\nbrightness_ctl = \"\"\nother = 1\n");
    assert!(!f.access_chumby_com);
    assert!(!f.enable_lyrion);
    assert_eq!(f.brightness_ctl, None);
    let g = parse_config_flags("enable_lyrion = 0\naccess_chumby_com = false\n");
    assert!(!g.access_chumby_com && !g.enable_lyrion);
}

#[test]
fn config_flags_default_on_bad_toml() {
    let f = parse_config_flags("access_chumby_com = = 1");
    assert!(!f.access_chumby_com);
    assert!(!f.enable_lyrion);
    assert_eq!(f.brightness_ctl, None);
}

#[test]
fn slave_vars_read_back_what_was_set() {
    let mut vars = SlaveVars::new();
    assert_eq!(vars.get("a"), None);
    vars.set("a", "1");
    vars.set("b", "2");
    vars.set("a", "3");
    assert_eq!(vars.get("a").as_deref(), Some("3"));
    assert_eq!(vars.get("b").as_deref(), Some("2"));
    assert_eq!(vars.lookup("_chumby_widget_done").as_deref(), Some("true"));
    assert_eq!(vars.lookup("missing"), None);
    vars.set("_chumby_widget_done", "false");
    assert_eq!(vars.lookup("_chumby_widget_done").as_deref(), Some("false"));
}

fn is_default(f: &chumby::player_config::ConfigFlags) -> bool {
    !f.access_chumby_com && !f.enable_lyrion && f.brightness_ctl.is_none()
}

// The volume cap is a float, which the library leaves to its caller; these
// check every other setting on the same texts.
#[test]
fn test_parse_values() {
    let config = parse_config_flags("volume_cap = 70\naccess_chumby_com = 1\nenable_lyrion = 1\n");
    assert!(config.access_chumby_com);
    assert!(config.enable_lyrion);
    // TOML booleans are accepted too.
    let config = parse_config_flags("volume_cap = 55.5\naccess_chumby_com = false\n");
    assert!(!config.access_chumby_com);
}

#[test]
fn test_bad_values_keep_defaults() {
    assert!(is_default(&parse_config_flags("not toml at [")));
    assert!(is_default(&parse_config_flags("volume_cap = 150")));
    assert!(is_default(&parse_config_flags("volume_cap = -1")));
    assert!(is_default(&parse_config_flags("volume_cap = \"loud\"")));
    assert!(is_default(&parse_config_flags("access_chumby_com = 2")));
    assert!(is_default(&parse_config_flags("some_future_key = 1")));
}

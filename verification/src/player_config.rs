//! The player configuration `player.toml`: what it says of chumby.com
//! access, the Squeezebox source and the brightness helper. Unknown keys and
//! values of the wrong kind are ignored; text that is not TOML leaves every
//! setting at its default.

use vstd::prelude::*;
use crate::text::{chars_of, eq_str};
use crate::ui_policy::{parse_toml, toml_parse, TomlValue};

verus! {

/// A flag as the configuration writes it: `0`, `1`, `false` or `true`.
pub open spec fn flag_value(v: TomlValue) -> Option<bool> {
    match v {
        TomlValue::Integer(i) => if i == 0 {
            Some(false)
        } else if i == 1 {
            Some(true)
        } else {
            None
        },
        TomlValue::Boolean(b) => Some(b),
        _ => None,
    }
}

/// A path as the configuration writes it: a non-empty string.
pub open spec fn path_value(v: TomlValue) -> Option<Seq<char>> {
    match v {
        TomlValue::String(s) => if s@.len() > 0 {
            Some(s@)
        } else {
            None
        },
        _ => None,
    }
}

/// The settings other than the volume cap.
pub struct ConfigFlags {
    /// Opt-in chumby.com traffic (music proxies, remote channels).
    pub access_chumby_com: bool,
    /// Shows the Squeezebox Server source.
    pub enable_lyrion: bool,
    /// Executable that takes the discrete LCD level.
    pub brightness_ctl: Option<String>,
}

/// `(access_chumby_com, enable_lyrion, brightness_ctl)`.
pub type FlagsView = (bool, bool, Option<Seq<char>>);

pub open spec fn flags_view(f: ConfigFlags) -> FlagsView {
    (
        f.access_chumby_com,
        f.enable_lyrion,
        match f.brightness_ctl {
            Some(p) => Some(p@),
            None => None,
        },
    )
}

/// Nothing enabled, no brightness helper.
pub open spec fn default_flags() -> FlagsView {
    (false, false, None)
}

/// The settings after reading the entries of the root table in order: each
/// known key with a value of its kind sets its setting.
pub open spec fn flags_after(t: Seq<(String, TomlValue)>) -> FlagsView
    decreases t.len(),
{
    if t.len() == 0 {
        default_flags()
    } else {
        let f = flags_after(t.drop_last());
        let key = t.last().0@;
        let v = t.last().1;
        if key == "access_chumby_com"@ && flag_value(v) is Some {
            (flag_value(v).unwrap(), f.1, f.2)
        } else if key == "enable_lyrion"@ && flag_value(v) is Some {
            (f.0, flag_value(v).unwrap(), f.2)
        } else if key == "brightness_ctl"@ && path_value(v) is Some {
            (f.0, f.1, path_value(v))
        } else {
            f
        }
    }
}

fn flag_of(v: &TomlValue) -> (r: Option<bool>)
    ensures
        r == flag_value(*v),
{
    match v {
        TomlValue::Integer(i) => if *i == 0 {
            Some(false)
        } else if *i == 1 {
            Some(true)
        } else {
            None
        },
        TomlValue::Boolean(b) => Some(*b),
        _ => None,
    }
}

/// The settings a root table gives, starting from the defaults.
pub fn config_flags(table: &Vec<(String, TomlValue)>) -> (r: ConfigFlags)
    ensures
        flags_view(r) == flags_after(table@),
{
    let mut r = ConfigFlags { access_chumby_com: false, enable_lyrion: false, brightness_ctl: None };
    let mut i: usize = 0;
    assert(table@.take(0) =~= Seq::<(String, TomlValue)>::empty());
    while i < table.len()
        invariant
            i <= table@.len(),
            flags_view(r) == flags_after(table@.take(i as int)),
        decreases table@.len() - i,
    {
        proof {
            let t = table@.take(i + 1);
            assert(t.drop_last() =~= table@.take(i as int));
            assert(t.last() == table@[i as int]);
        }
        let key = chars_of(table[i].0.as_str());
        let v = &table[i].1;
        if eq_str(&key, "access_chumby_com") && flag_of(v).is_some() {
            r.access_chumby_com = flag_of(v).unwrap();
        } else if eq_str(&key, "enable_lyrion") && flag_of(v).is_some() {
            r.enable_lyrion = flag_of(v).unwrap();
        } else if eq_str(&key, "brightness_ctl") {
            match v {
                TomlValue::String(s) => {
                    if chars_of(s.as_str()).len() > 0 {
                        r.brightness_ctl = Some(s.clone());
                    }
                },
                _ => {},
            }
        }
        i = i + 1;
    }
    assert(table@.take(table@.len() as int) =~= table@);
    r
}

/// The settings of a configuration text: those of its root table, or the
/// defaults when the text is not TOML.
pub fn parse_config_flags(text: &str) -> (r: ConfigFlags)
    ensures
        flags_view(r) == match toml_parse(text@) {
            Some(TomlValue::Table(t)) => flags_after(t@),
            _ => default_flags(),
        },
{
    match parse_toml(text) {
        Some(TomlValue::Table(t)) => config_flags(&t),
        _ => ConfigFlags { access_chumby_com: false, enable_lyrion: false, brightness_ctl: None },
    }
}

} // verus!

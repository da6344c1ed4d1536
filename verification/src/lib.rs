//! Host-side logic of the chumby control-panel player: the decisions, parsers
//! and formatters behind the panel's vendor natives, shell commands, URL
//! requests and virtual filesystem.

pub mod text;
pub mod path;
pub mod avm;
pub mod fixture;
pub mod navigator;
pub mod real_ident;
pub mod xml;
pub mod real_net;
pub mod backup_alarm;
pub mod brightness;
pub mod host;
pub mod input;
pub mod dash_theme;
pub mod tzdump;
pub mod ui_policy;
pub mod music_sources;
pub mod alarm_guard;
pub mod intro;
pub mod audio;
pub mod render;
pub mod player_config;

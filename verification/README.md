# chumby

The host side of a chumby control-panel player, as a verified library: the
decisions, parsers and formatters behind the panel's vendor natives, its
shell commands and URL requests, the virtual root filesystem, the backup
alarm, the audio player's state machine, the UI policy, the Dash theme
picker, `tzdump`, and the mask bookkeeping of the CPU rasterizer.

* `src/` — the library, written and proved with Verus. Every public
  function states what it returns in its contract, over spec functions of
  plain values; the `law_*` proof functions state the properties that span
  several calls (base64 round trip and padding shape, a bend tap is one press, transitions
  start at 1970 and stay ascending, the mask protocol, pause/resume, only local themes
  download, wrapper names are distinct, a slave variable reads back).
* `tests/` — the library's tests, run against the compiled crate.
* `app/` — the environment around it: files, processes, threads, the
  kernel's network state and the floating-point volume and pointer
  handling.

Modules: `text`, `path`, `xml` (shared text handling); `avm` (native table
and base64); `fixture` (the fixture host's routing); `navigator` (URL
extensions); `host`, `input` (rootfs interface, bend sensor, control
channel); `real_ident`, `real_net` (identity and live network answers);
`backup_alarm`, `brightness`, `audio`; `dash_theme`, `tzdump`,
`ui_policy`, `player_config`, `music_sources`, `alarm_guard`, `intro`;
`render` (masks).

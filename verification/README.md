# cliip_show

The verified core of Cliip Show, a macOS menu bar application that shows
what was just copied in a small HUD.

- `src/` is the library, written in Verus: every function has a contract
  and is proved against it, except two trusted wrappers whose contracts
  are taken on trust: `chars::push_char` (`String::push`) and
  `graphemes::graphemes` (`UnicodeSegmentation::graphemes` of the
  `unicode-segmentation` crate, whose result is named
  `extended_grapheme_clusters`). It holds the text truncation of the HUD, the
  settings (their names, limits, parsing, the config file and the
  environment over the defaults), the localized strings, the command line,
  the LaunchAgent plist used to start at login, the bitmap comparison of
  the screenshot tests, the strings and ranges of the settings window, and
  the decisions of the clipboard poll and of the fade-out.
- `tests/` runs the library on concrete values.
- `app/` is the application around it: AppKit windows and menus, timers,
  file and process I/O, the TOML config file, and the settings that are
  real numbers (durations, scale, opacity).

The tests cover the settings window's tag numbering of every key, where
tag 11 is the background opacity, so no test expects tag 11 to be unknown.

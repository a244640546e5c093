# serein

The notification settings of the Serein Discord client, as a verified library.

- `src/` is proved with Verus: the settings-proto wire format and its notification subtree
  (`wire`, `protocol`, `retention`), the account preference model (`model`), the client
  state machine for requests, acknowledgements, the social notification queue and member
  search (`client`, `member_search`, `settings_laws`), the account exchange decisions
  (`account`), the sound worker's request tracking (`sounds`), the settings page
  (`ui`), the taskbar badge (`badge`) and the verification widget's rules (`captcha`).
- `tests/` runs the library on concrete values.
- `app/` is ordinary Rust around the library: HTTP with reqwest, JSON with serde, audio
  output with cpal, and the settings page drawn with egui.

Not in `app/`: the verification widget's webview and the Windows taskbar badge call need
platform crates that are not dependencies here (a webview, the Windows API and a windowing
crate); their rules are in `captcha` and `badge`. The settings page has no link to the voice
settings, whose page is not part of this crate. The audio worker shares the library's
`Sounds` behind a mutex, which the output callback also takes.

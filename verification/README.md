# voiceinsert

VoiceInsert is a Windows tray utility: press a hotkey, speak, and the text that
an OpenAI-compatible transcription API returns is pasted into the focused
window through the clipboard.

The crate is split in two.

- `src/` is the library, written in Verus. Every function in it carries a
  contract that Verus proves: settings normalization and its laws (usable,
  unique profile names, stable when applied again), the recording state
  machine, hotkey normalization, endpoint and request planning, API error
  sanitizing, the clipboard insertion plan, capture-buffer handling and
  sample conversion, WAV encoding, sound layout planning, the option lists of
  the settings window, the API key store and its serialized form, log file
  naming and retention, and tray, overlay and border geometry.
- `app/` is the desktop program around it: files, the network (reqwest), the
  audio devices (cpal), the clipboard (arboard), global hotkeys, the tray
  icon, the Slint windows and the Win32 calls. It hands the library plain
  values and performs what the library decides.

Calls into outside crates that the library makes (`url`, `hound`,
`global-hotkey`, `serde_json`) sit behind small trusted wrappers in `src/`,
each with a doc comment saying what its contract claims.

`tests/` exercises the library from outside.

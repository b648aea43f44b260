# gravador

The logic of a meeting recorder and transcriber, verified with Verus.

`src/` is the verified library:

- `numbers` — decimal text of integers: the `FromStr` rules of `u32`/`i32`, their display, zero padding.
- `strings` — characters of strings, Unicode white-space trimming, splitting at separators, substring search.
- `version` — dotted version comparison, with its order laws.
- `update` — whether the latest release is offered as an update, and its installer address.
- `config` — the settings, and how they are saved to and loaded from the settings table.
- `models` — the whisper model files and the lookup-then-download order.
- `transcription` — transcription segments, sentence splitting, display, search, engine choice.
- `recordings` — history rows and how the history list shows them.
- `session` — start delay, countdown, the pause-aware recording clock, time display.
- `state` — what the window remembers between actions.

`app/` is the program around it: audio capture and mixing, WAV files, the SQLite
store, HTTP requests, the cloud and local transcription engines.

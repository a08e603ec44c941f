# t_whisper

The verified core of T-Whisper, an offline command-line tool that transcribes Chinese
speech with whisper.cpp and writes Traditional Chinese (Taiwan) transcripts.

- `src/` — the library, verified with Verus: configuration parsing and rewriting, paths
  and command lookup, the model registry and its plans (download, list, remove, menu),
  timestamped transcript lines, speaker labelling, the live-mode voice-activity state
  machines and partial-line display, OpenCC output handling, and message rendering.
  The file system and the environment are read by the caller and handed over as plain
  values (`EnvVars`, `FileProbe`).
- `app/` — the command-line program around it: argument parsing (clap), audio decoding
  (symphonia), microphone capture (cpal), WAV output (hound), inference (whisper-rs),
  diarization (sherpa-rs), downloads and child processes.
- `tests/` — tests of the library on concrete values.

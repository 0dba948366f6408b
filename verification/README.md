# swictation

The verified core of a voice dictation daemon: speech is recorded while a
hotkey or the control socket says so, transcribed, cleaned up and typed into
the focused window.

- `src/` holds the logic, verified with Verus: capitalization and the
  normalization of spoken punctuation, the learned-corrections engine,
  display-server detection and injection-tool choice, UTF-16 batching of
  typed text, hotkey parsing, path layout, model selection, the injection
  worker's state machine and the daemon's toggle decisions.
- `tests/` exercises the library on concrete inputs.
- `app/` is the binary around it: audio, speech recognition, sockets,
  hotkey registration, file access and the processes that type text.

# screen_recorder

A Windows screen recorder (Tauri 2 shell, Windows.Graphics.Capture, WASAPI audio,
Media Foundation H.264/H.265 + AAC encoding) whose decisions and data
transformations live in a library verified with Verus.

## Layout

- `src/` — the verified library
  - `recorder.rs` — recording control (pause / resume / stop / progress), the
    video timeline that cuts pauses out, the auto-stop limits, the wall clock
  - `session.rs` — what starting a recording turns settings and displays into:
    source, region, frame-size estimate, audio selection, limits, codec fallback,
    output scaling, output file name, toolbar position
  - `capture.rs` — displays and windows, cropping, de-padding and scaling BGRA
    frames, UTF-16 name decoding
  - `encoder.rs` — encoder stream attributes (rate control included), packed
    size/rate values, sample times in 100-ns units
  - `audio.rs` — capture streams to open, the mixed format, PCM chunking
  - `history.rs` — the recording history: MP4 files, newest first, at most 30
  - `settings.rs` — recording settings, defaults, the bit rate for a quality
    preset, frame size and rate
  - `text.rs` — string comparison, order, integer parsing and trimming
- `tests/` — tests of the library on concrete values
- `app/` — the application: Tauri commands and windows, Win32/WinRT capture,
  WASAPI audio, Media Foundation encoding, JSON settings, and the floating-point
  audio steps (resampling, sample quantization)

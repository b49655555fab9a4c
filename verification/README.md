# vp9_to_wav_dcp

A verified library for carrying sign-language video in the PCM data of a WAV
track of a Digital Cinema Package: the VP9 video is cut into 2-second WebM
chunks and each chunk is packed into one 288 000-byte block of mono, 48 kHz,
24-bit PCM; the validator reads such a WAV back, checks every block and
recovers the chunks.

- `src/` — the library, verified with Verus: the WAV header (`wav`), the PCM
  blocks (`pcm`), the block scan (`scan`), the validation report
  (`validation`), the analysis of an input video (`analyzer`), the packing
  decisions (`packager`), chunk file names and their order (`chunks`), the
  FFmpeg command lines (`commands`), the log (`logging`), numerals (`text`),
  byte orders (`endian`) and the round-trip properties (`roundtrip`).
- `tests/` — tests of the library on concrete values.
- `app/` — the desktop application around it (Tauri commands, FFmpeg
  processes, files, progress events, floating-point parts).

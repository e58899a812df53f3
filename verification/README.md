# vt_core

The verified core of a video translator: speech recognition, translation and speech synthesis, put
back under the picture. The library decides; the code around it reads, runs and sends.

* `src/` holds the library. Every function states what it returns, and Verus proves it. Numbers in
  floating point are kept as bit patterns and compared as IEEE 754 compares them (`ieee`); arithmetic
  on them is left to the caller, who hands in the results.
* `tests/` runs the library on concrete values.
* `app/` is the code around it: files, WAV recordings, FFmpeg, HTTP services, subprocesses, settings
  in TOML, and the arithmetic in floating point.

What the proofs rest on is marked `external_body` or `assume_specification` in `src/`: JSON as
`serde_json` reads and writes it (`json`), the clock of `chrono` (`clock`), the home directory of `dirs`
(`checkpoint`), SHA-256 of `sha2` (`golden_master`) and `String::push` (`text`).

The laws that relate several functions are the public proof functions whose names start with `law_`.

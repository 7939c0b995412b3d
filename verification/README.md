# humla

Verified core of the Humla desktop sidecars, written in Verus.

- `src/gguf.rs` — GGUF model header reader (architecture, quantization,
  parameter count) over the byte image of a file, with its format as a
  specification and two proved properties: results are stable when more of
  the file is read, and a minimal header reads back as written.
- `src/keychain.rs` — provider id to keychain account mapping.
- `src/diarize.rs` — diarization engines, their model files and download
  plan, and the WAV input check of the diarizer.
- `src/capture.rs` — audio-capture decisions: command line and stdin
  commands, file names and WAV shape, and the chunk / full-recording
  bookkeeping (pause-driven chunk rotation, silent-chunk dropping), with a
  proved account of a whole writer run: chunk numbering, chunk starts,
  which chunks are kept, and the length of a rotated chunk.
- `app/` — the runtime around it: audio devices (cpal, WASAPI), WAV files
  (hound), downloads (reqwest/tokio), resampling and peak measurement in
  floating point, threads and the JSON wire protocol.

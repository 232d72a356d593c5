# voicebox_asr

A local, offline speech-transcription sidecar (Paraformer Chinese model via
sherpa-onnx), split in two:

- `src/` — the verified library (Verus): language normalisation
  (`language`), model-file discovery and path deduplication (`paths`),
  start-up settings, health report and the decisions around punctuation
  (`engine`), WAV header checks (`wav`), the service's error type (`error`)
  and character-level text helpers (`text`).
- `app/` — the HTTP service around it: command line (clap), axum routes,
  sherpa-onnx recogniser and punctuator, float audio decoding, and the
  embedded test page.
- `tests/` — tests of the library on concrete inputs.

# qwen3_asr_wgpu

The host side of a Qwen3-ASR speech recogniser on WebGPU, verified with Verus.

A transcription is an audio tower that turns a log-mel spectrogram into
embeddings, and a text decoder that turns embeddings into tokens. Both run as
long lists of GPU commands. The library plans those commands: which buffers are
allocated and how large they are, which kernels run over which grids, which words
stand in which uniform slots, what is read back and when. It also holds what
surrounds a run: configuration, weight layout, device selection, kernel sources,
scoring, recordings and the model cache.

## Layout

| where | what |
|---|---|
| `src/decoder*.rs`, `src/hazards.rs` | the decoder: switches, capacity, load, step and prefill plans, and the laws they keep |
| `src/encoder*.rs`, `src/linear.rs` | the audio tower: loading, clip plans, command lists and their laws |
| `src/pipelines.rs` | which pipelines are built and what their bind groups hold |
| `src/cpu_*.rs` | the same models on the host: gathers, windows, caches, the order of a pass |
| `src/weights.rs`, `src/le.rs` | tensors as bytes: fusing, padding, little-endian words |
| `src/geometry.rs` | tiles, grids, convolution extents and tap tables |
| `src/config.rs`, `src/hub*.rs` | model configuration, the model cache, its download and its tokenizer file |
| `src/device*.rs`, `src/backend.rs`, `src/order.rs` | which adapter a run takes, and how adapters are listed |
| `src/score.rs`, `src/unicode.rs`, `src/manifest.rs` | word and character error rates over a manifest |
| `src/golden.rs`, `src/checks.rs`, `src/diagnostics.rs` | recordings and what a run is held against |
| `src/wgsl_*.rs`, `src/bench.rs`, `src/probe.rs`, `src/lcg.rs` | generated kernels and the host side of probes and benches |
| `src/text.rs`, `src/cli.rs`, `src/error.rs` | decimal numbers, arguments, error messages |
| `tests/` | the library on concrete values |
| `app/` | the program: files, network, the GPU, and all floating-point arithmetic |

Floating-point values cross the library as bit patterns. Kernels other than the
generated ones are read by the program from a `shaders/` directory, one
`<label>.wgsl` per pipeline.

## What is trusted

The library calls `bytes` for shared weight bytes, `serde_json` for the hub's
JSON, and a few functions of `std` on characters and strings. Each call stands
behind an item whose doc comment says what is claimed of it.

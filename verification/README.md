# xiaoai

Verified logic for a smart-speaker client and a multi-room stereo system:
clock synchronisation, a jitter buffer, PCM mixing and channel splitting,
sample-format conversion for the recording path, audio configuration checks,
the text protocol of the speaker's shell scripts and keyword log, and the
small text utilities they rest on.

Layout:

- `src/` — the library, written in Verus. Every function is verified against
  its contract; the only functions whose result is left unstated are those
  that read the wall clock. Public proof functions state the laws the library
  keeps (clock round trips, the median of the offset window over any run of
  exchanges, jitter-buffer ordering and draining, lossless chunking of the
  recording stream, mixing of a single stream, the whitelist and the retry
  backoff, a slave session leaving no trace).
  - `sync.rs`, `int_repr.rs` — one-exchange clock offset and the `i128`/`u128`
    reinterpretations it relies on.
  - `stereo_core/` — the stereo master/slave logic: sliding-median clock sync,
    jitter buffer, mixer, playback timeline, the master's frame loop and
    slave sessions as state machines, packet bookkeeping.
  - `net/`, `audio/`, `config.rs`, `pcm.rs` — packets, discovery addresses,
    pacing, stereo sample splitting and the audio scene presets.
  - `client/` — audio configuration validation, recording conversion and the
    recorder's states, the TTS queue state machine, the retry backoff, the
    handling of instruction-log lines, speaker scripts and keyword-log parsing.
  - `text.rs` — string search, trimming, replacing and decimal formatting.
- `tests/` — tests run against the compiled library.
- `app/` — the program around the library: sockets, ALSA, Opus, files,
  processes and the async loops that feed the library its inputs.

# lightseek

The verified core of a desktop music player and DJ mixer.

- `src/` is the library, written in Verus: every function is proved against
  its contract. Where a value comes from another thread (the shared mixer
  levels, a deck's ring buffer), the contract states nothing of that value. It holds the player's decisions and data rules:
  the audio engine's control state machine, the decoding thread's packet
  and position decisions, stereo framing and channel
  splitting, the spectrum's bit-reversal order, waveform bars, library
  queries and schema migrations, playlist positions, settings storage, the
  extension registry, track identifiers and rescan rules, cover file naming,
  the conversion of cover pictures into stored JPEGs (through the `image` crate)
  and artwork matching, M3U export, and the `stream://` byte-range protocol.
- `tests/` runs the library on concrete values.
- `app/` is the application around it: the window and commands, the
  database, file and network access, decoding, resampling, filtering and the
  audio output thread. Floating-point signal processing lives there too.

`Cargo.toml` names the outside crates used by the library (BLAKE3 hashing,
image conversion, ring buffers,
percent decoding) and by the application.

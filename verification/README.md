# rustconsole

The logic of a remote desktop for one local network, proved with Verus: the
messages that a host and a player exchange, the datagrams that carry video, audio
and input, the login that both sides prove a password with, and what the player
does with a stream until it is shown and heard.

## Layout

- `src/protocol` - versions, features, displays, audio, AV1 and input, and their
  encoding on the wire (`wire`).
- `src/session` - cutting frames and packets into datagrams and putting them
  together again, the login, its rate limit, the phases of a session and its
  statistics.
- `src/player` - ordering, playback and concealment of audio, the newest frame of
  video, the loops of a stream, input, clocks, and the protocol between the
  player and the process that starts it.
- `src/render` - choices that a renderer makes: devices, formats, swapchains,
  planes of a frame and the atlas of the glyphs.
- `src/driver` - the virtual mouse and keyboard of a Windows host: the ring in
  shared memory, the requests of the system and the worker that hands reports on.
- `src/bytes.rs`, `src/digest.rs`, `src/secret.rs`, `src/text.rs`, `src/time.rs` -
  what the others share.
- `tests` - tests that run the library.
- `app` - ordinary Rust around it: connections, pipes, devices, windows and the
  clock.

Functions whose names start with `law_` state what holds of several functions at
once.

## What is trusted

Calls into `opaque-ke`, `sha2`, `prost`, `ash`, `rand` and `zeroize`, and the call
of `String::from_utf8` of the standard library, stand behind small wrappers, each
with a comment that says what is believed of the call. All else in `src` is
proved.

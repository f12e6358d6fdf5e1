# dns_checker

Tests DNS servers and ranks them. For each server it measures

- the latency: how long a TCP connection to it takes, averaged over several tries;
- the resolve quality: a list of domains is resolved through the server, every address that comes
  out is pinged, and the latencies are averaged.

Both can go through a SOCKS5 proxy, and resolving can go over HTTPS with TCP as the fallback. Out of
the two measurements, the support for encryption and a recommendation comes a score.

## Layout

- `src/` is the library, verified with Verus. It does no I/O: wherever a protocol alternates between
  the network and a decision, the library offers a state machine whose `step` takes in what happened
  and names the next action.
  - `dns`, `dns_laws`, `socks5`: wire formats, and what holds of them.
  - `addr`, `ip`, `time`, `error`, `text`: plain values.
  - `lookup`, `ping`, `quality`: queries, pings and checks, as state machines.
  - `stats`, `score`: what is computed from the measurements.
  - `collector`, `servers`, `board`, `semaphore`, `icon`: what stands behind the window.
- `app/` is the window, and what performs the actions on the network.
- `tests/` runs the library.

The window looks for its icon in `icons/WindowIco.png` and for a font with Chinese glyphs in
`fonts/MainFont.ttf`; it does without either.

## Trust

Three items in `src/icon.rs` are trusted, all about the `image` crate: `decode`, which calls it;
`decoded_rgba`, the name for what it decodes; and the declaration of its error type. Everything else
in `src/` is proved, down to what vstd states of the standard library.

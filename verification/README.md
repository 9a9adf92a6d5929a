# flights

Track the nearest airborne flight to a fixed Home.

A server polls one source of flights at a pace of its own choosing, merges every poll into the
tracks it holds, and answers over a small REST API. Its clients only show what it computed: a
radar in the terminal, a status module for Waybar, and a page. A second radar polls for itself.

The library under `src/` is written in Verus: what each function does stands in its contract
and is proved.

- `number`, `decimal`, `span`, `order`, `text`: IEEE-754 numbers as bit patterns with exact
  comparisons and decimal printing, lengths of time, stable sorting, and strings.
- `server`: the tracker that merges polls and tells contact from lost contact (`tracker`,
  `tracker_laws`), the readsb feed (`readsb`, `sources`), the poll cadence and backoff
  (`poller`), the configuration, the answers (`api`), the routes (`http`) and the command
  line's words (`report`).
- `api`, `client`, `display`, `detail`, `selection`: what the clients share.
- `tui`, `waybar`, `web`, `standalone`: one module for each of them.
- `args`: the command lines.

Proof functions named `law_...` state what holds across functions: that an omitted flight is
kept and frozen rather than dropped, that only a flight in contact paces, that the nearest flight
comes first, that waits stay within their bounds, that escaping loses nothing, and so on.

`app/` is ordinary Rust around the library: HTTP, the terminal, the canvas, files, serde, and
the spherical geometry, which is floating point. `tests/` runs the library.

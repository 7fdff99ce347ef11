# multiobs

A Stream Deck plugin that drives any number of named OBS Studio instances over
OBS WebSocket v5, with its core written in Verus and proved against its
contracts.

## Layout

- `src/` is the verified library.
  - `config.rs`: instances, groups and target selection.
  - `contracts.rs`: the settings a key and the plugin store, and their defaults.
  - `kind.rs`: what each action kind shows and confirms.
  - `ops.rs`: the request protocol of every key press, state refresh and
    catalog listing, as steps that name the next OBS request.
  - `pool.rs`: the connection pool's bookkeeping: supervisors, generations,
    clients, statuses and backoff.
  - `raw.rs`: the raw OBS WebSocket session protocol: handshake, ids,
    messages and answers.
  - `render.rs`: strip segments, initials, icons and the image data URL.
  - `state.rs`: the plugin's live keys, presses, titles, painting and catalogs.
  - `json.rs`, `text.rs`, `table.rs`, `status.rs`: JSON readings, text
    helpers, an ordered text-keyed table, and connection statuses.
- `app/` is the plugin process: Stream Deck actions, the OBS client calls, the
  asynchronous tasks, and the settings as Stream Deck stores them.
- `tests/` runs the library on concrete values.

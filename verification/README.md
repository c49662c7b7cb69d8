# mod_tile_rs

The logic of a tile module for the Apache 2 web server, verified with Verus.

The module serves map tiles that renderd renders into meta tiles: files that
hold 8 × 8 tiles behind a small index. It answers three kinds of requests —
the TileJSON description of a layer, a statistics report, and tiles — and
keeps telemetry of what it read, handled and wrote.

## Layout

- `src/` — the verified library.
  - `meta_tile` — where a tile's meta tile lives in the store, the layout of
    a meta tile file, and picking one tile out of it.
  - `handler` — the description, statistics and tile handlers, and the
    dispatch of a request to the handler of what it asks for.
  - `telemetry` — counters, the response and tile handling analyses, the
    cache and render analyses, and the laws their counts obey.
  - `writer`, `http` — writing responses: entity tags, caching headers, and
    writing a payload in the pieces a connection takes; every call handed to
    the connection is recorded, so the contracts say what each response sends.
  - `renderer`, `communication`, `storage`, `context`, `config`, `slippy`,
    `tile`, `time`, `text`, `sums` — the requests to renderd, the channels and
    stores the handlers use (the file system store keeps the meta tiles it
    read, up to a limit), and the values all of these share.
- `tests/` — tests of the library on concrete values.
- `app/` — what reaches outside the process: the meta tile files on disk,
  the renderd socket, a writer over a byte stream, the clock, and the JSON
  documents of the responses.

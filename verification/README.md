# Eiger

Eiger is a self-hosted headless-browser automation API. It gives Puppeteer and Playwright a
stable Chrome DevTools Protocol endpoint and plain HTTP clients a few endpoints of their own,
and owns the browsers behind them: their launch, their limits, their health and their end.

## Layout

- `src/` is the library. It holds every decision of the server, each with a contract that
  Verus proves.
  - `text`, `json`, `span`, `id`: texts, JSON values, lengths of time and session names.
  - `config`: the configuration, as environment variables give it.
  - `stealth`, `cdp`: the disguise of pages, and the commands and answers of the protocol.
  - `browser`: finding, launching, watching and stopping a browser.
  - `metrics`: the process table, and the metrics in the text form of Prometheus.
  - `pool`: the sessions, the room that they take up, and when they are recycled.
  - `proxy`: the relay between a client and its browser.
  - `rest`: one-shot jobs that scrape a page, take a picture of it or print it.
  - `rate_limit`: how many requests an address or a token may make.
  - `api`: who may ask for what, and how it is answered.
- `app/` is the server around the library: sockets, processes, files and clocks.
- `tests/` runs the library.

## Laws

Functions named `law_...` state what holds across several functions: that sessions with those
being launched and ended stay within the limit, that a session has one client, that the pool is
ready only once a launch has succeeded, that answers to
commands of the proxy never reach the client, that no target is left waiting for the debugger,
that a rate is kept over any stretch of time, and the like.

## Trust

Calls into `serde`, `serde_json`, `dashmap`, `uuid`, `base64` and `urlencoding`, the formatting of
`std::time::Duration` and `String::push` have contracts that are not proved but say what those
crates do. Each says so in its comment.

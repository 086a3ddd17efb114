# match_core

The core of a single-pair matching engine, with its logic proved by Verus.

- `src/` is the verified library:
  - `engine/`: an identifier-keyed FIFO (`LinkedHashmap`) and a
    price-time priority order book that matches and cancels, with the laws
    of matching in `book_laws.rs`.
  - `kernel/`: sequencing, deduplication, the per-command decision step of
    the engine, and the lines of its append-only log.
  - `domain/`: the book of accepted orders keyed by price level.
  - `transport/`: validation of order requests and the replies they get.
  - `config/`, `events/`, `recovery/`, `storage/`: configuration
    defaults, bus selection, log loading and replay, and the manifest file.
- `app/` is the process around it: configuration loading, threads and
  channels, the write-ahead log file, the event bus, and the order-ingress
  handlers.
- `tests/` exercises the library on concrete values.

# lulu_logs

Logs and heartbeats over MQTT: producers publish FlatBuffers `LogEntry` payloads on
`lulu/{source}/{attribute}` and JSON heartbeats on `lulu-pulse/{source}`; a viewer collects
them, correlates test scenarios, filters, pins values and exports what is visible.

## Layout

- `src/` — the verified library (Verus).
  - `topic` — topic grammar, building and routing (`route_topic`), with the round-trip laws.
  - `data`, `decode`, `numfmt`, `escape`, `text` — encoding of published values and their
    decoding into display text.
  - `level`, `scenario`, `span`, `entry`, `json` — the message model and what is read from
    JSON payloads.
  - `state`, `sorted`, `lens_pin`, `pulse`, `view`, `timefmt` — the viewer's state machine:
    ingestion, filters, scenario correlation, Lens pins, heartbeats, row labels.
  - `export` — the `.lulu` export of the visible logs.
  - `client` — the producer's state: initialisation, validation, queueing, heartbeats.
  - `framing`, `config` — length-prefixed record streams, broker defaults, client identifiers.
  - `fbb` — the FlatBuffers builder, described by the calls made on it; the tables
    (`LogEntry`, `LogRecord`, the export file) are laid out by verified code.
- `tests/` — executable tests of the library.
- `app/` — the program around it: embedded broker, MQTT listener, console, writing the export file,
  the producer runtime and the file benchmark. Verus does not see it.

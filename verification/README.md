# standx_connector

A StandX perpetuals connector for an HFT trading engine, with its core
verified in Verus.

- `src/` — the verified library:
  - `ordermanager.rs`: the order book of submitted orders (client order id ↔
    engine order id), with its invariant and the transitions driven by stream
    and REST reports; `order_laws.rs` holds the laws about it.
  - `connector.rs`: the decisions around submitting and canceling orders, the
    wait between reconnection attempts, and the set of subscribed symbols.
  - `stream.rs`: the private stream's authentication and subscription steps.
  - `rest.rs`: the client's endpoints, signing-key reading and request signing.
  - `msg.rs`, `types.rs`: messages, wire texts and the order model.
  - `config.rs`, `text.rs`, `encoding.rs`, `clock.rs`, `error.rs`: settings,
    text and byte encodings, the clock, errors.
- `app/` — the I/O around it: serde forms, HTTP, WebSockets, task loops and
  the floating-point reading of reported numbers.
- `tests/` — tests of the library.

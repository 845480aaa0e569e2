# binary_options_tools

A client library for binary-options trading platforms (PocketOption and
ExpertOption), written in Verus: its logic carries `requires`/`ensures`
contracts that Verus proves.

## Layout

- `src/` — the verified library.
  - `pocketoption/ssid.rs` — reading session identifiers (`42["auth",{...}]`).
  - `pocketoption/deals.rs` — routing deal-list messages and releasing the
    callers waiting for a trade to close.
  - `pocketoption/deal_book.rs` — finding the deal list of a payload (a
    closed order's deals, or a plain list), and the book of opened and
    closed deals that a list updates.
  - `pocketoption/pending_trades.rs` — framing server answers and pairing
    them, oldest first, with pending-order requests; waiting for an answer.
  - `pocketoption/connect.rs`, `expertoptions/connect.rs` — the order in
    which servers are tried, and the WebSocket upgrade request.
  - `expertoptions/types.rs` — the tradable assets, by symbol.
  - `validator.rs`, `uni/` — message validators and the binding layer.
  - `codegen/` — what the procedural macros decide: the rule language and
    the plan of a lightweight module.
  - `json.rs`, `ids.rs`, `text.rs`, `numbers.rs`, `message.rs`,
    `connector.rs` — plain models of JSON, UUIDs, text and messages, and the
    calls into `serde_json`, `uuid`, `regex`, `url` and `syn` they rest on.
- `tests/` — tests of the library.
- `app/` — runtime glue: PHP and serde decoding, documentation files,
  floating point, and the async loops that drive the state machines.

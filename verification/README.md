# revolt_core

The core logic of the Revolt chat backend, with its behaviour stated in
contracts and proved by Verus.

- `src/` — the verified library:
  - `protocol` — the gateway handshake's query string and protocol configuration;
  - `subscriptions`, `active_servers`, `gateway`, `connection` — a gateway
    client's topics, the servers it is looking at, the
    decisions of its connection, listener and worker loops, and the broker
    commands that follow subscription changes;
  - `coalesced` — coalescing of duplicate actions under concurrency and queue limits;
  - `accounts` — accounts, MFA (TOTP, recovery codes, passwords) and the
    account life cycle;
  - `admin`, `table`, `reference_db` — moderation records and the in-memory
    reference database with its queries;
  - `settings`, `drivers`, `broker`, `migrations`, `bridge` — configuration
    rules, database selection, event stream and push notification decisions,
    database migration steps, and the chat bridge's reply rule;
  - `text`, `timestamp`, `errors` — shared helpers.
- `tests/` — tests of the library on concrete values.
- `app/` — the code around it: wire formats (serde), the WebSocket handshake
  callback, the asynchronous coalescing driver, the listener's use of the
  subscription state, the
  RabbitMQ event stream and push notifications, and start-up checks.

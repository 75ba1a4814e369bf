# mt5_panel

The decision logic of a small MetaTrader 5 trading panel, verified with Verus.
The panel opens hedged positions on two MT5 terminals ("place on both", and the
Exness copy hedge where Broker B opens the full volume and Exness opens
volume ÷ N), keeps the pairs it opened in sync (when one leg closes, the other
is closed), protects positions opened on a single account (FixedLot) from that
hedge logic, runs a background worker that places orders at random intervals,
and sends Telegram spread alerts.

## Layout

- `src/` — the verified library. Each module states its operations over
  mathematical models (`Seq`, `Map`, spec functions) and proves them:
  - `accounts`, `clones`, `settings` — the fixed accounts, Exness terminal
    clone folders, persisted settings and the copy count N;
  - `orders`, `bridge`, `json`, `positions` — sides and volumes of orders,
    what the Python bridge answers, and the open positions it lists;
  - `pairs`, `tickets`, `orphan` — tracked pairs, the hedge sync pass, the
    single-account ticket registry and the watchers' orphan requests;
  - `worker`, `clock`, `draw` — the worker's configuration, schedule, symbol
    choice and run records;
  - `history`, `requests`, `telegram` — pairing closed deals, request
    parsing, and the Telegram subscribers and alerts;
  - `text`, `lexorder` — character-level string helpers and the
    lexicographic order used for sorting.
- `tests/` — tests of the library on concrete values.
- `app/` — the HTTP server (axum), the Python bridge process, file storage,
  and the floating-point parts (volumes, pips, delays in minutes).

Outside crates are reached from `src/` only through a few small trusted
wrappers (`serde_json` parsing, `chrono` timestamps, `rand` draws and std case
mapping), each documented with what its contract claims.

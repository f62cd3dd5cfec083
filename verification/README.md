# pane

The verified core of the Pane usage monitor's quota alerts and Devin
provider.

- `src/alerts.rs`: the pace-based notification rules ("Almost Out",
  "Cutting It Close", "Will Run Out"), specified as a fold over cards and
  rows; `src/alert_laws.rs` proves what they promise across refreshes
  (silent baseline, once per state, re-arming, new-period wipe, forgetting a
  card), and `src/refresh_laws.rs` states re-arming and the new-period wipe
  over a whole refresh of all cards.
- `src/metric_state.rs`: the per-metric alert memory, a map keyed by
  `"{card id}:{row label}"`.
- `src/pace.rs`: the integer part of the pace projection and the clock.
- `src/devin.rs`, `src/devin_usage.rs`, `src/seen_messages.rs`,
  `src/usage_cache.rs`: Devin credentials (HTTPS only), the status request
  and answer, quota rows, and the selection of billable events from the
  CLI's session store.
- `src/json.rs`: the lookups into JSON and TOML text, made by serde_json and
  toml.
- `src/text.rs`: character-level string helpers.
- `app/`: the process-wide state, settings, files, environment, HTTP and
  SQLite access, and the floating-point percent and token arithmetic.

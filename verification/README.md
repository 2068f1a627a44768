# circuitdeck_backend

Backend of a Factorio telemetry dashboard: a small JSON API that asks
Prometheus for game metrics and shapes the answers into dashboard reports.

- `src/` is the verified library. It holds the time ranges and PromQL
  catalogue, the requests sent to Prometheus and the reading of its replies,
  the mapping from query results to reports, the error model and the
  configuration rules. Every function carries a contract proved by Verus.
  Sample values travel as `f64` bit patterns, so no floating-point arithmetic
  happens in the library.
- `app/` is the server around it: configuration from the environment, the
  HTTP client, the axum routes, serde shapes of the wire formats, and the
  conversion of reports into JSON numbers.
- `tests/` runs the library on concrete values.

Routes: `/api/health`, `/api/overview`, `/api/production`, `/api/power`,
`/api/factory`, `/api/logistics`, `/api/trains`, `/api/research`,
`/api/platforms`; the historical ones take `?range=1h|6h|24h|7d`.

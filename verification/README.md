# backend2

The server behind a die-imaging tool: users upload a die shot, the server cuts
it into a zoom pyramid of JPEG tiles, and an editor draws nets, cells, cell
types and other annotations over it.

- `src/` is the library, verified with Verus: the tile pyramid (`tiles`), the
  stored annotations and the editor forms they travel in (`params`), the
  checks on an uploaded shot and the clips of cells (`jobs`), the settings
  (`config`), the subscriptions of a websocket client (`realtime`) and the
  machine-learning backend's interface (`ml`).
- `app/` is the HTTP server around it (axum, sqlx, tokio): routes, database
  access, the job worker and the websocket loop. It hands the library plain
  values and acts on what comes back.
- `tests/` exercises the library with the real `image` and `reqwest` crates.

# tango_bridge

The logic of Tango Bridge, a tray application that starts ADB and forwards
connections to the Tango web app, as a library verified with Verus.

- `src/` — the verified library:
  - `date`: the Gregorian calendar counted in days from 1970-01-01, and
    `unix_secs_to_date`, proved to give the one valid date of a timestamp's day;
  - `text`: zero-padded decimal text;
  - `pin`: PIN generation, the PIN file's location, the startup decision and
    the PIN cell;
  - `keys`, `challenge`, `token`: the trusted public keys (build-time and
    run-time comma-separated lists), the challenges handed out and their
    one-hour lifetime, and Ed25519 tokens over a live challenge;
  - `ping`: the JSON answer to `GET /bridge/ping`;
  - `date_order`: the order and shape of date texts in the years 0 to 9999;
  - `params`, `auth`: query parameters and the authentication decision;
  - `adb_flow`: the connect / start / retry procedure for the ADB server;
  - `bridge`, `ui`, `proxy`: the decisions of the WebSocket pump, the tray
    menu and the HTTP proxy.
- `tests/` — tests of the library.
- `app/` — the program around it: files, processes, sockets,
  the HTTP server and the tray icon.

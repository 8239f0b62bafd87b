# lrclib

A client for LRCLIB servers, which hold song lyrics. The library under `src/` makes the decisions and
is verified with Verus; the crate under `app/` talks to the server.

- `get`, `search`: the two requests, and what their answers mean
- `http`: how a request is put together, and when it is sent again
- `lookup`: which searches follow the request for one track, and what they come to
- `fallback`, `duration`, `names`: how a track that was found is compared with the wanted one
- `text`, `patterns`, `tools`: what these need of the standard library, of the `regex` crate and of
  the application
- `choice`, `spelling`, `course`: what holds of the library as a whole

Durations are floating-point numbers of seconds. The library compares them by their bits; rounding
and subtracting them is left to `app/measure.rs`.

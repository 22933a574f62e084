# gatedesk

The local HTTP API, session bookkeeping, audit and recording-upload rules and
tray decisions of the GateDesk desktop client, as a Verus-verified library.

- `src/` — the verified library. `http_api` is the front door (Host and Origin
  checks, body cap, token, routing); `handlers` turns each endpoint's request and
  outside results into responses and audit events; `sessions` keeps the
  connect-session processes and walks them on disconnect; `record_upload`
  decides what the recording uploader sends and when, and which recordings
  cleanup removes; `audit` and `event` build audit events and notices; `tray`
  holds the tray's choices and its icon data; `scbehavior` the UI engine's
  behaviour codes; `text`, `json` and `url` the string handling they share.
- `tests/` — scenarios run against the compiled library.
- `app/` — the outside work: the tiny_http server, processes, files, HTTP
  requests and the tray's event loop, driven by the library's decisions.

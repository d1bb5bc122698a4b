# slipway

The core of Slipway, a tool that runs "rigs" (pipelines of components) and serves their
output to devices such as eInk screens, written in Verus: each function carries a
contract that the verifier proves.

## Layout

- `src/` — the verified library.
  - `permissions` — command-line permission arguments turned into allow and deny lists.
  - `hex`, `sas`, `clock` — hexadecimal text, HMAC-SHA256 shared access signatures and
    the chrono, chrono-tz and croner calls behind time.
  - `auth`, `api_keys`, `trmnl` — API keys, how a request is authenticated, and the
    TRMNL device endpoints.
  - `schedule`, `refresh` — which playlist item a device shows and when it should call
    again.
  - `repository`, `rig_response`, `pages`, `rotation`, `bmp`, `canvas` — the result
    shape of a rig, images (rotation, one bit bitmaps), HTML pages and generated URLs,
    and the repository of devices, playlists and rigs.
  - `view_model`, `debugger` — the debugger's view of a rig's execution state: groups,
    rows, the rows that feed each component, and shortcuts for handles.
  - `log_level`, `line_buffer`, `package`, `rig_output`, `text`, `errors` —
    smaller pieces used by the command line and the server.
- `tests/` — tests of the library.
- `app/` — the `slipway` program: command line, HTTP server, file I/O, and the
  floating-point image steps.

# transcoder_core

The core of a gateway that answers several chat protocols from one backend.
Requests become prompts, and the backend's text becomes the frames of the
client's protocol. What the library decides on the way stands in functions whose
contracts Verus proves; what it cannot hold (I/O, the services that it calls, the
names of the backend's models) is left to the program around it.

- `src/` is the library. `mapper` says what a protocol is, `anthropic` is one;
  `prompt`, `workspace` and `delta` do its work. `opening` opens the backend's
  stream, `engine` follows it, `reply` collects it into one message, `routing` finds an account,
  `auth` decides on credentials, and `exchange` takes a request from its route to
  its log. `laws`, `pieces` and `blocks` state what holds of whole replies, and
  `frames` what a client reads in each frame.
- `tests/` runs the library on concrete values.
- `app/` is the gateway around it: HTTP handlers, the services behind them, and
  the loops that do what the library asks for.

JSON is read and written by `serde_json`, identifiers come from `uuid`, the time
from `chrono`, and the meaning of gRPC codes from `tonic`. What the library takes
on trust from them stands beside each call, in `json`, `ids` and `engine`; the two
functions of the standard library that are taken on trust stand in `text` and
`workspace`.

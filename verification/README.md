# a2a-rs

Verified core of an A2A (agent-to-agent) toolkit: the STDIO transport's framing and
handshake, the JSON-RPC method table and the decisions a STDIO client and server take on
each frame, the default request handler's task and push-config logic, the REST binding's
paths and error statuses, and the command-line client's requests and configuration file.

## Layout

- `src/` — the library, verified with Verus. Public functions state their results in
  `ensures`; what depends on the disk, the clock or chance is stated for every outcome, and
  the functions that take those outcomes (`pick_config`, `choose_config`, and
  `timestamp_at` for a clock reading) are exact. The
  laws that relate several functions are public proof functions:
  - `framing::lemma_decode_encode` — a written frame reads back, whatever follows it;
  - `framing::lemma_decode_encode_frames` — frames written in a row read back in a row, and
    then the stream ends;
  - `rpc::lemma_route_method_name` — the server routes every method name the client sends
    to the operation it was sent for;
  - `rpc::lemma_stream_stops_unless_notification` — a stream ends exactly at a frame that
    is not a notification;
  - `rpc::lemma_stdio_url_roundtrip`, `rpc::lemma_command_line_roundtrip` — the two forms
    of a STDIO interface URL give back their program and arguments;
  - `handshake::lemma_handshake_read_back`, `handshake::lemma_handshake_ack_read_back` —
    what one side of the handshake writes, the other side accepts;
  - `task::lemma_state_name_roundtrip` — task states read back from their wire names;
  - `push::lemma_sort_by_id_sorts`, `push::lemma_sort_by_id_stable`,
    `push::lemma_next_page_continues` — push configs are listed sorted by id (stably, none
    lost) and each page starts where the previous one ended.
- `tests/` — tests of the library on concrete values.
- `app/` — the I/O around the library: frames on async streams, the handshake's JSON, the
  STDIO client and server loops, the request handler's awaits, the configuration file,
  HTTP calls and routes, the command-line parser, and the loop that prints a stream's events
  (the library's `cli::consume_step` decides on each one).

Requests are built as plain values (`rest::HttpRequest`: method, URL, headers in order),
which the I/O layer hands to `reqwest`. Calls into `uuid`, `chrono`, `reqwest` and `std` that
the library makes stand behind small trusted wrappers whose doc comments say what is assumed
of them.

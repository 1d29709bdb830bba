# kayak

Client-side request dispatch and storage-side extensions of a key-value
store that can ship either data to the client or compute to the data.

- `src/` — the verified library:
  - `headers.rs`: the Ethernet, IPv4 and UDP headers put on every request;
  - `dispatch.rs`: the request generator (`Sender`: header construction,
    destination-port selection, request counting) and the response
    receiver (`Receiver`: burst accounting);
  - `ycsbt.rs`: the YCSB-T extension as a resumable state machine, with
    argument parsing, the little-endian table id, the balance transfer and
    its laws (conservation, termination, return codes);
  - `tao.rs`: the TAO extension's instance numbering and greeting.
- `tests/` — tests of the library on concrete values.
- `app/` — the I/O around it: a network port, the database interface that
  runs the YCSB-T transaction, and the debug log of the TAO extension.

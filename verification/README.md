# moqtail

Wire formats and session rules of MOQ Transport (MOQT): variable-length
integers, key-value pairs, tuples and track names, control messages, object
datagrams and stream headers, parameters, properties and extensions, and the
top-N speaker ranking used by relays.

Each encoder and decoder is stated against a specification over byte
sequences and proved by Verus, together with the laws that tie them: what is
written reads back as it was, leaving what follows untouched.

Layout:

- `src/` — the verified library. `buf.rs` holds the trusted contracts of the
  `bytes` calls; `model/` the protocol types; `conformance.rs` the reading of
  the shared conformance fixtures' values; `transport/` the transport kinds and
  their error cases.
- `tests/` — tests on concrete values.
- `app/` — what is not verified: JSON loading of the fixtures, the MSF
  catalog, and the QUIC/WebTransport stream wrappers.

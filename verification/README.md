# dust-devil-core wire format

The byte format in which the dust-devil SOCKS5 server reports its log
events, as a Verus-verified library.

- `src/wire.rs`: big-endian integers, booleans, characters; the write model
  (`Emit`: the bytes put out and whether the value was written in full) and
  the read model (`Parsed`: the value and where it ends, or why the read
  stopped).
- `src/text.rs`: UTF-8 strings with a two-byte or a one-byte length.
- `src/net.rs`, `src/io_error.rs`, `src/users.rs`, `src/socks5.rs`,
  `src/logging.rs`: the values of a log event and their encodings.
- `src/laws.rs`: what holds of writing and reading as a whole: a value
  written in full reads back, and a read never looks past its value.
- `app/lib.rs`: tokio plumbing (writing an event to a stream, reading events
  from one) and conversions from and to `std::net` and `std::io` types.

Every writer appends to a `Vec<u8>` and its contract gives the bytes
exactly; every reader takes a slice and a position and its contract gives
the result exactly, `UnexpectedEof` when the input ends first and
`InvalidData` when the bytes are no value.

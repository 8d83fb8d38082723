# rapace_core

Frame types of the rapace transport layer, verified with Verus.

- `src/desc.rs`: `MsgDescHot`, the 64-byte message descriptor, and its inline payload storage.
- `src/error.rs`: `TransportError`; an I/O failure carries its kind and what it reports.
- `src/frame.rs`: `Frame` and `Payload` (inline or owned bytes).
- `src/handle.rs`: `SendFrame`, conversions between frames and send frames, `Transport`, `QoSClass`, `Prioritized`.
- `src/wire.rs`: the byte layout of a frame on a message-oriented connection (descriptor fields little-endian, then the payload), with the round-trip proofs.
- `src/link.rs`: `LinkState`, the state machine of one connection: closing, sending, and what each received message means.
- `app/lib.rs`: the WebSocket transport over tokio-tungstenite, which performs the I/O, drives `LinkState`, and turns the library's errors into `std::io::Error`s.

`Transport` keeps its four variants, but not the methods `close`, `is_closed`,
`send_frame` and `recv_frame`. Their variants hold no state and the methods do
nothing yet but stop the program, so there is no behaviour to state.

The descriptor is encoded field by field in declaration order, each integer
little-endian, followed by the inline payload storage: the same bytes as the
descriptor's in-memory layout on a little-endian machine.

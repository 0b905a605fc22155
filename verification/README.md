# androservemc

The wire-level core of a Minecraft Bedrock Edition server, verified with Verus.

- `src/util/encoding.rs` — the mathematical model of the Bedrock encodings
  (VarUInt, ZigZag VarInt, fixed-width integers, length-prefixed UTF-8 strings)
  and the laws that reading gives back what writing wrote.
- `src/util/buffer.rs` — a byte buffer with a read cursor; every write and read
  is specified over that model.
- `src/bedrock/responses.rs` — the packets the server sends, each specified
  byte for byte.
- `src/raknet/server/bedrock.rs` — what the server answers to each client
  packet and how the client's session changes, as functions from packet and
  session to new session and outgoing packets.
- `src/raknet/server/batch.rs` — framing of outgoing packets into game-packet
  batches, splitting a batch body back into packets, and DEFLATE compression
  of batch bodies (through `flate2`).
- `app/` — the server binary: command line, logging, the UDP socket and the
  session table. It carries out what the library decides, except what needs
  parts of the full server that this crate does not hold: the RakNet
  reliability layer, the Login parser (so no session completes a login here)
  and the protocol-to-version table.

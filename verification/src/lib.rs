//! AndroServeMC: the wire-level core of a Minecraft Bedrock Edition server.
//!
//! The library holds what the server computes and decides: the byte encodings
//! of the Bedrock protocol (`util`), the packets the server sends (`bedrock`),
//! and the per-packet decisions of a Bedrock session together with the framing
//! of outgoing batches (`raknet::server`). Each function carries a contract
//! over the byte-level specifications in `util::encoding`.
pub mod bedrock;
pub mod raknet;
pub mod util;

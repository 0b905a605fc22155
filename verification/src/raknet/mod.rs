//! The Bedrock layer of the RakNet server.
pub mod server;

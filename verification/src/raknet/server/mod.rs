//! What the server decides for each Bedrock packet, and how it frames the
//! packets it sends.
pub mod batch;
pub mod bedrock;

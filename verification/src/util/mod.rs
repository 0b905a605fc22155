//! Byte encodings and the byte buffer that writes and reads them.
pub mod buffer;
pub mod encoding;

pub use buffer::{Buffer, BufferError};

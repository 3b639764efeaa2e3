//! A minimal HTTP/1.1 protocol core: request parsing, response
//! serialization, error classification, and the per-connection
//! state machine, all specified over byte sequences.
//!
//! The surrounding program supplies the transport (sockets) and the
//! content resolver (file lookup); this crate decides, for every byte
//! of input, what is parsed, what is answered, and when the
//! connection closes.

pub mod bytes;
pub mod request;
pub mod parse;
pub mod response;
pub mod conn;
pub mod laws;

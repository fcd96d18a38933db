//! Reading one block of a Midnight node: the two JSON-RPC calls that turn a
//! block number into the block's data, and the decoding of the transactions
//! that the block's index lists.
//!
//! The library words each request and reads each reply; posting a request
//! is left to the caller. `client` holds the resolution of a block number,
//! `parser` the reading of a block's transaction index, `encoding` the
//! hexadecimal texts of the wire format, `json` the documents, and `error`
//! the failures.

pub mod client;
pub mod encoding;
pub mod error;
pub mod json;
pub mod parser;

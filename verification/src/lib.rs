//! Moving large JSON-array datasets into a remote document store over HTTP,
//! and unpacking the store's multi-statement query responses into row sets.
//!
//! The library holds the verified core: the chunk splitter that partitions an
//! oversized JSON array into bounded-size pieces, the decision logic of the
//! resilient upload client, and the nested-result extractor that walks the
//! store's response envelope. The surrounding process (file and network I/O,
//! the HTTP server) lives outside the library and hands it plain values.

pub mod codec;
pub mod extract;
pub mod json;
pub mod paths;
pub mod splitter;
pub mod text;
pub mod upload;

//! The protocol layer of a command-line HTTP client: taking URLs apart,
//! framing requests for HTTP/1.1 and for a reduced HTTP/2, deciding when a
//! response has been read in full, interpreting it, decoding chunked
//! bodies, following redirects, and choosing the TLS settings.
//!
//! The library computes and decides; it reads no socket and writes no
//! file. A program around it performs the reads, waits and writes that the
//! library asks for.

pub mod args;
pub mod bytes;
pub mod client;
pub mod http;
pub mod http2;
pub mod numbers;
pub mod response;
pub mod text;
pub mod tls;
pub mod utils;

//! Chunked multipart upload for an object-storage gateway: splitting a
//! source into fixed-size parts, keeping the list of parts the backend has
//! accepted, and deciding, answer by answer, which backend call comes next.

pub mod chunker;
pub mod error;
pub mod front;
pub mod parts;
pub mod session;

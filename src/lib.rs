//! Splitting sequencer blocks into signed, hash-linked data-availability blobs,
//! and reassembling verified blocks from retrieved blobs.
pub mod bytes;
pub mod types;
pub mod codec;
pub mod crypto;
pub mod namespace_data;
pub mod assemble;
pub mod reconstruct;
pub mod client;
pub mod laws;

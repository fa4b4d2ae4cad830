//! A proof-shrink-and-publish pipeline: a succinct proof of a logical
//! statement is recursively wrapped to a fixed verification shape, compressed
//! to a flat byte buffer, packaged into fixed-capacity transport chunks
//! ("blobs"), and submitted on chain, where the receipt is checked against
//! the submitter's expectations.

pub mod error;
pub mod statement;
pub mod codec;
pub mod sidecar;
pub mod orchestrator;
pub mod pipeline;

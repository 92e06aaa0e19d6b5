//! Batch lookup of small text records ("questions") by 128-bit identifier.
//!
//! The heart of the crate is the batch-get operation of a key-value store:
//! a single round trip resolving many ids at once, returning the records it
//! found under `responses` and the keys it could not resolve under
//! `unprocessed_keys`, to be resubmitted by the caller.  An in-memory table
//! reproduces exactly the partial-result shape of the hosted store, so that
//! code written against one backend behaves identically against the other.

pub mod attr;
pub mod batch;
pub mod decode;
pub mod laws;
pub mod qid;
pub mod remote;
pub mod store;

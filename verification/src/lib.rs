//! Backend-agnostic text-embedding vocabulary: the error type, the
//! `NullEmbedder` default backend, the `vec0`-compatible byte layout of an
//! embedding vector, the decision logic of the OpenAI-compatible HTTP
//! backend (including checking a response against the batch and putting its
//! embeddings back in batch order), and the local fastembed backend's catalog
//! lookup and embedding with its output checks.
//!
//! An embedding vector is handled here as the sequence of the IEEE-754 bit
//! patterns of its `f32` elements (`f32::to_bits`), which is exactly the
//! information its on-disk layout stores.

pub mod error;
pub mod text;
pub mod vector;
pub mod null;
pub mod order;
pub mod http;
pub mod local;

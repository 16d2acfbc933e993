use vstd::prelude::*;

use crate::error::EmbedError;

verus! {

/// A no-op embedding backend that produces no vectors.
///
/// The zero-dependency default: it needs no model, no network and no API
/// key. Its dimension is `0`, its model name is `"null"`, and `embed`
/// returns an empty batch whatever it is given (not one empty vector per
/// text).
#[derive(Debug, Clone, Copy)]
pub struct NullEmbedder;

impl Default for NullEmbedder {
    fn default() -> (e: Self)
        ensures
            e == NullEmbedder,
    {
        NullEmbedder
    }
}

impl NullEmbedder {
    /// Creates a new `NullEmbedder` (the unit value itself).
    pub fn new() -> (e: Self)
        ensures
            e == NullEmbedder,
    {
        NullEmbedder
    }

    /// Dimensionality of the vectors this backend produces: always `0`.
    pub fn dimension(&self) -> (d: usize)
        ensures
            d == 0,
    {
        0
    }

    /// Identifier of the underlying model: always `"null"`.
    pub fn model_name(&self) -> (name: &'static str)
        ensures
            name@ == "null"@,
    {
        "null"
    }

    /// Embeds a batch of texts: always succeeds with an empty batch of
    /// vectors, whatever the texts (an empty batch included).
    pub fn embed<T>(&self, texts: &[String]) -> (r: Result<Vec<Vec<T>>, EmbedError>)
        ensures
            r matches Ok(vectors) && vectors@.len() == 0,
    {
        Ok(Vec::new())
    }
}

} // verus!

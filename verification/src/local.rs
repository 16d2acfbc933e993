use vstd::prelude::*;
use vstd::string::*;

use crate::error::EmbedError;

verus! {

#[verifier::external_type_specification]
#[verifier::external_body]
pub struct ExEmbeddingModel(fastembed::EmbeddingModel);

#[verifier::external_type_specification]
#[verifier::external_body]
pub struct ExTextEmbedding(fastembed::TextEmbedding);

/// Names what fastembed's catalog (`TextEmbedding::get_model_info`, a
/// lookup in a fixed table) gives for a model: its model code and output
/// dimension, or the catalog's error message.
pub uninterp spec fn catalog_lookup(model: fastembed::EmbeddingModel) -> Result<
    (Seq<char>, usize),
    Seq<char>,
>;

/// Looks `model` up in fastembed's catalog (`TextEmbedding::get_model_info`)
/// and returns its model code and output dimension, or the catalog's error
/// rendered as text; the outcome is named `catalog_lookup` of the model.
#[verifier::external_body]
fn catalog_entry(model: &fastembed::EmbeddingModel) -> (r: Result<(String, usize), String>)
    ensures
        match (r, catalog_lookup(*model)) {
            (Ok((c, d)), Ok((c2, d2))) => c@ == c2 && d == d2,
            (Err(m), Err(m2)) => m@ == m2,
            _ => false,
        },
{
    match fastembed::TextEmbedding::get_model_info(model) {
        Ok(info) => Ok((info.model_code.clone(), info.dim)),
        Err(e) => Err(e.to_string()),
    }
}

/// Runs `model` over `texts` (`TextEmbedding::embed`, default batch size)
/// and returns the bit patterns of each vector's entries, or the model's error
/// rendered as text.
///
/// Inference runs in ONNX Runtime, whose floating-point results are not
/// claimed to be reproducible, so nothing is stated of what comes back.
///
/// `texts` must not be empty: for a dynamically quantized model fastembed
/// takes the batch size from the number of texts, and a batch size of 0
/// makes its chunking panic.
#[verifier::external_body]
fn run_model(model: &fastembed::TextEmbedding, texts: &[String]) -> Result<Vec<Vec<u32>>, String>
    requires
        texts@.len() > 0,
{
    let documents: Vec<&str> = texts.iter().map(String::as_str).collect();
    match model.embed(documents, None) {
        Ok(vectors) => Ok(
            vectors.into_iter().map(|v| v.into_iter().map(|x| x.to_bits()).collect()).collect(),
        ),
        Err(e) => Err(e.to_string()),
    }
}

/// Turns a catalog lookup's outcome into the embedder's terms: a found
/// entry is the model's identity as is, a lookup error becomes a backend
/// failure carrying the catalog's message.
pub fn identity_from_catalog(entry: Result<(String, usize), String>) -> (r: Result<
    (String, usize),
    EmbedError,
>)
    ensures
        match entry {
            Ok((code, dim)) => r matches Ok((c, d)) && c@ == code@ && d == dim,
            Err(msg) => r matches Err(EmbedError::Backend(m)) && m@ == msg@,
        },
{
    match entry {
        Ok(found) => Ok(found),
        Err(msg) => Err(EmbedError::Backend(msg)),
    }
}

/// The identity a local model is known by: its model code (the embedder's
/// model name) and the dimensionality of its vectors, as fastembed's catalog
/// records them. A model missing from the catalog is a backend failure,
/// carrying the catalog's own message.
pub fn model_identity(model: &fastembed::EmbeddingModel) -> (r: Result<(String, usize), EmbedError>)
    ensures
        match catalog_lookup(*model) {
            Ok((c, d)) => r matches Ok((rc, rd)) && rc@ == c && rd == d,
            Err(m) => r matches Err(EmbedError::Backend(rm)) && rm@ == m,
        },
{
    identity_from_catalog(catalog_entry(model))
}

/// `vectors` holds one vector per text of an `n`-text batch, each with
/// `dimension` entries.
pub open spec fn output_fits<T>(vectors: Seq<Vec<T>>, n: nat, dimension: usize) -> bool {
    &&& vectors.len() == n
    &&& forall|i: int| 0 <= i < vectors.len() ==> (#[trigger] vectors[i])@.len() == dimension
}

/// Judges what a model produced for an `n`-text batch: its error becomes a
/// backend failure with the model's message; vectors that are not one per
/// text, or not all of length `dimension`, are refused as a backend
/// failure; fitting vectors are the result as they are.
pub fn model_outcome<T>(n: usize, dimension: usize, produced: Result<Vec<Vec<T>>, String>) -> (r:
    Result<Vec<Vec<T>>, EmbedError>)
    ensures
        match produced {
            Err(msg) => r matches Err(EmbedError::Backend(m)) && m@ == msg@,
            Ok(vectors) => if vectors@.len() != n {
                r matches Err(EmbedError::Backend(m)) && m@
                    == "model output does not match the batch"@
            } else if !output_fits(vectors@, n as nat, dimension) {
                r matches Err(EmbedError::Backend(m)) && m@
                    == "model output holds a vector of the wrong dimension"@
            } else {
                r matches Ok(v) && v@ == vectors@
            },
        },
{
    match produced {
        Err(msg) => Err(EmbedError::Backend(msg)),
        Ok(vectors) => {
            if vectors.len() != n {
                return Err(
                    EmbedError::Backend(String::from_str("model output does not match the batch")),
                );
            }
            let mut i: usize = 0;
            while i < vectors.len()
                invariant
                    i <= vectors@.len(),
                    vectors@.len() == n,
                    produced == Ok::<Vec<Vec<T>>, String>(vectors),
                    forall|a: int| 0 <= a < i ==> (#[trigger] vectors@[a])@.len() == dimension,
                decreases vectors@.len() - i,
            {
                if vectors[i].len() != dimension {
                    return Err(
                        EmbedError::Backend(
                            String::from_str("model output holds a vector of the wrong dimension"),
                        ),
                    );
                }
                i += 1;
            }
            Ok(vectors)
        },
    }
}

/// The abstract configuration of a `LocalEmbedder`: everything but its
/// loaded model.
pub struct LocalEmbedderView {
    pub model_name: Seq<char>,
    pub dimension: usize,
}

/// A local embedding backend backed by a loaded fastembed model (ONNX
/// Runtime plus a small MiniLM-class model). Vectors are given as the bit
/// patterns of their single-precision entries.
pub struct LocalEmbedder {
    model: fastembed::TextEmbedding,
    model_name: String,
    dimension: usize,
}

impl View for LocalEmbedder {
    type V = LocalEmbedderView;

    closed spec fn view(&self) -> LocalEmbedderView {
        LocalEmbedderView { model_name: self.model_name@, dimension: self.dimension }
    }
}

impl LocalEmbedder {
    /// The loaded model this embedder runs.
    pub closed spec fn held_model(&self) -> fastembed::TextEmbedding {
        self.model
    }

    /// Puts together an embedder from a model's identity (see
    /// `model_identity`) and the model, once loaded.
    pub fn assemble(model_name: String, dimension: usize, model: fastembed::TextEmbedding) -> (e:
        Self)
        ensures
            e@ == (LocalEmbedderView { model_name: model_name@, dimension }),
            e.held_model() == model,
    {
        LocalEmbedder { model, model_name, dimension }
    }

    /// Dimensionality of the vectors this embedder produces.
    pub fn dimension(&self) -> (d: usize)
        ensures
            d == self@.dimension,
    {
        self.dimension
    }

    /// The model code of the loaded model.
    pub fn model_name(&self) -> (name: &str)
        ensures
            name@ == self@.model_name,
    {
        self.model_name.as_str()
    }

    /// Embeds a batch of texts with the loaded model. An empty batch gives an
    /// empty result without running the model; otherwise the result holds
    /// one vector per text, each with `dimension` entries, and every failure
    /// is a backend error.
    pub fn embed(&self, texts: &[String]) -> (r: Result<Vec<Vec<u32>>, EmbedError>)
        ensures
            texts@.len() == 0 ==> (r matches Ok(v) && v@.len() == 0),
            r matches Ok(v) ==> output_fits(v@, texts@.len(), self@.dimension),
            r matches Err(e) ==> e is Backend,
    {
        if texts.len() == 0 {
            return Ok(Vec::new());
        }
        model_outcome(texts.len(), self.dimension, run_model(&self.model, texts))
    }
}

} // verus!

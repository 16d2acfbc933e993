use vstd::prelude::*;
use vstd::string::*;

verus! {

/// Errors that can occur while producing or (de)serializing embeddings.
///
/// Kept to two variants: callers handling embedding failures generically
/// only need to know whether the *input* was unusable or the *backend*
/// failed to produce a result.
#[derive(Debug)]
pub enum EmbedError {
    /// The input itself was unusable, independent of any backend.
    InvalidInput(String),
    /// The underlying model or service failed to produce embeddings.
    Backend(String),
}

/// The result type of every embedding operation.
pub type Result<T> = std::result::Result<T, EmbedError>;

/// The human-readable rendering of an error: a fixed prefix naming the
/// variant, followed by the message it carries.
pub open spec fn error_text(e: EmbedError) -> Seq<char> {
    match e {
        EmbedError::InvalidInput(msg) => "invalid input: "@ + msg@,
        EmbedError::Backend(msg) => "embedding backend error: "@ + msg@,
    }
}

impl EmbedError {
    /// Renders the error for humans (what `Display` prints for it).
    pub fn to_string(&self) -> (s: String)
        ensures
            s@ == error_text(*self),
    {
        match self {
            EmbedError::InvalidInput(msg) => {
                let s = String::from_str("invalid input: ");
                s.concat(msg.as_str())
            },
            EmbedError::Backend(msg) => {
                let s = String::from_str("embedding backend error: ");
                s.concat(msg.as_str())
            },
        }
    }
}

} // verus!

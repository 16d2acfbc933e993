use rusty_embedder::error::EmbedError;
use rusty_embedder::null::NullEmbedder;

#[test]
fn dimension_is_zero() {
    assert_eq!(NullEmbedder.dimension(), 0);
}

#[test]
fn model_name_is_null() {
    assert_eq!(NullEmbedder.model_name(), "null");
}

#[test]
fn embed_returns_empty_regardless_of_input() {
    let texts = vec!["a".to_string(), "b".to_string()];
    assert_eq!(
        NullEmbedder::new().embed::<f32>(&texts).unwrap(),
        Vec::<Vec<f32>>::new()
    );
}

#[test]
fn embed_handles_empty_batch_without_panicking() {
    assert_eq!(
        NullEmbedder::new().embed::<f32>(&[]).unwrap(),
        Vec::<Vec<f32>>::new()
    );
}

#[test]
fn default_is_the_same_unit_embedder() {
    let e: NullEmbedder = Default::default();
    assert_eq!(e.dimension(), 0);
    assert_eq!(e.model_name(), "null");
}

#[test]
fn error_renders_variant_prefix_and_message() {
    let invalid = EmbedError::InvalidInput("bad blob".to_string());
    let backend = EmbedError::Backend("boom".to_string());
    assert_eq!(invalid.to_string(), "invalid input: bad blob");
    assert_eq!(backend.to_string(), "embedding backend error: boom");
}

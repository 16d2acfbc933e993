use rusty_embedder::error::EmbedError;
use rusty_embedder::http::{
    render_debug, trim_trailing_slashes_str, EmbedAction, EmbedEvent, HttpEmbedder,
    OPENAI_API_KEY_ENV, OPENAI_BASE_URL,
};
use rusty_embedder::order::{order_by_index, IndexedEmbedding};

fn client() -> reqwest::blocking::Client {
    reqwest::blocking::Client::new()
}

fn texts(items: &[&str]) -> Vec<String> {
    items.iter().map(|t| t.to_string()).collect()
}

fn keyed(base_url: &str, model: &str, dimension: usize, key: &str) -> HttpEmbedder {
    match HttpEmbedder::with_api_key_env(
        base_url,
        model,
        dimension,
        "RUSTY_EMBEDDER_TEST_KEY",
        Some(key.to_string()),
        client(),
    ) {
        Ok(e) => e,
        Err(e) => panic!("{}", e.to_string()),
    }
}

fn finish<T>(action: EmbedAction<'_, T>) -> Result<Vec<Vec<T>>, EmbedError> {
    match action {
        EmbedAction::Finish(r) => r,
        EmbedAction::Post { .. } => panic!("unexpected POST"),
        EmbedAction::ReadBody => panic!("unexpected body read"),
    }
}

fn backend_message<T: std::fmt::Debug>(r: Result<T, EmbedError>) -> String {
    match r {
        Err(EmbedError::Backend(msg)) => msg,
        other => panic!("expected a backend error, got {:?}", other),
    }
}

#[test]
fn embeds_a_batch_and_reorders_by_index() {
    let embedder = keyed("http://127.0.0.1:9/", "test-model", 2, "test-key");
    let batch = texts(&["a", "b"]);

    match embedder.embed_step::<f32>(&batch, EmbedEvent::Start) {
        EmbedAction::Post { url, model, input, bearer } => {
            assert_eq!(url, "http://127.0.0.1:9/embeddings");
            assert_eq!(model, "test-model");
            assert_eq!(input, &batch[..]);
            assert_eq!(bearer.as_deref(), Some("test-key"));
        }
        _ => panic!("a non-empty batch must be posted"),
    }
    assert!(matches!(
        embedder.embed_step::<f32>(
            &batch,
            EmbedEvent::Responded { status: 200, status_text: "200 OK".to_string() }
        ),
        EmbedAction::ReadBody
    ));
    let data = vec![
        IndexedEmbedding { index: 1, embedding: vec![0.4f32, 0.5] },
        IndexedEmbedding { index: 0, embedding: vec![0.1f32, 0.2] },
    ];
    let vectors = finish(embedder.embed_step(&batch, EmbedEvent::BodyRead(data))).unwrap();
    assert_eq!(vectors, vec![vec![0.1, 0.2], vec![0.4, 0.5]]);
}

#[test]
fn empty_batch_returns_empty_without_a_request() {
    let embedder = HttpEmbedder::new("http://127.0.0.1:9", "test-model", 2, client());
    assert_eq!(
        finish(embedder.embed_step::<f32>(&[], EmbedEvent::Start)).unwrap(),
        Vec::<Vec<f32>>::new()
    );
}

#[test]
fn non_success_status_becomes_a_backend_error() {
    let embedder = HttpEmbedder::new("http://127.0.0.1:9", "test-model", 2, client());
    let err = finish(embedder.embed_step::<f32>(
        &texts(&["a"]),
        EmbedEvent::Responded { status: 401, status_text: "401 Unauthorized".to_string() },
    ))
    .unwrap_err();
    assert!(matches!(err, EmbedError::Backend(_)));
    assert_eq!(
        err.to_string(),
        "embedding backend error: embeddings endpoint returned HTTP 401 Unauthorized"
    );
}

#[test]
fn debug_impl_redacts_the_api_key() {
    let embedder = keyed("http://example.invalid", "test-model", 2, "super-secret");
    let debug_output = embedder.debug_string();
    assert!(!debug_output.contains("super-secret"));
    assert!(debug_output.contains("<redacted>"));
    assert_eq!(
        debug_output,
        "HttpEmbedder { base_url: \"http://example.invalid\", model: \"test-model\", dimension: 2, api_key: Some(\"<redacted>\") }"
    );
}

#[test]
fn missing_env_var_is_an_invalid_input_error_not_a_panic() {
    let err = match HttpEmbedder::with_api_key_env(
        "http://example.invalid",
        "m",
        2,
        "RUSTY_EMBEDDER_DOES_NOT_EXIST",
        None,
        client(),
    ) {
        Err(err) => err,
        Ok(_) => panic!("an unset key variable must be refused"),
    };
    assert!(matches!(err, EmbedError::InvalidInput(_)));
    assert_eq!(
        err.to_string(),
        "invalid input: environment variable `RUSTY_EMBEDDER_DOES_NOT_EXIST` is not set"
    );
}

#[test]
fn debug_without_key_says_none() {
    let embedder = HttpEmbedder::new("http://h/v1//", "m\"q", 1536, client());
    assert_eq!(
        embedder.debug_string(),
        "HttpEmbedder { base_url: \"http://h/v1\", model: \"m\\\"q\", dimension: 1536, api_key: None }"
    );
}

#[test]
fn base_url_loses_every_trailing_slash() {
    assert_eq!(trim_trailing_slashes_str("http://localhost:8000/v1///"), "http://localhost:8000/v1");
    assert_eq!(trim_trailing_slashes_str("///"), "");
    assert_eq!(trim_trailing_slashes_str("http://a/b"), "http://a/b");
    let embedder = HttpEmbedder::new("http://localhost:8000/v1/", "m", 3, client());
    assert_eq!(embedder.embeddings_url(), "http://localhost:8000/v1/embeddings");
    assert_eq!(embedder.model_name(), "m");
    assert_eq!(embedder.dimension(), 3);
}

#[test]
fn openai_uses_the_openai_endpoint_and_key_variable() {
    assert_eq!(OPENAI_API_KEY_ENV, "OPENAI_API_KEY");
    let embedder =
        match HttpEmbedder::openai("text-embedding-3-small", 1536, Some("sk-x".to_string()), client()) {
            Ok(e) => e,
            Err(e) => panic!("{}", e.to_string()),
        };
    assert_eq!(embedder.embeddings_url(), format!("{}/embeddings", OPENAI_BASE_URL));
    assert_eq!(embedder.dimension(), 1536);
    match HttpEmbedder::openai("text-embedding-3-small", 1536, None, client()) {
        Err(EmbedError::InvalidInput(msg)) => {
            assert_eq!(msg, "environment variable `OPENAI_API_KEY` is not set")
        }
        _ => panic!("an unset key variable must be refused"),
    }
}

#[test]
fn keyless_embedder_posts_without_bearer() {
    let embedder = HttpEmbedder::new("http://h", "m", 2, client()).with_client(client());
    let batch = texts(&["only"]);
    match embedder.embed_step::<f32>(&batch, EmbedEvent::Start) {
        EmbedAction::Post { url, input, bearer, .. } => {
            assert_eq!(url, "http://h/embeddings");
            assert_eq!(input, &batch[..]);
            assert!(bearer.is_none());
        }
        _ => panic!("a non-empty batch must be posted"),
    }
}

#[test]
fn transport_and_body_failures_are_backend_errors() {
    let embedder = HttpEmbedder::new("http://h", "m", 2, client());
    let batch = texts(&["a"]);
    assert_eq!(
        backend_message(finish(embedder.embed_step::<f32>(&batch, EmbedEvent::SendFailed))),
        "request to embeddings endpoint failed"
    );
    assert_eq!(
        backend_message(finish(embedder.embed_step::<f32>(&batch, EmbedEvent::BodyUnreadable))),
        "could not parse embeddings response"
    );
    assert!(matches!(
        embedder.embed_step::<f32>(
            &batch,
            EmbedEvent::Responded { status: 299, status_text: "299 <unknown status code>".to_string() }
        ),
        EmbedAction::ReadBody
    ));
    assert!(matches!(
        embedder.embed_step::<f32>(
            &batch,
            EmbedEvent::Responded { status: 300, status_text: "300 Multiple Choices".to_string() }
        ),
        EmbedAction::Finish(Err(EmbedError::Backend(_)))
    ));
}

#[test]
fn response_with_fewer_vectors_than_texts_is_refused() {
    let embedder = HttpEmbedder::new("http://h", "m", 2, client());
    let batch = texts(&["a", "b"]);
    let data = vec![IndexedEmbedding { index: 0, embedding: vec![0.1f32, 0.2] }];
    assert_eq!(
        backend_message(finish(embedder.embed_step(&batch, EmbedEvent::BodyRead(data)))),
        "embeddings response does not match the batch"
    );
}

#[test]
fn response_with_repeated_or_out_of_range_index_is_refused() {
    let embedder = HttpEmbedder::new("http://h", "m", 1, client());
    let batch = texts(&["a", "b"]);
    let repeated = vec![
        IndexedEmbedding { index: 0, embedding: vec![1.0f32] },
        IndexedEmbedding { index: 0, embedding: vec![2.0f32] },
    ];
    assert_eq!(
        backend_message(finish(embedder.embed_step(&batch, EmbedEvent::BodyRead(repeated)))),
        "embeddings response does not match the batch"
    );
    let out_of_range = vec![
        IndexedEmbedding { index: 0, embedding: vec![1.0f32] },
        IndexedEmbedding { index: 2, embedding: vec![2.0f32] },
    ];
    assert_eq!(
        backend_message(finish(embedder.embed_step(&batch, EmbedEvent::BodyRead(out_of_range)))),
        "embeddings response does not match the batch"
    );
}

#[test]
fn response_vector_of_wrong_dimension_is_refused() {
    let embedder = HttpEmbedder::new("http://h", "m", 2, client());
    let batch = texts(&["a"]);
    let data = vec![IndexedEmbedding { index: 0, embedding: vec![0.1f32] }];
    assert_eq!(
        backend_message(finish(embedder.embed_step(&batch, EmbedEvent::BodyRead(data)))),
        "embeddings response holds a vector of the wrong dimension"
    );
}

#[test]
fn ordering_is_stable_for_equal_indices() {
    let data = vec![
        IndexedEmbedding { index: 2, embedding: "c" },
        IndexedEmbedding { index: 0, embedding: "a1" },
        IndexedEmbedding { index: 1, embedding: "b" },
        IndexedEmbedding { index: 0, embedding: "a2" },
    ];
    assert_eq!(order_by_index(data), vec!["a1", "a2", "b", "c"]);
    assert_eq!(order_by_index(Vec::<IndexedEmbedding<u8>>::new()), Vec::<u8>::new());
}

#[test]
fn permuted_indices_land_at_their_positions() {
    let data: Vec<IndexedEmbedding<usize>> = [3usize, 0, 4, 1, 2]
        .iter()
        .map(|&i| IndexedEmbedding { index: i, embedding: i * 10 })
        .collect();
    assert_eq!(order_by_index(data), vec![0, 10, 20, 30, 40]);
}

#[test]
fn debug_rendering_is_the_same_whatever_the_key() {
    let a = keyed("http://h", "m", 4, "first");
    let b = keyed("http://h", "m", 4, "second");
    assert_eq!(a.debug_string(), b.debug_string());
}

#[test]
fn render_debug_lays_out_the_given_parts() {
    assert_eq!(
        render_debug("\"u\"", "\"m\"", 0, false),
        "HttpEmbedder { base_url: \"u\", model: \"m\", dimension: 0, api_key: None }"
    );
    assert_eq!(
        render_debug("U", "M", 42, true),
        "HttpEmbedder { base_url: U, model: M, dimension: 42, api_key: Some(\"<redacted>\") }"
    );
}

#[test]
fn failures_read_the_same_with_or_without_a_key() {
    let with_key = keyed("http://h", "m", 2, "sk");
    let keyless = HttpEmbedder::new("http://h", "m", 2, client());
    let batch = texts(&["a"]);
    let status = || EmbedEvent::<f32>::Responded {
        status: 500,
        status_text: "500 Internal Server Error".to_string(),
    };
    let a = finish(with_key.embed_step(&batch, status())).unwrap_err().to_string();
    let b = finish(keyless.embed_step(&batch, status())).unwrap_err().to_string();
    assert_eq!(a, b);
    assert!(!a.contains("sk"));
}

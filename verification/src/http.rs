use vstd::prelude::*;
use vstd::string::*;

use crate::error::EmbedError;
use crate::order::{
    embeddings_in_index_order, indices_distinct, law_order_keeps_only_response_embeddings,
    law_order_places_each_embedding_at_its_index, order_by_index, IndexedEmbedding,
};
use crate::text::{decimal, decimal_string};

verus! {

#[verifier::external_type_specification]
#[verifier::external_body]
pub struct ExClient(reqwest::blocking::Client);

/// The default OpenAI embeddings API base URL, used by `HttpEmbedder::openai`.
pub const OPENAI_BASE_URL: &'static str = "https://api.openai.com/v1";

/// The environment variable `HttpEmbedder::openai` takes its API key from.
pub const OPENAI_API_KEY_ENV: &'static str = "OPENAI_API_KEY";

/// Names what `format!("{:?}", s)` produces for a string: Rust's `Debug`
/// rendering of a `str` (the text in double quotes, with `"`, `\` and
/// non-printable characters escaped).
pub uninterp spec fn debug_str(s: Seq<char>) -> Seq<char>;

/// Renders a string as `Debug` does (`<str as Debug>::fmt`, through
/// `format!("{:?}", ..)`); the result is named `debug_str` of the string.
#[verifier::external_body]
fn debug_quote(s: &str) -> (r: String)
    ensures
        r@ == debug_str(s@),
{
    format!("{:?}", s)
}

/// `s` ends with a `/`.
pub open spec fn ends_with_slash(s: Seq<char>) -> bool {
    s.len() > 0 && s.last() == '/'
}

/// `s` without any trailing `/` characters (what `trim_end_matches('/')`
/// leaves).
pub open spec fn trim_trailing_slashes(s: Seq<char>) -> Seq<char>
    decreases s.len(),
{
    if ends_with_slash(s) {
        trim_trailing_slashes(s.drop_last())
    } else {
        s
    }
}

/// Trimming leaves no trailing `/`, so the base URL an embedder is built
/// with never ends with one.
pub proof fn law_trimmed_has_no_trailing_slash(s: Seq<char>)
    ensures
        !ends_with_slash(trim_trailing_slashes(s)),
    decreases s.len(),
{
    if ends_with_slash(s) {
        law_trimmed_has_no_trailing_slash(s.drop_last());
    }
}

/// Removes every trailing `/` from `s`.
pub fn trim_trailing_slashes_str(s: &str) -> (r: String)
    ensures
        r@ == trim_trailing_slashes(s@),
{
    let mut k: usize = s.unicode_len();
    assert(s@.take(k as int) =~= s@);
    while k > 0 && s.get_char(k - 1) == '/'
        invariant
            k <= s@.len(),
            trim_trailing_slashes(s@) == trim_trailing_slashes(s@.take(k as int)),
        decreases k,
    {
        assert(s@.take(k as int).drop_last() =~= s@.take(k - 1));
        k -= 1;
    }
    let kept = s.substring_char(0, k);
    assert(kept@ =~= s@.take(k as int));
    String::from_str(kept)
}

/// The abstract configuration of an `HttpEmbedder`: everything but its
/// HTTP client.
pub struct HttpEmbedderView {
    pub base_url: Seq<char>,
    pub api_key: Option<Seq<char>>,
    pub model: Seq<char>,
    pub dimension: usize,
}

/// The URL embeddings are requested from: `{base_url}/embeddings`.
pub open spec fn embeddings_url(base_url: Seq<char>) -> Seq<char> {
    base_url + "/embeddings"@
}

/// The message of the error for an API key variable that is not set.
pub open spec fn unset_variable_message(env_var: Seq<char>) -> Seq<char> {
    "environment variable `"@ + env_var + "` is not set"@
}

/// The layout of an `HttpEmbedder`'s `Debug` rendering, given the rendered
/// (quoted) base URL and model: the struct name, then each field as
/// `name: value`, the API key shown only as whether there is one.
pub open spec fn debug_layout(
    quoted_base_url: Seq<char>,
    quoted_model: Seq<char>,
    dimension: usize,
    has_api_key: bool,
) -> Seq<char> {
    "HttpEmbedder { base_url: "@ + quoted_base_url + ", model: "@ + quoted_model
        + ", dimension: "@ + decimal(dimension as nat) + ", api_key: "@ + (if has_api_key {
        "Some(\"<redacted>\")"@
    } else {
        "None"@
    }) + " }"@
}

/// The `Debug` rendering of an `HttpEmbedder`: its base URL, model and
/// dimension, and for the API key only whether there is one.
pub open spec fn debug_text(v: HttpEmbedderView) -> Seq<char> {
    debug_layout(debug_str(v.base_url), debug_str(v.model), v.dimension, v.api_key is Some)
}

/// Lays out an `HttpEmbedder`'s `Debug` rendering from its already rendered
/// base URL and model, its dimension, and whether it has an API key.
pub fn render_debug(
    quoted_base_url: &str,
    quoted_model: &str,
    dimension: usize,
    has_api_key: bool,
) -> (s: String)
    ensures
        s@ == debug_layout(quoted_base_url@, quoted_model@, dimension, has_api_key),
{
    let mut s = String::from_str("HttpEmbedder { base_url: ");
    s.append(quoted_base_url);
    s.append(", model: ");
    s.append(quoted_model);
    s.append(", dimension: ");
    let dim = decimal_string(dimension);
    s.append(dim.as_str());
    s.append(", api_key: ");
    if has_api_key {
        s.append("Some(\"<redacted>\")");
    } else {
        s.append("None");
    }
    s.append(" }");
    s
}

/// A generic REST embedding backend for OpenAI-compatible embeddings
/// endpoints (`POST {base_url}/embeddings`).
///
/// The base URL never ends with `/`. The API key, when there is one, is
/// only ever handed out as the bearer token of a request: it reaches no
/// error message and no `Debug` rendering.
pub struct HttpEmbedder {
    client: reqwest::blocking::Client,
    base_url: String,
    api_key: Option<String>,
    model: String,
    dimension: usize,
}

impl View for HttpEmbedder {
    type V = HttpEmbedderView;

    closed spec fn view(&self) -> HttpEmbedderView {
        HttpEmbedderView {
            base_url: self.base_url@,
            api_key: match self.api_key {
                Some(k) => Some(k@),
                None => None,
            },
            model: self.model@,
            dimension: self.dimension,
        }
    }
}

/// The input of one step of an embeddings exchange with the endpoint.
pub enum EmbedEvent<T> {
    /// The batch is to be embedded.
    Start,
    /// The request could not be sent or got no response.
    SendFailed,
    /// The endpoint answered with this HTTP status (`status_text` is how the
    /// status is displayed, such as `401 Unauthorized`).
    Responded { status: u16, status_text: String },
    /// The response body was not a well-formed embeddings response.
    BodyUnreadable,
    /// The response body held these embeddings, each tagged with the
    /// position of its text in the batch.
    BodyRead(Vec<IndexedEmbedding<Vec<T>>>),
}

/// What to do next in an embeddings exchange over the batch `'a`.
pub enum EmbedAction<'a, T> {
    /// Send one `POST url` with the JSON body `{"model": model, "input": input}`,
    /// and `Authorization: Bearer {token}` when there is a bearer token.
    Post { url: String, model: String, input: &'a [String], bearer: Option<String> },
    /// The status is a success: read the body as an embeddings response.
    ReadBody,
    /// The exchange is over, with this outcome for the caller.
    Finish(Result<Vec<Vec<T>>, EmbedError>),
}

/// A response lines up with a batch of `n` texts: one embedding per text,
/// the indices naming each position `0..n` exactly once.
pub open spec fn response_covers_batch<T>(data: Seq<IndexedEmbedding<Vec<T>>>, n: nat) -> bool {
    &&& data.len() == n
    &&& indices_distinct(data)
    &&& forall|j: int| 0 <= j < data.len() ==> #[trigger] data[j].index < n
}

/// Every embedding of a response has `dimension` entries.
pub open spec fn response_has_dimension<T>(data: Seq<IndexedEmbedding<Vec<T>>>, dimension: usize) -> bool {
    forall|j: int| 0 <= j < data.len() ==> (#[trigger] data[j].embedding)@.len() == dimension
}

/// The view of an optional string.
pub open spec fn opt_view(o: Option<String>) -> Option<Seq<char>> {
    match o {
        Some(s) => Some(s@),
        None => None,
    }
}

/// `code` is a success status (`2xx`).
pub open spec fn is_success_status(code: u16) -> bool {
    200 <= code <= 299
}

/// `action` is what an embedder configured as `v`, embedding the batch
/// `texts`, does next on `event`.
pub open spec fn step_matches<'a, T>(
    v: HttpEmbedderView,
    texts: Seq<String>,
    event: EmbedEvent<T>,
    action: EmbedAction<'a, T>,
) -> bool {
    match event {
        EmbedEvent::Start => if texts.len() == 0 {
            action matches EmbedAction::Finish(Ok(vectors)) && vectors@.len() == 0
        } else {
            action matches EmbedAction::Post { url, model, input, bearer } && url@
                == embeddings_url(v.base_url) && model@ == v.model && input@ == texts
                && opt_view(bearer) == v.api_key
        },
        EmbedEvent::SendFailed => action matches EmbedAction::Finish(
            Err(EmbedError::Backend(msg)),
        ) && msg@ == "request to embeddings endpoint failed"@,
        EmbedEvent::Responded { status, status_text } => if is_success_status(status) {
            action is ReadBody
        } else {
            action matches EmbedAction::Finish(Err(EmbedError::Backend(msg))) && msg@
                == "embeddings endpoint returned HTTP "@ + status_text@
        },
        EmbedEvent::BodyUnreadable => action matches EmbedAction::Finish(
            Err(EmbedError::Backend(msg)),
        ) && msg@ == "could not parse embeddings response"@,
        EmbedEvent::BodyRead(data) => if !response_covers_batch(data@, texts.len()) {
            action matches EmbedAction::Finish(Err(EmbedError::Backend(msg))) && msg@
                == "embeddings response does not match the batch"@
        } else if !response_has_dimension(data@, v.dimension) {
            action matches EmbedAction::Finish(Err(EmbedError::Backend(msg))) && msg@
                == "embeddings response holds a vector of the wrong dimension"@
        } else {
            action matches EmbedAction::Finish(Ok(vectors)) && vectors@
                == embeddings_in_index_order(data@)
        },
    }
}

/// Every non-empty batch, whatever its length, starts with one POST of the
/// whole batch, unchanged and in order, to `{base_url}/embeddings`, naming
/// the embedder's model and carrying its API key (if any) as the bearer
/// token; only an empty batch finishes without a request.
pub proof fn law_start_posts_whole_batch<'a, T>(
    v: HttpEmbedderView,
    texts: Seq<String>,
    action: EmbedAction<'a, T>,
)
    requires
        step_matches(v, texts, EmbedEvent::<T>::Start, action),
    ensures
        texts.len() > 0 <==> action is Post,
        texts.len() > 0 ==> (action matches EmbedAction::Post { url, model, input, bearer }
            && url@ == v.base_url + "/embeddings"@ && model@ == v.model && input@ == texts
            && match bearer {
            Some(token) => v.api_key == Some(token@),
            None => v.api_key is None,
        }),
{
}

/// The `Debug` rendering never depends on the API key itself: two
/// embedders with the same base URL, model and dimension, both with a key
/// or both without, render identically whatever their keys are.
pub proof fn law_debug_text_redacts_api_key(v1: HttpEmbedderView, v2: HttpEmbedderView)
    requires
        v1.base_url == v2.base_url,
        v1.model == v2.model,
        v1.dimension == v2.dimension,
        v1.api_key is Some <==> v2.api_key is Some,
    ensures
        debug_text(v1) == debug_text(v2),
{
}

/// The API key only ever reaches a request's bearer token: whenever an
/// exchange step finishes (with vectors or with an error), an embedder with
/// any other key, or none, finishes that step the same way.
pub proof fn law_outcomes_do_not_depend_on_api_key<'a, T>(
    v1: HttpEmbedderView,
    v2: HttpEmbedderView,
    texts: Seq<String>,
    event: EmbedEvent<T>,
    action: EmbedAction<'a, T>,
)
    requires
        v1.base_url == v2.base_url,
        v1.model == v2.model,
        v1.dimension == v2.dimension,
        step_matches(v1, texts, event, action),
        action is Finish,
    ensures
        step_matches(v2, texts, event, action),
{
}

/// Configurations that each equal the one before them all have the first
/// one's dimension, model and base URL. An embedder's configurations over
/// its lifetime form such a chain because `with_client` ensures `e@ ==
/// self@` and every other method takes `&self`; this law carries that step
/// through any number of calls.
pub proof fn law_configuration_fixed_for_lifetime(chain: Seq<HttpEmbedderView>)
    requires
        chain.len() > 0,
        forall|i: int| 0 <= i < chain.len() - 1 ==> #[trigger] chain[i + 1] == chain[i],
    ensures
        forall|i: int|
            0 <= i < chain.len() ==> (#[trigger] chain[i]).dimension == chain[0].dimension
                && chain[i].model == chain[0].model && chain[i].base_url == chain[0].base_url,
    decreases chain.len(),
{
    if chain.len() > 1 {
        let front = chain.drop_last();
        law_configuration_fixed_for_lifetime(front);
        assert forall|i: int| 0 <= i < chain.len() implies (#[trigger] chain[i]).dimension
            == chain[0].dimension && chain[i].model == chain[0].model && chain[i].base_url
            == chain[0].base_url by {
            if i < chain.len() - 1 {
                assert(chain[i] == front[i]);
            } else {
                let k: int = i - 1;
                assert(chain[k + 1] == chain[k]);
                assert(chain[k] == front[k]);
            }
        }
    }
}

impl HttpEmbedder {
    #[verifier::type_invariant]
    spec fn base_url_has_no_trailing_slash(self) -> bool {
        !ends_with_slash(self.base_url@)
    }

    /// The HTTP client this embedder sends its requests with.
    pub closed spec fn held_client(&self) -> reqwest::blocking::Client {
        self.client
    }

    /// Connects to an OpenAI-compatible endpoint at `base_url` with no API
    /// key, sending requests with `client`. Trailing `/`s of `base_url` are
    /// dropped. `dimension` is the caller's statement of the vectors'
    /// dimensionality.
    pub fn new(base_url: &str, model: &str, dimension: usize, client: reqwest::blocking::Client) -> (e: Self)
        ensures
            e@ == (HttpEmbedderView {
                base_url: trim_trailing_slashes(base_url@),
                api_key: None,
                model: model@,
                dimension,
            }),
            e.held_client() == client,
    {
        let base = trim_trailing_slashes_str(base_url);
        proof {
            law_trimmed_has_no_trailing_slash(base_url@);
        }
        HttpEmbedder {
            client,
            base_url: base,
            api_key: None,
            model: String::from_str(model),
            dimension,
        }
    }

    /// Like `new`, with the API key taken from the environment variable
    /// named `env_var`. `env_value` is what looking that variable up gave
    /// (`None` when it is not set or not valid Unicode); the key is sent as
    /// `Authorization: Bearer <key>` on every request.
    ///
    /// An unset variable is refused at construction with
    /// `EmbedError::InvalidInput`.
    pub fn with_api_key_env(
        base_url: &str,
        model: &str,
        dimension: usize,
        env_var: &str,
        env_value: Option<String>,
        client: reqwest::blocking::Client,
    ) -> (r: Result<Self, EmbedError>)
        ensures
            match r {
                Ok(e) => env_value is Some && e@ == (HttpEmbedderView {
                    base_url: trim_trailing_slashes(base_url@),
                    api_key: opt_view(env_value),
                    model: model@,
                    dimension,
                }) && e.held_client() == client,
                Err(EmbedError::InvalidInput(msg)) => env_value is None && msg@
                    == unset_variable_message(env_var@),
                Err(EmbedError::Backend(_)) => false,
            },
    {
        match env_value {
            Some(key) => {
                let e = Self::new(base_url, model, dimension, client);
                proof {
                    use_type_invariant(&e);
                }
                Ok(HttpEmbedder { api_key: Some(key), ..e })
            },
            None => {
                let mut msg = String::from_str("environment variable `");
                msg.append(env_var);
                msg.append("` is not set");
                Err(EmbedError::InvalidInput(msg))
            },
        }
    }

    /// OpenAI itself: base URL `OPENAI_BASE_URL`, API key from the
    /// `OPENAI_API_KEY` environment variable, whose looked-up value is
    /// `env_value`.
    pub fn openai(
        model: &str,
        dimension: usize,
        env_value: Option<String>,
        client: reqwest::blocking::Client,
    ) -> (r: Result<Self, EmbedError>)
        ensures
            match r {
                Ok(e) => env_value is Some && e@ == (HttpEmbedderView {
                    base_url: trim_trailing_slashes(OPENAI_BASE_URL@),
                    api_key: opt_view(env_value),
                    model: model@,
                    dimension,
                }) && e.held_client() == client,
                Err(EmbedError::InvalidInput(msg)) => env_value is None && msg@
                    == unset_variable_message(OPENAI_API_KEY_ENV@),
                Err(EmbedError::Backend(_)) => false,
            },
    {
        Self::with_api_key_env(
            OPENAI_BASE_URL,
            model,
            dimension,
            OPENAI_API_KEY_ENV,
            env_value,
            client,
        )
    }

    /// Uses `client` (custom timeouts, proxies, TLS configuration, ...)
    /// instead of the current one; the configuration is unchanged.
    pub fn with_client(self, client: reqwest::blocking::Client) -> (e: Self)
        ensures
            e@ == self@,
            e.held_client() == client,
    {
        proof {
            use_type_invariant(&self);
        }
        HttpEmbedder { client, ..self }
    }

    /// The HTTP client requests are sent with.
    pub fn client(&self) -> (c: &reqwest::blocking::Client)
        ensures
            *c == self.held_client(),
    {
        &self.client
    }

    /// Dimensionality of the vectors, as given at construction.
    pub fn dimension(&self) -> (d: usize)
        ensures
            d == self@.dimension,
    {
        self.dimension
    }

    /// Identifier of the model requested from the endpoint.
    pub fn model_name(&self) -> (name: &str)
        ensures
            name@ == self@.model,
    {
        self.model.as_str()
    }

    /// The URL embeddings are requested from: `{base_url}/embeddings`.
    pub fn embeddings_url(&self) -> (url: String)
        ensures
            url@ == embeddings_url(self@.base_url),
            !ends_with_slash(self@.base_url),
    {
        proof {
            use_type_invariant(self);
        }
        let url = self.base_url.clone();
        url.concat("/embeddings")
    }

    /// The `Debug` rendering of this embedder, with the API key redacted:
    /// `HttpEmbedder { base_url: "..", model: "..", dimension: .., api_key: Some("<redacted>") }`
    /// (or `api_key: None`).
    pub fn debug_string(&self) -> (s: String)
        ensures
            s@ == debug_text(self@),
    {
        let quoted_url = debug_quote(self.base_url.as_str());
        let quoted_model = debug_quote(self.model.as_str());
        render_debug(
            quoted_url.as_str(),
            quoted_model.as_str(),
            self.dimension,
            self.api_key.is_some(),
        )
    }

    /// Decides the next step of an embeddings exchange over the batch
    /// `texts`: an empty batch finishes at once with no vectors and no
    /// request; otherwise one POST of the whole batch to the embeddings URL;
    /// a failed send, a non-`2xx` status, an unreadable body, a body that does
    /// not hold exactly one embedding per text, or an embedding whose length
    /// is not the dimension ends in `EmbedError::Backend`; otherwise the
    /// exchange ends with the embeddings in the order of the batch.
    pub fn embed_step<'a, T>(&self, texts: &'a [String], event: EmbedEvent<T>) -> (action:
        EmbedAction<'a, T>)
        ensures
            step_matches(self@, texts@, event, action),
            event is Start && texts@.len() > 0 ==> (action matches EmbedAction::Post {
                url,
                model,
                input,
                bearer,
            } && url@ == self@.base_url + "/embeddings"@ && model@ == self@.model && input@
                == texts@ && match bearer {
                Some(token) => self@.api_key == Some(token@),
                None => self@.api_key is None,
            }),
            action matches EmbedAction::Finish(Ok(vectors)) ==> {
                &&& vectors@.len() == texts@.len()
                &&& forall|i: int| 0 <= i < vectors@.len() ==> (#[trigger] vectors@[i])@.len() == self@.dimension
            },
            event matches EmbedEvent::BodyRead(data) ==> (action matches EmbedAction::Finish(
                Ok(vectors),
            ) ==> forall|j: int|
                0 <= j < data@.len() ==> vectors@[#[trigger] data@[j].index as int]
                    == data@[j].embedding),
    {
        match event {
            EmbedEvent::Start => {
                if texts.len() == 0 {
                    EmbedAction::Finish(Ok(Vec::new()))
                } else {
                    let bearer = match &self.api_key {
                        Some(k) => Some(k.clone()),
                        None => None,
                    };
                    EmbedAction::Post {
                        url: self.embeddings_url(),
                        model: self.model.clone(),
                        input: texts,
                        bearer,
                    }
                }
            },
            EmbedEvent::SendFailed => EmbedAction::Finish(
                Err(EmbedError::Backend(String::from_str("request to embeddings endpoint failed"))),
            ),
            EmbedEvent::Responded { status, status_text } => {
                if 200 <= status && status <= 299 {
                    EmbedAction::ReadBody
                } else {
                    let msg = String::from_str("embeddings endpoint returned HTTP ");
                    EmbedAction::Finish(
                        Err(EmbedError::Backend(msg.concat(status_text.as_str()))),
                    )
                }
            },
            EmbedEvent::BodyUnreadable => EmbedAction::Finish(
                Err(EmbedError::Backend(String::from_str("could not parse embeddings response"))),
            ),
            EmbedEvent::BodyRead(data) => {
                if !covers_batch(&data, texts.len()) {
                    EmbedAction::Finish(
                        Err(
                            EmbedError::Backend(
                                String::from_str("embeddings response does not match the batch"),
                            ),
                        ),
                    )
                } else if !has_dimension(&data, self.dimension) {
                    EmbedAction::Finish(
                        Err(
                            EmbedError::Backend(
                                String::from_str(
                                    "embeddings response holds a vector of the wrong dimension",
                                ),
                            ),
                        ),
                    )
                } else {
                    let ghost d = data@;
                    let vectors = order_by_index(data);
                    proof {
                        law_order_places_each_embedding_at_its_index(d);
                        law_order_keeps_only_response_embeddings(d);
                        assert forall|i: int| 0 <= i < vectors@.len() implies (
                        #[trigger] vectors@[i])@.len() == self@.dimension by {
                            let j: int = choose|j: int|
                                0 <= j < d.len() && #[trigger] embeddings_in_index_order(d)[i]
                                    == d[j].embedding;
                            assert(d[j].embedding@.len() == self.dimension);
                        }
                    }
                    EmbedAction::Finish(Ok(vectors))
                }
            },
        }
    }
}

/// Whether `data` holds exactly one embedding per position `0..n`.
fn covers_batch<T>(data: &Vec<IndexedEmbedding<Vec<T>>>, n: usize) -> (b: bool)
    ensures
        b == response_covers_batch(data@, n as nat),
{
    if data.len() != n {
        return false;
    }
    let mut j: usize = 0;
    while j < n
        invariant
            data@.len() == n,
            j <= n,
            forall|a: int| 0 <= a < j ==> #[trigger] data@[a].index < n,
            forall|a: int, b: int| 0 <= a < b < j ==> data@[a].index != data@[b].index,
        decreases n - j,
    {
        if data[j].index >= n {
            return false;
        }
        let mut i: usize = 0;
        while i < j
            invariant
                data@.len() == n,
                i <= j < n,
                forall|a: int| 0 <= a < i ==> data@[a].index != data@[j as int].index,
            decreases j - i,
        {
            if data[i].index == data[j].index {
                return false;
            }
            i += 1;
        }
        j += 1;
    }
    assert(indices_distinct(data@)) by {
        assert forall|a: int, b: int|
            0 <= a < data@.len() && 0 <= b < data@.len() && a != b implies data@[a].index
            != data@[b].index by {
            if a > b {
                assert(data@[b].index != data@[a].index);
            }
        }
    }
    true
}

/// Whether every embedding in `data` has `dimension` entries.
fn has_dimension<T>(data: &Vec<IndexedEmbedding<Vec<T>>>, dimension: usize) -> (b: bool)
    ensures
        b == response_has_dimension(data@, dimension),
{
    let mut j: usize = 0;
    while j < data.len()
        invariant
            j <= data@.len(),
            forall|a: int| 0 <= a < j ==> (#[trigger] data@[a].embedding)@.len() == dimension,
        decreases data@.len() - j,
    {
        if data[j].embedding.len() != dimension {
            return false;
        }
        j += 1;
    }
    true
}

} // verus!

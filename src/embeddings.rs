//! Which embedding provider a configuration selects, and its settings.

use vstd::prelude::*;
use vstd::string::*;

verus! {

/// The provider that embeds nothing: semantic search falls back to keyword
/// search.
pub struct NoopEmbedding;

impl NoopEmbedding {
    pub fn name(&self) -> (r: &'static str)
        ensures
            r@ == "none"@,
    {
        "none"
    }

    pub fn dimensions(&self) -> (r: usize)
        ensures
            r == 0,
    {
        0
    }
}

/// `s` without the `/` characters at its end.
pub open spec fn without_trailing_slashes(s: Seq<char>) -> Seq<char>
    decreases s.len(),
{
    if s.len() > 0 && s.last() == '/' {
        without_trailing_slashes(s.drop_last())
    } else {
        s
    }
}

/// Relies on `str::trim_end_matches` with a `char` pattern: `s` with every
/// trailing `/` removed.
#[verifier::external_body]
fn trim_trailing_slashes(s: &str) -> (r: &str)
    ensures
        r@ == without_trailing_slashes(s@),
{
    s.trim_end_matches('/')
}

/// Settings of an OpenAI-compatible embedding endpoint.
#[derive(Debug, Clone)]
pub struct OpenAiEmbedding {
    base_url: String,
    api_key: String,
    model: String,
    dims: usize,
}

impl OpenAiEmbedding {
    pub closed spec fn spec_base_url(&self) -> Seq<char> {
        self.base_url@
    }

    pub closed spec fn spec_api_key(&self) -> Seq<char> {
        self.api_key@
    }

    pub closed spec fn spec_model(&self) -> Seq<char> {
        self.model@
    }

    pub closed spec fn spec_dims(&self) -> usize {
        self.dims
    }

    /// Settings for the endpoint at `base_url`, stored without trailing
    /// slashes.
    pub fn new(base_url: &str, api_key: &str, model: &str, dims: usize) -> (r: Self)
        ensures
            r.spec_base_url() == without_trailing_slashes(base_url@),
            r.spec_api_key() == api_key@,
            r.spec_model() == model@,
            r.spec_dims() == dims,
    {
        OpenAiEmbedding {
            base_url: String::from_str(trim_trailing_slashes(base_url)),
            api_key: String::from_str(api_key),
            model: String::from_str(model),
            dims,
        }
    }

    pub fn name(&self) -> (r: &'static str)
        ensures
            r@ == "openai"@,
    {
        "openai"
    }

    pub fn dimensions(&self) -> (r: usize)
        ensures
            r == self.spec_dims(),
    {
        self.dims
    }

    pub fn base_url(&self) -> (r: &str)
        ensures
            r@ == self.spec_base_url(),
    {
        self.base_url.as_str()
    }

    pub fn api_key(&self) -> (r: &str)
        ensures
            r@ == self.spec_api_key(),
    {
        self.api_key.as_str()
    }

    pub fn model(&self) -> (r: &str)
        ensures
            r@ == self.spec_model(),
    {
        self.model.as_str()
    }
}

/// The embedding provider that a configuration selects.
#[derive(Debug, Clone)]
pub enum SelectedEmbedding {
    Noop,
    OpenAi(OpenAiEmbedding),
}

impl SelectedEmbedding {
    pub fn name(&self) -> (r: &'static str)
        ensures
            r@ == match self {
                SelectedEmbedding::Noop => "none"@,
                SelectedEmbedding::OpenAi(_) => "openai"@,
            },
    {
        match self {
            SelectedEmbedding::Noop => "none",
            SelectedEmbedding::OpenAi(_) => "openai",
        }
    }

    pub fn dimensions(&self) -> (r: usize)
        ensures
            r == match self {
                SelectedEmbedding::Noop => 0,
                SelectedEmbedding::OpenAi(o) => o.spec_dims(),
            },
    {
        match self {
            SelectedEmbedding::Noop => 0,
            SelectedEmbedding::OpenAi(o) => o.dimensions(),
        }
    }
}

/// The prefix that names a custom endpoint.
pub open spec fn custom_prefix() -> Seq<char> {
    "custom:"@
}

pub open spec fn opt_str_view(o: Option<&str>) -> Option<Seq<char>> {
    match o {
        Some(s) => Some(s@),
        None => None,
    }
}

/// `provider` names a custom endpoint at the URL that follows the prefix.
fn custom_endpoint(provider: &str) -> (r: Option<&str>)
    ensures
        match r {
            Some(url) => provider@.len() >= 7 && provider@.subrange(0, 7) == custom_prefix()
                && url@ == provider@.subrange(7, provider@.len() as int),
            None => !(provider@.len() >= 7 && provider@.subrange(0, 7) == custom_prefix()),
        },
{
    proof {
        reveal_strlit("custom:");
    }
    let n = provider.unicode_len();
    if n < 7 {
        return None;
    }
    let head = String::from_str(provider.substring_char(0, 7));
    if head == String::from_str("custom:") {
        Some(provider.substring_char(7, n))
    } else {
        None
    }
}

/// The endpoint settings of a selection, as (base URL, key, model,
/// dimensions); none for no embedding.
pub open spec fn selection_view(e: SelectedEmbedding) -> Option<(Seq<char>, Seq<char>, Seq<char>, usize)> {
    match e {
        SelectedEmbedding::Noop => None,
        SelectedEmbedding::OpenAi(o) => Some(
            (o.spec_base_url(), o.spec_api_key(), o.spec_model(), o.spec_dims()),
        ),
    }
}

/// The selection that [`create_embedding_provider`] makes.
pub open spec fn embedding_outcome(
    provider: Seq<char>,
    api_key: Option<Seq<char>>,
    model: Seq<char>,
    dims: usize,
) -> Option<(Seq<char>, Seq<char>, Seq<char>, usize)> {
    let key = match api_key {
        Some(k) => k,
        None => Seq::empty(),
    };
    if provider == "openai"@ {
        Some(("https://api.openai.com"@, key, model, dims))
    } else if provider.len() >= 7 && provider.subrange(0, 7) == custom_prefix() {
        Some((without_trailing_slashes(provider.subrange(7, provider.len() as int)), key, model, dims))
    } else {
        None
    }
}

/// Select the embedding provider named `provider`: `openai` for the OpenAI
/// endpoint, `custom:<url>` for an OpenAI-compatible endpoint at `<url>`,
/// and no embedding for any other name. A missing key is taken as empty.
pub fn create_embedding_provider(provider: &str, api_key: Option<&str>, model: &str, dims: usize) -> (r: SelectedEmbedding)
    ensures
        selection_view(r) == embedding_outcome(provider@, opt_str_view(api_key), model@, dims),
{
    proof {
        reveal_strlit("");
        reveal_strlit("openai");
    }
    let key = match api_key {
        Some(k) => k,
        None => "",
    };
    assert(key@ == match api_key {
        Some(k) => k@,
        None => Seq::<char>::empty(),
    });
    if String::from_str(provider) == String::from_str("openai") {
        proof {
            reveal_strlit("https://api.openai.com");
            assert(without_trailing_slashes("https://api.openai.com"@) == "https://api.openai.com"@);
        }
        SelectedEmbedding::OpenAi(OpenAiEmbedding::new("https://api.openai.com", key, model, dims))
    } else {
        match custom_endpoint(provider) {
            Some(url) => SelectedEmbedding::OpenAi(OpenAiEmbedding::new(url, key, model, dims)),
            None => SelectedEmbedding::Noop,
        }
    }
}

} // verus!

//! Embedding providers (Cohere and Ollama): their settings, endpoints and the
//! requests they send. The vectors they return are floating point and are read
//! outside the library.
use vstd::prelude::*;
use crate::anthropic::{strip_trailing_slashes, without_trailing_slashes};
use crate::text::{owned, push_str};

verus! {

broadcast use vstd::string::group_string_axioms;

/// A Cohere embedding provider's settings.
#[derive(Debug, Clone, PartialEq, Eq)]
pub struct CohereEmbeddingProvider {
    pub api_key: String,
    pub model: String,
    pub base_url: String,
}

/// A Cohere embed request: the texts, what they are for, float vectors, and texts
/// cut at the end when too long.
#[derive(Debug, Clone, PartialEq, Eq)]
pub struct CohereEmbedRequest {
    pub model: String,
    pub texts: Vec<String>,
    pub input_type: String,
    pub embedding_types: Vec<String>,
    pub truncate: String,
}

impl CohereEmbeddingProvider {
    /// A provider with the given key, model (`embed-english-v3.0` by default) and API
    /// address (Cohere's by default).
    pub fn new(api_key: String, model: Option<String>, base_url: Option<String>) -> (r: Self)
        ensures
            r.api_key == api_key,
            r.model@ == match model {
                Some(m) => m@,
                None => "embed-english-v3.0"@,
            },
            r.base_url@ == match base_url {
                Some(b) => b@,
                None => "https://api.cohere.com"@,
            },
    {
        CohereEmbeddingProvider {
            api_key,
            model: match model {
                Some(m) => m,
                None => owned("embed-english-v3.0"),
            },
            base_url: match base_url {
                Some(b) => b,
                None => owned("https://api.cohere.com"),
            },
        }
    }

    /// The provider's name.
    pub fn provider_id(&self) -> (r: &'static str)
        ensures
            r@ == "cohere"@,
    {
        "cohere"
    }

    /// The embed endpoint: the API address without trailing slashes, then `/v1/embed`.
    pub fn endpoint(&self) -> (r: String)
        ensures
            r@ == strip_trailing_slashes(self.base_url@) + "/v1/embed"@,
    {
        let mut s = without_trailing_slashes(self.base_url.as_str());
        push_str(&mut s, "/v1/embed");
        s
    }

    /// The request embedding `texts` for `input_type` (`search_document` or
    /// `search_query`).
    pub fn build_request_body(&self, texts: &Vec<String>, input_type: &str) -> (r: CohereEmbedRequest)
        ensures
            r.model == self.model,
            r.texts@ == texts@,
            r.input_type@ == input_type@,
            r.embedding_types@.len() == 1,
            r.embedding_types@[0]@ == "float"@,
            r.truncate@ == "END"@,
    {
        let mut types: Vec<String> = Vec::new();
        types.push(owned("float"));
        CohereEmbedRequest {
            model: self.model.clone(),
            texts: crate::text::clone_strings(texts),
            input_type: owned(input_type),
            embedding_types: types,
            truncate: owned("END"),
        }
    }
}

/// An Ollama embedding provider's settings.
#[derive(Debug, Clone, PartialEq, Eq)]
pub struct OllamaEmbeddingProvider {
    pub model: String,
    pub base_url: String,
}

/// An Ollama embed request.
#[derive(Debug, Clone, PartialEq, Eq)]
pub struct OllamaEmbedRequest {
    pub model: String,
    pub input: Vec<String>,
}

impl OllamaEmbeddingProvider {
    /// A provider with the given model (`nomic-embed-text` by default) on the given
    /// server (the local one by default).
    pub fn new(model: Option<String>, base_url: Option<String>) -> (r: Self)
        ensures
            r.model@ == match model {
                Some(m) => m@,
                None => "nomic-embed-text"@,
            },
            r.base_url@ == match base_url {
                Some(b) => b@,
                None => "http://localhost:11434"@,
            },
    {
        OllamaEmbeddingProvider {
            model: match model {
                Some(m) => m,
                None => owned("nomic-embed-text"),
            },
            base_url: match base_url {
                Some(b) => b,
                None => owned("http://localhost:11434"),
            },
        }
    }

    /// The provider's name.
    pub fn provider_id(&self) -> (r: &'static str)
        ensures
            r@ == "ollama"@,
    {
        "ollama"
    }

    /// The embed endpoint: the server address without trailing slashes, then `/api/embed`.
    pub fn endpoint(&self) -> (r: String)
        ensures
            r@ == strip_trailing_slashes(self.base_url@) + "/api/embed"@,
    {
        let mut s = without_trailing_slashes(self.base_url.as_str());
        push_str(&mut s, "/api/embed");
        s
    }

    /// The request embedding `texts`.
    pub fn build_request_body(&self, texts: &Vec<String>) -> (r: OllamaEmbedRequest)
        ensures
            r.model == self.model,
            r.input@ == texts@,
    {
        OllamaEmbedRequest { model: self.model.clone(), input: crate::text::clone_strings(texts) }
    }
}

} // verus!

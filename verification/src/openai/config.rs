//! Configuration of the OpenAI-compatible provider.

use vstd::prelude::*;

verus! {

/// Builder for [`OpenAIConfig`].
#[derive(Debug)]
pub struct OpenAIConfigBuilder {
    /// The API key to present.
    pub api_key: String,
    /// The model to ask for, if set.
    pub model: Option<String>,
    /// The base URL to talk to, if set.
    pub base_url: Option<String>,
}

/// Mathematical view of an [`OpenAIConfigBuilder`].
#[verifier::ext_equal]
pub struct OpenAIConfigBuilderView {
    pub api_key: Seq<char>,
    pub model: Option<Seq<char>>,
    pub base_url: Option<Seq<char>>,
}

impl View for OpenAIConfigBuilder {
    type V = OpenAIConfigBuilderView;

    open spec fn view(&self) -> OpenAIConfigBuilderView {
        OpenAIConfigBuilderView {
            api_key: self.api_key@,
            model: self.model.deep_view(),
            base_url: self.base_url.deep_view(),
        }
    }
}

/// The model used when the builder sets none.
pub open spec fn default_model() -> Seq<char> {
    "gpt-5.2"@
}

/// The base URL used when the builder sets none.
pub open spec fn default_base_url() -> Seq<char> {
    "https://api.openai.com/v1"@
}

impl OpenAIConfigBuilder {
    /// Creates a builder with the given API key.
    pub fn with_api_key(api_key: &str) -> (r: Self)
        ensures
            r@ == (OpenAIConfigBuilderView { api_key: api_key@, model: None, base_url: None }),
    {
        OpenAIConfigBuilder { api_key: api_key.to_owned(), model: None, base_url: None }
    }

    /// Sets the model to use.
    pub fn with_model(self, model: &str) -> (r: Self)
        ensures
            r@ == (OpenAIConfigBuilderView { model: Some(model@), ..self@ }),
    {
        OpenAIConfigBuilder { model: Some(model.to_owned()), ..self }
    }

    /// Sets a custom base URL.
    pub fn with_base_url(self, base_url: &str) -> (r: Self)
        ensures
            r@ == (OpenAIConfigBuilderView { base_url: Some(base_url@), ..self@ }),
    {
        OpenAIConfigBuilder { base_url: Some(base_url.to_owned()), ..self }
    }

    /// Builds the configuration, filling in the default model and base URL
    /// where none was set.
    pub fn build(self) -> (r: OpenAIConfig)
        ensures
            r@.api_key == self@.api_key,
            r@.model == match self@.model {
                Some(m) => m,
                None => default_model(),
            },
            r@.base_url == match self@.base_url {
                Some(u) => u,
                None => default_base_url(),
            },
    {
        let model = match self.model {
            Some(m) => m,
            None => String::from_str("gpt-5.2"),
        };
        let base_url = match self.base_url {
            Some(u) => u,
            None => String::from_str("https://api.openai.com/v1"),
        };
        OpenAIConfig { api_key: self.api_key, model, base_url }
    }
}

/// Configuration for the OpenAI-compatible provider.
#[derive(Debug)]
pub struct OpenAIConfig {
    /// The API key presented to the service.
    pub api_key: String,
    /// The model asked for.
    pub model: String,
    /// The base URL of the service.
    pub base_url: String,
}

/// Mathematical view of an [`OpenAIConfig`].
#[verifier::ext_equal]
pub struct OpenAIConfigView {
    pub api_key: Seq<char>,
    pub model: Seq<char>,
    pub base_url: Seq<char>,
}

impl View for OpenAIConfig {
    type V = OpenAIConfigView;

    open spec fn view(&self) -> OpenAIConfigView {
        OpenAIConfigView {
            api_key: self.api_key@,
            model: self.model@,
            base_url: self.base_url@,
        }
    }
}

impl Clone for OpenAIConfig {
    fn clone(&self) -> (r: Self)
        ensures
            r@ == self@,
    {
        OpenAIConfig {
            api_key: self.api_key.clone(),
            model: self.model.clone(),
            base_url: self.base_url.clone(),
        }
    }
}

} // verus!

//! The agent's configuration: the backend, the model, credentials and
//! limits, with the environment-variable overrides applied on top of the
//! configuration file, and the choice of provider it leads to.
use vstd::prelude::*;
use crate::text::str_eq;

verus! {

/// Which LLM backend to use.
#[derive(Debug, Clone, Copy, PartialEq, Eq, Structural)]
pub enum LlmBackend {
    OpenAi,
    Ollama,
}

impl Default for LlmBackend {
    fn default() -> (res: Self)
        ensures
            res == LlmBackend::OpenAi,
    {
        LlmBackend::OpenAi
    }
}

/// Top-level agent configuration.
#[derive(Debug)]
pub struct AgentConfig {
    pub backend: LlmBackend,
    pub model: Option<String>,
    pub openai_api_key: Option<String>,
    pub openai_base_url: Option<String>,
    pub ollama_base_url: Option<String>,
    pub max_steps: Option<usize>,
}

impl Clone for AgentConfig {
    fn clone(&self) -> (res: Self)
        ensures
            res == *self,
    {
        AgentConfig {
            backend: self.backend,
            model: self.model.clone(),
            openai_api_key: self.openai_api_key.clone(),
            openai_base_url: self.openai_base_url.clone(),
            ollama_base_url: self.ollama_base_url.clone(),
            max_steps: self.max_steps,
        }
    }
}

impl Default for AgentConfig {
    fn default() -> (res: Self)
        ensures
            res.backend == LlmBackend::OpenAi,
            res.model is None,
            res.openai_api_key is None,
            res.openai_base_url is None,
            res.ollama_base_url is None,
            res.max_steps is None,
    {
        AgentConfig {
            backend: LlmBackend::OpenAi,
            model: None,
            openai_api_key: None,
            openai_base_url: None,
            ollama_base_url: None,
            max_steps: None,
        }
    }
}

/// The model a backend uses when none is configured.
pub open spec fn default_model(backend: LlmBackend) -> Seq<char> {
    match backend {
        LlmBackend::OpenAi => "gpt-4o"@,
        LlmBackend::Ollama => "llama3"@,
    }
}

/// The step limit of the agent loop when none is configured.
pub const DEFAULT_MAX_STEPS: usize = 20;

/// What `str::to_lowercase` makes of a string (full Unicode lower-casing).
pub uninterp spec fn lowercase(s: Seq<char>) -> Seq<char>;

/// `str::to_lowercase`.  The contract names the result as a function of the
/// text.
#[verifier::external_body]
fn to_lowercase(s: &str) -> (res: String)
    ensures
        res@ == lowercase(s@),
{
    s.to_lowercase()
}

/// The values of the environment variables that override the file
/// configuration (`FERROCLAW_OPENAI_API_KEY`, `FERROCLAW_OPENAI_BASE_URL`,
/// `FERROCLAW_OLLAMA_BASE_URL`, `FERROCLAW_MODEL`, `FERROCLAW_BACKEND`),
/// each `None` when the variable is not set.
#[derive(Debug)]
pub struct EnvOverrides {
    pub openai_api_key: Option<String>,
    pub openai_base_url: Option<String>,
    pub ollama_base_url: Option<String>,
    pub model: Option<String>,
    pub backend: Option<String>,
}

/// The backend a `FERROCLAW_BACKEND` value selects: Ollama for any spelling
/// whose lower-case form is `ollama`, OpenAI for anything else.
pub open spec fn backend_named(value: Seq<char>) -> LlmBackend {
    if lowercase(value) == "ollama"@ {
        LlmBackend::Ollama
    } else {
        LlmBackend::OpenAi
    }
}

/// Parses a `FERROCLAW_BACKEND` value.
pub fn backend_from_name(value: &str) -> (res: LlmBackend)
    ensures
        res == backend_named(value@),
{
    let lower = to_lowercase(value);
    if str_eq(lower.as_str(), "ollama") {
        LlmBackend::Ollama
    } else {
        LlmBackend::OpenAi
    }
}

/// `v` if set, else `fallback`.
pub open spec fn overridden<T>(v: Option<T>, fallback: Option<T>) -> Option<T> {
    match v {
        Some(x) => Some(x),
        None => fallback,
    }
}

impl AgentConfig {
    /// The configured model, or the backend's default model.
    pub fn model_name(&self) -> (res: &str)
        ensures
            res@ == match self.model {
                Some(m) => m@,
                None => default_model(self.backend),
            },
    {
        match &self.model {
            Some(m) => m.as_str(),
            None => match self.backend {
                LlmBackend::OpenAi => "gpt-4o",
                LlmBackend::Ollama => "llama3",
            },
        }
    }

    /// The configured step limit, 20 by default.
    pub fn max_steps(&self) -> (res: usize)
        ensures
            res == match self.max_steps {
                Some(n) => n,
                None => DEFAULT_MAX_STEPS,
            },
    {
        match self.max_steps {
            Some(n) => n,
            None => DEFAULT_MAX_STEPS,
        }
    }

    /// The configuration with the environment overrides applied: every set
    /// variable replaces the matching setting.
    pub fn with_env_overrides(self, env: EnvOverrides) -> (res: Self)
        ensures
            res.openai_api_key == overridden(env.openai_api_key, self.openai_api_key),
            res.openai_base_url == overridden(env.openai_base_url, self.openai_base_url),
            res.ollama_base_url == overridden(env.ollama_base_url, self.ollama_base_url),
            res.model == overridden(env.model, self.model),
            res.backend == match env.backend {
                Some(b) => backend_named(b@),
                None => self.backend,
            },
            res.max_steps == self.max_steps,
    {
        let mut cfg = self;
        if let Some(key) = env.openai_api_key {
            cfg.openai_api_key = Some(key);
        }
        if let Some(url) = env.openai_base_url {
            cfg.openai_base_url = Some(url);
        }
        if let Some(url) = env.ollama_base_url {
            cfg.ollama_base_url = Some(url);
        }
        if let Some(model) = env.model {
            cfg.model = Some(model);
        }
        if let Some(backend) = env.backend {
            cfg.backend = backend_from_name(backend.as_str());
        }
        cfg
    }
}

/// The message given when the OpenAI backend or memory needs an API key and
/// none is configured.
pub open spec fn missing_key_message() -> Seq<char> {
    "OpenAI API key not set. Add FERROCLAW_OPENAI_API_KEY to .env or run `ferroclaw onboard`."@
}

/// The configured OpenAI API key, or the message explaining how to set one.
pub fn require_openai_key(cfg: &AgentConfig) -> (res: Result<String, String>)
    ensures
        match cfg.openai_api_key {
            Some(k) => res == Ok::<String, String>(k),
            None => res matches Err(m) && m@ == missing_key_message(),
        },
{
    match &cfg.openai_api_key {
        Some(k) => Ok(k.clone()),
        None => Err(
            "OpenAI API key not set. Add FERROCLAW_OPENAI_API_KEY to .env or run `ferroclaw onboard`.".to_owned(),
        ),
    }
}

/// The backend a configuration selects, with what is needed to build it.
#[derive(Debug)]
pub enum ProviderKind {
    OpenAi { key: String, model: String, base_url: Option<String> },
    Ollama { model: String, base_url: Option<String> },
}

impl ProviderKind {
    /// The provider a configuration selects: OpenAI with the configured key
    /// (an error without one) or Ollama; either with the configured model
    /// name and the backend's base URL.
    pub fn from_config(cfg: &AgentConfig) -> (res: Result<Self, String>)
        ensures
            match cfg.backend {
                LlmBackend::OpenAi => match cfg.openai_api_key {
                    Some(k) => res matches Ok(ProviderKind::OpenAi { key, model, base_url }) && key == k
                        && model@ == (match cfg.model {
                        Some(m) => m@,
                        None => default_model(cfg.backend),
                    }) && base_url == cfg.openai_base_url,
                    None => res matches Err(m) && m@ == missing_key_message(),
                },
                LlmBackend::Ollama => res matches Ok(ProviderKind::Ollama { model, base_url })
                    && model@ == (match cfg.model {
                    Some(m) => m@,
                    None => default_model(cfg.backend),
                }) && base_url == cfg.ollama_base_url,
            },
    {
        let model = cfg.model_name().to_owned();
        match cfg.backend {
            LlmBackend::OpenAi => {
                let key = match require_openai_key(cfg) {
                    Ok(k) => k,
                    Err(m) => {
                        return Err(m);
                    },
                };
                Ok(ProviderKind::OpenAi { key, model, base_url: cfg.openai_base_url.clone() })
            },
            LlmBackend::Ollama => Ok(ProviderKind::Ollama { model, base_url: cfg.ollama_base_url.clone() }),
        }
    }
}

} // verus!

use ferroclaw::config::{backend_from_name, require_openai_key, AgentConfig, EnvOverrides, LlmBackend, ProviderKind};

fn no_env() -> EnvOverrides {
    EnvOverrides { openai_api_key: None, openai_base_url: None, ollama_base_url: None, model: None, backend: None }
}

#[test]
fn model_and_step_defaults() {
    let mut cfg = AgentConfig::default();
    assert_eq!(cfg.backend, LlmBackend::OpenAi);
    assert_eq!(cfg.model_name(), "gpt-4o");
    assert_eq!(cfg.max_steps(), 20);
    cfg.backend = LlmBackend::Ollama;
    assert_eq!(cfg.model_name(), "llama3");
    cfg.model = Some("qwen".into());
    assert_eq!(cfg.model_name(), "qwen");
    cfg.max_steps = Some(3);
    assert_eq!(cfg.max_steps(), 3);
}

#[test]
fn environment_overrides_file_settings() {
    let mut cfg = AgentConfig::default();
    cfg.model = Some("file-model".into());
    cfg.openai_api_key = Some("file-key".into());
    let env = EnvOverrides {
        openai_api_key: Some("env-key".into()),
        openai_base_url: None,
        ollama_base_url: Some("http://o:1".into()),
        model: None,
        backend: Some("OLLAMA".into()),
    };
    let cfg = cfg.with_env_overrides(env);
    assert_eq!(cfg.openai_api_key.as_deref(), Some("env-key"));
    assert_eq!(cfg.model.as_deref(), Some("file-model"));
    assert_eq!(cfg.ollama_base_url.as_deref(), Some("http://o:1"));
    assert_eq!(cfg.backend, LlmBackend::Ollama);
    let unchanged = AgentConfig::default().with_env_overrides(no_env());
    assert_eq!(unchanged.backend, LlmBackend::OpenAi);
    assert!(unchanged.openai_api_key.is_none());
}

#[test]
fn backend_names() {
    assert_eq!(backend_from_name("ollama"), LlmBackend::Ollama);
    assert_eq!(backend_from_name("OlLaMa"), LlmBackend::Ollama);
    assert_eq!(backend_from_name("openai"), LlmBackend::OpenAi);
    assert_eq!(backend_from_name("anything"), LlmBackend::OpenAi);
    assert_eq!(backend_from_name(""), LlmBackend::OpenAi);
}

#[test]
fn api_key_requirement() {
    let mut cfg = AgentConfig::default();
    let e = require_openai_key(&cfg).err().unwrap();
    assert_eq!(e, "OpenAI API key not set. Add FERROCLAW_OPENAI_API_KEY to .env or run `ferroclaw onboard`.");
    cfg.openai_api_key = Some("sk-1".into());
    assert_eq!(require_openai_key(&cfg).unwrap(), "sk-1");
}

#[test]
fn provider_choice() {
    let mut cfg = AgentConfig::default();
    assert!(ProviderKind::from_config(&cfg).is_err());
    cfg.openai_api_key = Some("k".into());
    cfg.openai_base_url = Some("http://b".into());
    match ProviderKind::from_config(&cfg).unwrap() {
        ProviderKind::OpenAi { key, model, base_url } => {
            assert_eq!(key, "k");
            assert_eq!(model, "gpt-4o");
            assert_eq!(base_url.as_deref(), Some("http://b"));
        }
        other => panic!("unexpected {:?}", other),
    }
    cfg.backend = LlmBackend::Ollama;
    cfg.openai_api_key = None;
    match ProviderKind::from_config(&cfg).unwrap() {
        ProviderKind::Ollama { model, base_url } => {
            assert_eq!(model, "llama3");
            assert!(base_url.is_none());
        }
        other => panic!("unexpected {:?}", other),
    }
}

use devops_agent::llm::provider::{
    normalize_openai_compatible_base_url, optional_base_url, LLMProviderFactory, LLMProviderType, ProviderCredential,
};

#[test]
fn test_llm_provider_type_from_str() {
    assert_eq!(LLMProviderType::from_str("ollama").unwrap(), LLMProviderType::Ollama);
    assert_eq!(LLMProviderType::from_str("Ollama").unwrap(), LLMProviderType::Ollama);
    assert_eq!(LLMProviderType::from_str("openai").unwrap(), LLMProviderType::OpenAI);
    assert_eq!(LLMProviderType::from_str("anthropic").unwrap(), LLMProviderType::Anthropic);
    assert_eq!(LLMProviderType::from_str("deepseek").unwrap(), LLMProviderType::DeepSeek);
    assert_eq!(LLMProviderType::from_str("groq").unwrap(), LLMProviderType::Groq);
    assert_eq!(LLMProviderType::from_str("openrouter").unwrap(), LLMProviderType::OpenRouter);
}

#[test]
fn test_llm_provider_type_from_str_invalid() {
    assert!(LLMProviderType::from_str("invalid_provider").is_err());
}

#[test]
fn test_llm_provider_type_display() {
    assert_eq!(LLMProviderType::Ollama.to_string(), "ollama");
    assert_eq!(LLMProviderType::OpenAI.to_string(), "openai");
    assert_eq!(LLMProviderType::Anthropic.to_string(), "anthropic");
    assert_eq!(LLMProviderType::DeepSeek.to_string(), "deepseek");
    assert_eq!(LLMProviderType::Groq.to_string(), "groq");
    assert_eq!(LLMProviderType::OpenRouter.to_string(), "openrouter");
}

#[test]
fn test_normalize_openai_compatible_base_url() {
    assert_eq!(
        normalize_openai_compatible_base_url(Some("http://127.0.0.1:8080/v1/chat/completions".to_string())).unwrap(),
        Some("http://127.0.0.1:8080/v1".to_string())
    );
    assert_eq!(
        normalize_openai_compatible_base_url(Some("http://127.0.0.1:8080/v1/".to_string())).unwrap(),
        Some("http://127.0.0.1:8080/v1".to_string())
    );
}

#[test]
fn test_normalize_openai_compatible_base_url_rejects_invalid_url() {
    assert!(normalize_openai_compatible_base_url(Some("not a url".to_string())).is_err());
}

#[test]
fn provider_names_round_trip_and_errors() {
    for t in [
        LLMProviderType::Ollama,
        LLMProviderType::OpenAI,
        LLMProviderType::Anthropic,
        LLMProviderType::DeepSeek,
        LLMProviderType::Groq,
        LLMProviderType::OpenRouter,
    ] {
        assert_eq!(LLMProviderType::from_str(&t.to_string()).unwrap(), t);
    }
    assert_eq!(LLMProviderType::from_str("GROQ").unwrap(), LLMProviderType::Groq);
    assert_eq!(LLMProviderType::from_str("x").unwrap_err(), "Unknown LLM provider type: x");
}

#[test]
fn base_urls_are_trimmed() {
    assert_eq!(optional_base_url(Some("  http://h/v1//  ".to_string())), Some("http://h/v1".to_string()));
    assert_eq!(optional_base_url(Some(" / ".to_string())), None);
    assert_eq!(optional_base_url(None), None);
    assert_eq!(normalize_openai_compatible_base_url(None).unwrap(), None);
}

#[test]
fn provider_credentials() {
    assert_eq!(
        LLMProviderFactory::credential(LLMProviderType::Ollama, Some(" http://localhost:11434/ ".to_string()), None),
        Ok(ProviderCredential::BaseUrl("http://localhost:11434".to_string()))
    );
    assert_eq!(
        LLMProviderFactory::credential(LLMProviderType::Ollama, Some("  ".to_string()), None),
        Err("Base URL is required for Ollama provider".to_string())
    );
    assert_eq!(
        LLMProviderFactory::credential(LLMProviderType::Groq, None, None),
        Err("API key is required for Groq provider".to_string())
    );
    assert_eq!(
        LLMProviderFactory::credential(LLMProviderType::OpenAI, None, Some("sk".to_string())),
        Ok(ProviderCredential::ApiKey("sk".to_string()))
    );
}

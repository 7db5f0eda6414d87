use vibe_coder::ai_providers::{AIProviderError, AIProviderManager, MockAIProvider, ProviderConfig};
use vibe_coder::parser::parse_response;

fn create_test_config(name: &str, model: &str) -> ProviderConfig {
    ProviderConfig {
        name: name.to_string(),
        api_key: Some("test-api-key".to_string()),
        api_endpoint: Some("https://api.test.com".to_string()),
        model: model.to_string(),
    }
}

#[test]
fn test_create_test_config() {
    let config = create_test_config("TestProvider", "model-1");
    assert_eq!(config.name, "TestProvider");
    assert_eq!(config.model, "model-1");
    assert!(config.api_key.is_some());
}

#[test]
fn mock_provider_needs_configuration() {
    let mut provider = MockAIProvider::new();
    assert!(!provider.is_ready());
    assert_eq!(provider.name(), "Mock Provider");
    assert!(matches!(provider.respond("Test prompt"), Err(AIProviderError::NotConfigured)));
    assert!(provider.configure(create_test_config("Mock", "mock-v1")).is_ok());
    assert!(provider.is_ready());
}

#[test]
fn mock_provider_reply() {
    let mut provider = MockAIProvider::new();
    provider.configure(create_test_config("Test Provider", "test-model-v1")).unwrap();
    let response = provider.respond("Explain Rust ownership").unwrap();
    assert_eq!(response.model, "test-model-v1");
    assert_eq!(response.tokens_used, Some(150));
    assert!(response.content.starts_with("# AI Response\n\nYou asked: Explain Rust ownership\n\n"));
    assert!(response.content.contains("## Code Example"));
    assert!(response.content.contains("```rust"));
    assert!(response.content.contains("## Explanation"));

    let parsed = parse_response(&response.content);
    let titles = parsed.get_titles();
    assert_eq!(titles.len(), 3);
    assert_eq!(titles[0], (1, "AI Response".to_string()));
    let code = parsed.get_code_blocks();
    assert_eq!(code.len(), 1);
    assert_eq!(code[0].0, Some("rust".to_string()));
    assert_eq!(code[0].1, "fn hello_world() {\n    println!(\"Hello from Vibe Coder!\");\n}");
}

#[test]
fn manager_selects_first_then_chosen() {
    let mut manager: AIProviderManager<MockAIProvider> = AIProviderManager::new();
    assert!(manager.get_active_provider().is_none());
    manager.add_provider(MockAIProvider::new());
    let mut second = MockAIProvider::new();
    second.configure(create_test_config("Second Provider", "mock-v2")).unwrap();
    manager.add_provider(second);
    assert!(!manager.get_active_provider().unwrap().is_ready());
    assert!(manager.set_active_provider(1).is_ok());
    assert!(manager.get_active_provider().unwrap().is_ready());
    let err = manager.set_active_provider(10);
    assert!(matches!(err, Err(AIProviderError::ConfigurationError(ref m)) if m == "Provider index out of bounds"));
    assert!(manager.get_active_provider().unwrap().is_ready());
    assert_eq!(manager.providers().len(), 2);
}

#[test]
fn provider_error_messages() {
    assert_eq!(AIProviderError::NotConfigured.message(), "Provider not configured");
    assert_eq!(AIProviderError::ApiError("x".to_string()).message(), "API error: x");
    assert_eq!(AIProviderError::NetworkError("y".to_string()).message(), "Network error: y");
    assert_eq!(AIProviderError::InvalidResponse("z".to_string()).message(), "Invalid response: z");
    assert_eq!(AIProviderError::ConfigurationError("w".to_string()).message(), "Configuration error: w");
}

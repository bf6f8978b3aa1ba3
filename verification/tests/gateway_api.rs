use ai_gateway::api::{healthz, list_providers, readyz, require_api_key, ApiError, UNAUTHORIZED};
use ai_gateway::completion::{ChatCompletionRequest, ChatMessage, MessageContent, Role};
use ai_gateway::error::DomainError;
use ai_gateway::provider_id::ProviderId;
use ai_gateway::usecase::ChatCompletionUseCase;

fn request_for(provider: ProviderId) -> ChatCompletionRequest {
    ChatCompletionRequest {
        provider,
        model: "m".to_string(),
        messages: vec![ChatMessage { role: Role::User, content: MessageContent::Text("hi".to_string()) }],
        temperature: None,
        max_tokens: None,
    }
}

#[test]
fn execute_routes_to_the_registered_provider() {
    let chat = ChatCompletionUseCase::new(vec![(ProviderId::Vertex, "vertex-client"), (ProviderId::Groq, "groq-client")]);
    assert_eq!(chat.execute(&request_for(ProviderId::Groq)).ok(), Some(&"groq-client"));
    assert_eq!(chat.execute(&request_for(ProviderId::Vertex)).ok(), Some(&"vertex-client"));
}

#[test]
fn execute_refuses_an_unregistered_provider() {
    let chat = ChatCompletionUseCase::new(vec![(ProviderId::GoogleAiStudio, 1u8)]);
    match chat.execute(&request_for(ProviderId::OpenRouter)) {
        Err(DomainError::ProviderNotFound(name)) => assert_eq!(name, "openrouter"),
        _ => panic!("expected ProviderNotFound"),
    }
}

#[test]
fn available_providers_in_registration_order() {
    let chat = ChatCompletionUseCase::new(vec![(ProviderId::Vertex, ()), (ProviderId::GoogleAiStudio, ())]);
    assert_eq!(chat.available_providers(), vec![ProviderId::Vertex, ProviderId::GoogleAiStudio]);
}

#[test]
fn providers_are_listed_by_name() {
    let chat = ChatCompletionUseCase::new(vec![
        (ProviderId::Vertex, ()),
        (ProviderId::OpenRouter, ()),
        (ProviderId::GoogleAiStudio, ()),
        (ProviderId::Groq, ()),
    ]);
    let listed = list_providers(&chat).providers;
    assert_eq!(
        listed,
        vec![ProviderId::GoogleAiStudio, ProviderId::Groq, ProviderId::OpenRouter, ProviderId::Vertex]
    );
    let names: Vec<&str> = listed.iter().map(|p| p.as_str()).collect();
    let mut sorted = names.clone();
    sorted.sort();
    assert_eq!(names, sorted);
}

#[test]
fn listing_with_no_providers_is_empty() {
    let chat: ChatCompletionUseCase<()> = ChatCompletionUseCase::new(vec![]);
    assert!(list_providers(&chat).providers.is_empty());
}

#[test]
fn api_errors_map_to_statuses() {
    let e = ApiError::from_domain_error(DomainError::ProviderNotFound("groq".to_string()));
    assert_eq!(e.status(), 404);
    assert_eq!(e.message(), "provider not found: groq");
    let e = ApiError::from_domain_error(DomainError::InvalidRequest("bad".to_string()));
    assert_eq!(e.status(), 400);
    assert_eq!(e.message(), "invalid request: bad");
    let e = ApiError::from_domain_error(DomainError::ProviderError("down".to_string()));
    assert_eq!(e.status(), 502);
    assert_eq!(e.message(), "provider error: down");
}

#[test]
fn upstream_bad_request_is_relayed_as_is() {
    let e = ApiError::from_domain_error(ai_gateway::upstream::upstream_status_error(
        ProviderId::Groq,
        400,
        "image input is not supported by this model",
    ));
    assert_eq!(e.status(), 400);
    assert_eq!(e.message(), "image input is not supported by this model");
    let e = ApiError::from_domain_error(ai_gateway::upstream::upstream_status_error(
        ProviderId::GoogleAiStudio,
        500,
        "oops",
    ));
    assert_eq!(e.status(), 502);
    assert_eq!(e.message(), "provider error: gemini status=500 Internal Server Error body=oops");
    let e = ApiError::from_domain_error(ai_gateway::upstream::upstream_status_error(
        ProviderId::Vertex,
        429,
        "slow down",
    ));
    assert_eq!(e.status(), 502);
    assert_eq!(e.message(), "provider error: vertex status=429 Too Many Requests body=slow down");
}

#[test]
fn api_key_must_be_listed() {
    let allowed = vec!["k1".to_string(), "k2".to_string()];
    assert_eq!(require_api_key(&allowed, Some("k2")), Ok(()));
    assert_eq!(require_api_key(&allowed, Some("k3")), Err(UNAUTHORIZED));
    assert_eq!(require_api_key(&allowed, Some("")), Err(401));
    assert_eq!(require_api_key(&allowed, None), Err(401));
}

#[test]
fn no_configured_keys_reject_everything() {
    let allowed: Vec<String> = vec![];
    assert_eq!(require_api_key(&allowed, Some("anything")), Err(401));
    assert_eq!(require_api_key(&allowed, None), Err(401));
}

#[test]
fn health_probes() {
    assert_eq!(healthz().status, "ok");
    assert_eq!(readyz().status, "ready");
}

use air_traffic_control::engine::build_assistant_message;
use air_traffic_control::engine::build_user_message;
use air_traffic_control::models::build_model_request;
use air_traffic_control::models::ModelSelector;
use air_traffic_control::models::OpenAICompatible;
use air_traffic_control::settings::ModelParams;
use air_traffic_control::settings::SessionSettings;
use air_traffic_control::store::Session;

#[test]
fn model_selection_prefers_override_then_session_then_global() {
    assert_eq!(
        ModelSelector::select(Some("o".into()), Some("s".into()), Some("g".into())),
        Some("o".to_string())
    );
    assert_eq!(
        ModelSelector::select(None, Some("s".into()), Some("g".into())),
        Some("s".to_string())
    );
    assert_eq!(ModelSelector::select(None, None, Some("g".into())), Some("g".to_string()));
    assert_eq!(ModelSelector::select(None, None, None), None);
}

#[test]
fn endpoint_falls_back_to_public_default() {
    let e = OpenAICompatible::from_parts(None, Some("test-key".into()));
    assert_eq!(e.base_url, "https://api.openai.com/v1");
    let e2 = OpenAICompatible::from_parts(Some("http://localhost:1234/v1".into()), None);
    assert_eq!(e2.base_url, "http://localhost:1234/v1");
    assert_eq!(e2.api_key, None);
}

#[test]
fn model_request_carries_session_parameters() {
    let params = ModelParams {
        temperature: Some(0.3f32.to_bits()),
        max_tokens: Some(512),
        top_p: None,
    };
    let req = build_model_request("m".into(), "p".into(), Some(params));
    assert_eq!(req.model, "m");
    assert_eq!(req.prompt, "p");
    assert_eq!(req.temperature, Some(0.3f32.to_bits()));
    assert_eq!(req.max_tokens, Some(512));
    assert_eq!(req.top_p, None);

    let bare = build_model_request("m".into(), "p".into(), None);
    assert_eq!(bare.temperature, None);
}

#[test]
fn new_session_has_uuid_and_empty_logs() {
    let s = Session::new(Some("c".into()), SessionSettings::default(), 42);
    assert_eq!(s.id.len(), 36);
    assert_eq!(s.client_id.as_deref(), Some("c"));
    assert_eq!(s.created_at, 42);
    assert!(s.messages.is_empty());
    assert!(s.tool_history.is_empty());
    let other = Session::new(None, SessionSettings::default(), 42);
    assert_ne!(s.id, other.id);
}

#[test]
fn posted_messages_are_summarized() {
    let long = "a".repeat(300);
    let m = build_user_message(None, &long, Some("m".into()), 7);
    assert_eq!(m.role, "user");
    assert_eq!(m.content_summary.chars().count(), 201);
    assert!(m.content_summary.ends_with('\u{2026}'));
    assert_eq!(m.model_used.as_deref(), Some("m"));
    assert_eq!(m.created_at, 7);

    let named = build_user_message(Some("system".into()), "short", None, 8);
    assert_eq!(named.role, "system");
    assert_eq!(named.content_summary, "short");

    let a = build_assistant_message("reply", "m2".into(), 9);
    assert_eq!(a.role, "assistant");
    assert_eq!(a.content_summary, "reply");
    assert_eq!(a.model_used.as_deref(), Some("m2"));
}

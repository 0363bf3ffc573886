use air_traffic_control::settings::GlobalConfigDefaults;
use air_traffic_control::settings::ModelParams;
use air_traffic_control::settings::ModelParamsPatch;
use air_traffic_control::settings::RequestOverrides;
use air_traffic_control::settings::SessionSettings;
use air_traffic_control::settings::SessionSettingsPatch;
use air_traffic_control::settings::ToolPolicies;
use air_traffic_control::settings::ToolPoliciesPatch;
use air_traffic_control::settings::resolve_effective_settings;

#[test]
fn precedence_request_over_session_over_global() {
    let global = GlobalConfigDefaults {
        default_model: Some("global-model".into()),
        model_params: Some(ModelParams {
            temperature: Some(0.1f32.to_bits()),
            max_tokens: Some(1000),
            top_p: Some(0.9f32.to_bits()),
        }),
        tool_policies: Some(ToolPolicies {
            dry_run: Some(true),
            max_read_bytes: Some(1024),
        }),
    };

    let session = SessionSettings {
        default_model: Some("session-model".into()),
        model_params: Some(ModelParams {
            temperature: Some(0.2f32.to_bits()),
            max_tokens: None,
            top_p: None,
        }),
        project_root: Some("/repo".into()),
        tool_policies: Some(ToolPolicies {
            dry_run: Some(false),
            max_read_bytes: None,
        }),
        network_allowlist: None,
    };

    let request = RequestOverrides {
        model: Some("request-model".into()),
        model_params: Some(ModelParams {
            temperature: None,
            max_tokens: Some(2048),
            top_p: None,
        }),
        tool_policies: Some(ToolPolicies {
            dry_run: None,
            max_read_bytes: Some(2048),
        }),
    };

    let eff = resolve_effective_settings(&global, &session, &request);

    assert_eq!(eff.model.as_deref(), Some("request-model"));
    assert_eq!(eff.model_params.temperature, Some(0.2f32.to_bits())); // from session
    assert_eq!(eff.model_params.max_tokens, Some(2048)); // from request
    assert_eq!(eff.model_params.top_p, Some(0.9f32.to_bits())); // from global
    assert_eq!(eff.project_root.as_deref(), Some("/repo"));
    assert_eq!(eff.tool_policies.dry_run, Some(false)); // from session
    assert_eq!(eff.tool_policies.max_read_bytes, Some(2048)); // from request
}

#[test]
fn patch_updates_nested_fields_and_allows_clear() {
    let mut session = SessionSettings {
        default_model: Some("gpt-4".into()),
        model_params: Some(ModelParams {
            temperature: Some(0.5f32.to_bits()),
            max_tokens: Some(1024),
            top_p: Some(1.0f32.to_bits()),
        }),
        project_root: Some("/repo".into()),
        tool_policies: Some(ToolPolicies {
            dry_run: Some(true),
            max_read_bytes: Some(1024),
        }),
        network_allowlist: Some(vec!["example.com".into()]),
    };

    let patch = SessionSettingsPatch {
        default_model: Some(Some("gpt-4o".into())),
        model_params: Some(ModelParamsPatch {
            temperature: Some(Some(0.2f32.to_bits())),
            max_tokens: Some(None),
            top_p: None,
        }),
        project_root: Some(None),
        tool_policies: Some(ToolPoliciesPatch {
            dry_run: Some(Some(false)),
            max_read_bytes: Some(Some(2048)),
        }),
        network_allowlist: Some(Some(vec!["docs.rs".into()])),
    };

    session.apply_patch(patch);

    assert_eq!(session.default_model.as_deref(), Some("gpt-4o"));
    let mp = session.model_params.unwrap();
    assert_eq!(mp.temperature, Some(0.2f32.to_bits()));
    assert_eq!(mp.max_tokens, None); // cleared
    assert_eq!(mp.top_p, Some(1.0f32.to_bits())); // unchanged
    assert_eq!(session.project_root, None); // cleared
    let tp = session.tool_policies.unwrap();
    assert_eq!(tp.dry_run, Some(false));
    assert_eq!(tp.max_read_bytes, Some(2048));
    assert_eq!(session.network_allowlist, Some(vec!["docs.rs".to_string()]));
}

#[test]
fn empty_patch_leaves_settings_unchanged() {
    let original = SessionSettings {
        default_model: Some("m".into()),
        model_params: Some(ModelParams {
            temperature: Some(0.7f32.to_bits()),
            max_tokens: Some(64),
            top_p: None,
        }),
        project_root: Some("/tmp/x".into()),
        tool_policies: Some(ToolPolicies {
            dry_run: Some(false),
            max_read_bytes: Some(4096),
        }),
        network_allowlist: Some(vec!["example.com".into()]),
    };
    let mut patched = original.clone();
    patched.apply_patch(SessionSettingsPatch::default());
    assert_eq!(patched, original);
}

#[test]
fn defaults_are_all_absent() {
    let s = SessionSettings::default();
    assert_eq!(s.default_model, None);
    assert_eq!(s.model_params, None);
    assert_eq!(s.project_root, None);
    assert_eq!(s.tool_policies, None);
    assert_eq!(s.network_allowlist, None);
}

use std::time::Duration;

use swink_agent::metrics::{ToolExecMetrics, TurnMetrics};
use swink_agent::model_catalog::{
    model_capabilities, preset_model_spec, replacement_model_id, status_is_deprecated,
    PresetCapability, PresetStatus, ProviderKind,
};
use swink_agent::noop_tool::NoopTool;
use swink_agent::otel::{exporter_build_error, resolved_endpoint, OtelInitConfig, OtelInitError};
use swink_agent::stream_options::{
    unsupported_fields, CacheStrategy, ReasoningEffort, ServingFieldsSet, ServingOptionSupport,
    StreamTransport,
};
use swink_agent::tool::AgentTool;
use swink_agent::{ContentBlock, ModelSpec, ThinkingLevel, Usage};

#[test]
fn noop_tool_noop_tool_name_matches() {
    let tool = NoopTool::new("old_tool");
    assert_eq!(tool.name(), "old_tool");
}

#[test]
fn noop_tool_noop_tool_no_approval_required() {
    let tool = NoopTool::new("removed_tool");
    assert!(!tool.requires_approval());
}

#[test]
fn noop_tool_tests_noop_tool_name_matches() {
    let tool = NoopTool::new("old_tool");
    assert_eq!(tool.name(), "old_tool");
}

#[test]
fn noop_tool_tests_noop_tool_no_approval_required() {
    let tool = NoopTool::new("removed_tool");
    assert!(!tool.requires_approval());
}

#[test]
fn noop_tool_answers_with_an_error_naming_the_tool() {
    let tool = NoopTool::new("deleted_tool");
    let result = tool.unavailable_result();
    assert!(result.is_error);
    let ContentBlock::Text { text } = &result.content[0] else {
        panic!("expected text content");
    };
    assert_eq!(
        text,
        "Tool 'deleted_tool' is no longer available. It may have been removed or renamed."
    );
}

#[test]
fn otel_otel_init_config_defaults() {
    let config = OtelInitConfig::default();
    assert_eq!(config.service_name, "swink-agent");
    assert!(config.endpoint.is_none());
}

#[test]
fn otel_tests_otel_init_config_defaults() {
    let config = OtelInitConfig::default();
    assert_eq!(config.service_name, "swink-agent");
    assert!(config.endpoint.is_none());
}

#[test]
fn otel_endpoint_defaults_to_local_collector() {
    let config = OtelInitConfig::default();
    assert_eq!(resolved_endpoint(&config), "http://localhost:4317");
    let config = OtelInitConfig {
        service_name: "svc".to_string(),
        endpoint: Some("http://collector:4317".to_string()),
    };
    assert_eq!(resolved_endpoint(&config), "http://collector:4317");
}

#[test]
fn otel_errors_carry_their_text() {
    assert_eq!(OtelInitError::new("boom").message(), "boom");
    assert_eq!(
        exporter_build_error("bad uri").message(),
        "failed to build OTLP exporter: bad uri"
    );
}

#[test]
fn model_catalog_manual_model_spec_defaults_to_no_capabilities() {
    let spec = ModelSpec::new("custom", "my-model");
    let caps = spec.capabilities();
    assert!(!caps.supports_thinking);
    assert!(!caps.supports_vision);
    assert!(!caps.supports_tool_use);
    assert!(!caps.supports_streaming);
    assert!(!caps.supports_structured_output);
    assert_eq!(caps.max_context_window, None);
    assert_eq!(caps.max_output_tokens, None);
}

#[test]
fn model_catalog_tests_manual_model_spec_defaults_to_no_capabilities() {
    let spec = ModelSpec::new("custom", "my-model");
    let caps = spec.capabilities();
    assert!(!caps.supports_thinking);
    assert!(!caps.supports_vision);
    assert!(!caps.supports_tool_use);
    assert!(!caps.supports_streaming);
    assert!(!caps.supports_structured_output);
    assert_eq!(caps.max_context_window, None);
    assert_eq!(caps.max_output_tokens, None);
}

#[test]
fn capabilities_follow_the_declared_list() {
    let caps = model_capabilities(
        &[PresetCapability::Text, PresetCapability::Tools, PresetCapability::ImagesIn],
        Some(200_000),
        Some(8_192),
    );
    assert!(caps.supports_tool_use);
    assert!(caps.supports_vision);
    assert!(!caps.supports_thinking);
    assert!(!caps.supports_streaming);
    assert!(!caps.supports_structured_output);
    assert_eq!(caps.max_context_window, Some(200_000));
    assert_eq!(caps.max_output_tokens, Some(8_192));
}

#[test]
fn local_thinking_preset_defaults_to_thinking_on() {
    let spec = preset_model_spec(
        "ollama",
        "qwen3",
        ProviderKind::Local,
        &[PresetCapability::Thinking, PresetCapability::Streaming],
        None,
        None,
    );
    assert_eq!(spec.thinking_level, ThinkingLevel::Medium);
    assert_eq!(spec.provider, "ollama");
    assert_eq!(spec.model_id, "qwen3");
    assert!(spec.capabilities().supports_thinking);
    let spec = spec.with_thinking_level(ThinkingLevel::Off);
    assert_eq!(spec.thinking_level, ThinkingLevel::Off);
}

#[test]
fn remote_thinking_preset_stays_opt_in() {
    let spec = preset_model_spec(
        "remote",
        "deep-1",
        ProviderKind::Remote,
        &[PresetCapability::Thinking],
        None,
        None,
    );
    assert_eq!(spec.thinking_level, ThinkingLevel::Off);
    let spec = preset_model_spec("local", "small", ProviderKind::Local, &[PresetCapability::Text], None, None);
    assert_eq!(spec.thinking_level, ThinkingLevel::Off);
}

#[test]
fn deprecation_and_replacement() {
    let deprecated = Some(PresetStatus::Deprecated { replacement_model_id: Some("next-1".to_string()) });
    assert!(status_is_deprecated(&deprecated));
    assert_eq!(replacement_model_id(&deprecated), Some("next-1"));
    let no_successor = Some(PresetStatus::Deprecated { replacement_model_id: None });
    assert!(status_is_deprecated(&no_successor));
    assert_eq!(replacement_model_id(&no_successor), None);
    assert!(!status_is_deprecated(&Some(PresetStatus::Ga)));
    assert!(!status_is_deprecated(&None));
    assert_eq!(replacement_model_id(&Some(PresetStatus::Preview)), None);
    assert!(PresetStatus::Deprecated { replacement_model_id: None }.is_deprecated());
    assert!(!PresetStatus::Ga.is_deprecated());
}

#[test]
fn all_and_none_cover_reasoning_effort() {
    assert!(ServingOptionSupport::all().reasoning_effort);
    assert!(!ServingOptionSupport::none().reasoning_effort);
}

#[test]
fn unsupported_reasoning_effort_is_reported() {
    let set = ServingFieldsSet {
        context_length: false,
        top_p: false,
        keep_alive: false,
        format: false,
        reasoning_effort: true,
        extra: false,
    };
    let dropped = unsupported_fields(set, ServingOptionSupport::none());
    assert_eq!(dropped, vec!["reasoning_effort"]);
    let honored = unsupported_fields(set, ServingOptionSupport::none().with_reasoning_effort(true));
    assert!(honored.is_empty());
}

#[test]
fn unsupported_fields_keep_field_order() {
    let set = ServingFieldsSet {
        context_length: true,
        top_p: true,
        keep_alive: true,
        format: true,
        reasoning_effort: true,
        extra: true,
    };
    assert_eq!(
        unsupported_fields(set, ServingOptionSupport::none()),
        vec!["context_length", "top_p", "keep_alive", "format", "reasoning_effort", "extra"]
    );
    let support = ServingOptionSupport::all().with_top_p(false).with_extra(false);
    assert_eq!(unsupported_fields(set, support), vec!["top_p", "extra"]);
    assert!(unsupported_fields(set, ServingOptionSupport::all()).is_empty());
    let support = ServingOptionSupport::none()
        .with_context_length(true)
        .with_keep_alive(true)
        .with_format(true);
    assert_eq!(unsupported_fields(set, support), vec!["top_p", "reasoning_effort", "extra"]);
}

#[test]
fn stream_defaults() {
    assert_eq!(StreamTransport::default(), StreamTransport::Sse);
    assert!(matches!(CacheStrategy::default(), CacheStrategy::Disabled));
    let google = CacheStrategy::Google { ttl: Duration::from_secs(60) };
    assert!(matches!(google.clone(), CacheStrategy::Google { ttl } if ttl == Duration::from_secs(60)));
    assert_ne!(ReasoningEffort::XHigh, ReasoningEffort::High);
}

#[test]
fn metrics_constructors() {
    let tool = ToolExecMetrics::new("search", Duration::from_millis(5), true);
    assert_eq!(tool.tool_name, "search");
    assert!(tool.success);
    let turn = TurnMetrics::new(2, Duration::from_millis(10), Usage::default(), Duration::from_millis(20));
    assert!(turn.tool_executions.is_empty());
    let turn = turn.with_tool_executions(vec![tool]);
    assert_eq!(turn.turn_index, 2);
    assert_eq!(turn.tool_executions.len(), 1);
    assert_eq!(turn.turn_duration, Duration::from_millis(20));
}

use swink_agent::model_catalog::{
    find_preset, find_preset_by_model_id, find_provider, pricing_is_stale, PresetKeys, ProviderKeys,
};

fn provider(key: &str, presets: &[(&str, &str)]) -> ProviderKeys {
    ProviderKeys {
        key: key.to_string(),
        presets: presets
            .iter()
            .map(|(id, model)| PresetKeys { id: id.to_string(), model_id: model.to_string() })
            .collect(),
    }
}

#[test]
fn catalog_lookups_take_the_first_match() {
    let catalog = vec![
        provider("alpha", &[("small", "a-small-1"), ("large", "a-large-2")]),
        provider("beta", &[("small", "b-small-1"), ("shared", "a-large-2")]),
        provider("alpha", &[("extra", "a-extra-1")]),
    ];
    assert_eq!(find_provider(&catalog, "beta"), Some(1));
    assert_eq!(find_provider(&catalog, "gamma"), None);
    assert_eq!(find_preset(&catalog, "alpha", "large"), Some((0, 1)));
    assert_eq!(find_preset(&catalog, "beta", "small"), Some((1, 0)));
    assert_eq!(find_preset(&catalog, "beta", "missing"), None);
    assert_eq!(find_preset_by_model_id(&catalog, "a-large-2"), Some((0, 1)));
    assert_eq!(find_preset_by_model_id(&catalog, "b-small-1"), Some((1, 0)));
    assert_eq!(find_preset_by_model_id(&catalog, "nope"), None);
    // The only preset naming this model sits under a repeated provider key,
    // so resolving it by key and id finds the first provider, which lacks it.
    assert_eq!(find_preset_by_model_id(&catalog, "a-extra-1"), None);
}

#[test]
fn pricing_staleness_threshold_is_strict() {
    assert!(pricing_is_stale(181, 180));
    assert!(!pricing_is_stale(180, 180));
    assert!(!pricing_is_stale(-3, 0));
}

use swink_agent::stream_options::{is_rate_limit_header, rate_limit_field, RateLimitField};

#[test]
fn rate_limit_headers_are_recognised() {
    assert!(is_rate_limit_header("x-ratelimit-remaining-requests"));
    assert!(is_rate_limit_header("anthropic-ratelimit-tokens-remaining"));
    assert!(is_rate_limit_header("x-rate-limit-foo"));
    assert!(is_rate_limit_header("x-codex-plan-type"));
    assert!(is_rate_limit_header("retry-after"));
    assert!(!is_rate_limit_header("content-type"));
    assert!(!is_rate_limit_header("retry-after-ms"));
    assert_eq!(rate_limit_field("x-codex-primary-used-percent"), RateLimitField::UsedPercent);
    assert_eq!(rate_limit_field("anthropic-ratelimit-requests-remaining"), RateLimitField::RemainingRequests);
    assert_eq!(rate_limit_field("x-ratelimit-remaining-tokens"), RateLimitField::RemainingTokens);
    assert_eq!(rate_limit_field("x-ratelimit-reset-requests"), RateLimitField::ResetsIn);
    assert_eq!(rate_limit_field("retry-after"), RateLimitField::RetryAfter);
    assert_eq!(rate_limit_field("x-codex-primary-window-minutes"), RateLimitField::WindowMinutes);
    assert_eq!(rate_limit_field("x-codex-plan-type"), RateLimitField::Plan);
    assert_eq!(rate_limit_field("x-ratelimit-limit-requests"), RateLimitField::Other);
}

use cutlass_ai::catalog::OPENROUTER_BASE_URL;
use cutlass_ai::compat::{OpenAiProtocol, ReasoningSummary};
use cutlass_ai::config::{provider_plan, resolve_api_key, validate_ai_settings, AiSource};

#[test]
fn literal_key_passes_through() {
    assert_eq!(
        resolve_api_key(Some("sk-literal"), None, None),
        Ok(Some("sk-literal".into()))
    );
    assert_eq!(resolve_api_key(None, None, None), Ok(None));
}

#[test]
fn env_value_wins_over_literal_and_unset_is_an_error() {
    let err = resolve_api_key(Some("ignored"), Some("CUTLASS_TEST_KEY_THAT_IS_UNSET"), None)
        .unwrap_err();
    assert!(err.contains("unset"), "{err}");
    assert_eq!(
        resolve_api_key(Some("ignored"), Some("CUTLASS_TEST_KEY_PRESENT"), Some("sk-from-env".into())),
        Ok(Some("sk-from-env".into()))
    );
    assert!(resolve_api_key(None, Some("EMPTY"), Some(String::new())).is_err());
}

#[test]
fn validate_rejects_unknown_local_model() {
    let err = validate_ai_settings(AiSource::Local, true, "not-a-real-model").unwrap_err();
    assert!(err.contains("supported local"));
    let padded = validate_ai_settings(AiSource::Local, true, " not-a-real-model ").unwrap_err();
    assert_eq!(padded, "Model 'not-a-real-model' is not in the supported local list.");
    assert_eq!(validate_ai_settings(AiSource::Local, true, "qwen3:14b"), Ok(()));
    assert_eq!(validate_ai_settings(AiSource::Custom, true, "anything"), Ok(()));
}

#[test]
fn unconfigured_settings_say_what_is_missing() {
    assert_eq!(
        validate_ai_settings(AiSource::OpenRouter, false, "openai/gpt-5.6-sol"),
        Err("OpenRouter needs an API key and a supported model.".to_string())
    );
    assert_eq!(
        validate_ai_settings(AiSource::Custom, false, ""),
        Err("Advanced AI needs an endpoint URL and a model name.".to_string())
    );
}

#[test]
fn openrouter_plans_need_a_key_and_use_the_fixed_endpoint() {
    assert!(validate_ai_settings(AiSource::OpenRouter, true, "openai/gpt-5.6-sol").is_ok());
    let plan = provider_plan(
        AiSource::OpenRouter,
        "ignored",
        " openai/gpt-5.6-sol ",
        Some("sk-or".into()),
        OpenAiProtocol::Responses,
        ReasoningSummary::Auto,
    )
    .unwrap();
    assert_eq!(plan.base_url, OPENROUTER_BASE_URL);
    assert_eq!(plan.model, "openai/gpt-5.6-sol");
    assert_eq!(plan.protocol, OpenAiProtocol::ChatCompletions);
    assert_eq!(plan.reasoning_summary, ReasoningSummary::Off);
    assert!(plan.extras.openrouter_headers);

    let missing = provider_plan(
        AiSource::OpenRouter,
        "",
        "openai/gpt-5.6-sol",
        None,
        OpenAiProtocol::ChatCompletions,
        ReasoningSummary::Off,
    );
    assert_eq!(
        missing,
        Err("OpenRouter requires an API key (paste it in Settings or set api_key_env).".to_string())
    );
}

#[test]
fn custom_plans_keep_the_chosen_protocol() {
    let plan = provider_plan(
        AiSource::Custom,
        " https://api.example.test/v1 ",
        "gpt-reasoning",
        None,
        OpenAiProtocol::Responses,
        ReasoningSummary::Auto,
    )
    .unwrap();
    assert_eq!(plan.base_url, "https://api.example.test/v1");
    assert_eq!(plan.protocol, OpenAiProtocol::Responses);
    assert_eq!(plan.reasoning_summary, ReasoningSummary::Auto);
    assert!(!plan.extras.openrouter_headers);
}

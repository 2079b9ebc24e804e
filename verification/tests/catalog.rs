use cutlass_ai::catalog::{
    is_known_local_model, is_known_openrouter_model, local_model, local_models_availability,
    openrouter_model, resolve_local_installed_id, DEFAULT_LOCAL_MODEL, DEFAULT_OPENROUTER_MODEL,
};

#[test]
fn local_aliases_resolve_ollama_and_lmstudio() {
    let installed: Vec<String> = vec!["qwen3-14b".into(), "other".into()];
    assert_eq!(
        resolve_local_installed_id("qwen3:14b", &installed).as_deref(),
        Some("qwen3-14b")
    );
    assert!(is_known_local_model("qwen3-14b"));
    assert_eq!(local_model("qwen3-14b").unwrap().id, "qwen3:14b");
}

#[test]
fn openrouter_pin_present_for_open_weight() {
    let m = openrouter_model("openai/gpt-oss-120b").unwrap();
    let pin = m.pin.expect("pin");
    assert_eq!(pin.order, &["groq"]);
    assert!(!pin.allow_fallbacks);
}

#[test]
fn defaults_are_in_allowlists() {
    assert!(is_known_local_model(DEFAULT_LOCAL_MODEL));
    assert!(is_known_openrouter_model(DEFAULT_OPENROUTER_MODEL));
}

#[test]
fn lookups_trim_and_reject_unknown_ids() {
    assert_eq!(local_model("  gpt-oss-20b \n").unwrap().id, "gpt-oss:20b");
    assert!(local_model("not-a-real-model").is_none());
    assert!(!is_known_openrouter_model("openai/gpt-4"));
    assert_eq!(openrouter_model(" z-ai/glm-5 ").unwrap().display, "GLM-5");
    assert!(openrouter_model("openai/gpt-5.5").unwrap().pin.is_none());
}

#[test]
fn installed_ids_match_vendor_prefixes_and_tag_suffixes() {
    let installed: Vec<String> = vec!["lmstudio-community/qwen3-32b".into()];
    assert_eq!(
        resolve_local_installed_id("qwen3:32b", &installed).as_deref(),
        Some("lmstudio-community/qwen3-32b")
    );
    let tagged: Vec<String> = vec!["llama3.3:70b-instruct-q4".into()];
    assert_eq!(
        resolve_local_installed_id("llama3.3:70b", &tagged).as_deref(),
        Some("llama3.3:70b-instruct-q4")
    );
    let unrelated: Vec<String> = vec!["qwen3-14bx".into()];
    assert_eq!(resolve_local_installed_id("qwen3:14b", &unrelated), None);
    assert_eq!(resolve_local_installed_id("unknown", &tagged), None);
}

#[test]
fn availability_lists_every_entry_in_order() {
    let installed: Vec<String> = vec!["gpt-oss:120b".into()];
    let rows = local_models_availability(&installed);
    assert_eq!(rows.len(), 5);
    assert_eq!(rows[0].0.id, "qwen3:14b");
    assert!(!rows[0].1);
    assert_eq!(rows[4].0.id, "gpt-oss:120b");
    assert!(rows[4].1);
    assert_eq!(rows[4].2.as_deref(), Some("gpt-oss:120b"));
}

#[test]
fn exact_alias_hit_wins_over_tagged_match() {
    let installed: Vec<String> = vec!["qwen3:14b-q4_K_M".into(), "qwen3-14b".into()];
    assert_eq!(
        resolve_local_installed_id("qwen3:14b", &installed).as_deref(),
        Some("qwen3-14b")
    );
    let tagged_only: Vec<String> = vec!["qwen3:14b-q4_K_M".into()];
    assert_eq!(
        resolve_local_installed_id("qwen3:14b", &tagged_only).as_deref(),
        Some("qwen3:14b-q4_K_M")
    );
}

use llmman_launch::codex::{
    codex_config_rewrite, codex_context_window, codex_model_catalog, codex_profile, needs_write,
    strip_legacy_llmman_profile, CODEX_FALLBACK_CONTEXT_WINDOW,
};
use llmman_launch::settings::read_object;
use llmman_launch::value::to_value;

fn json(text: &str) -> serde_json::Value {
    serde_json::from_str(text).unwrap()
}

#[test]
fn strip_legacy_llmman_profile_removes_only_that_table() {
    let existing = "\
[some_other_setting]
foo = \"bar\"

[profiles.llmman]
openai_base_url = \"http://127.0.0.1:17434/v1\"

[profiles.other]
model = \"gpt-5\"
";
    let cleaned = strip_legacy_llmman_profile(existing);
    assert!(!cleaned.contains("[profiles.llmman]"));
    assert!(!cleaned.contains("openai_base_url"));
    assert!(cleaned.contains("[some_other_setting]"));
    assert!(cleaned.contains("foo = \"bar\""));
    assert!(cleaned.contains("[profiles.other]"));
    assert!(cleaned.contains("model = \"gpt-5\""));
}

#[test]
fn strip_legacy_llmman_profile_is_a_no_op_without_the_legacy_table() {
    let existing = "[profiles.other]\nmodel = \"gpt-5\"\n";
    assert_eq!(strip_legacy_llmman_profile(existing), existing);
}

#[test]
fn strip_legacy_llmman_profile_handles_the_table_at_end_of_file() {
    let existing = "[profiles.llmman]\nopenai_base_url = \"http://127.0.0.1:17434/v1\"\n";
    assert_eq!(strip_legacy_llmman_profile(existing), "");
}

#[test]
fn strip_legacy_llmman_profile_reads_windows_line_ends_and_repeats() {
    let existing = "a = 1\r\n  [profiles.llmman]  \r\nb = 2\r\n[x]\r\nc = 3\n[profiles.llmman]\nd = 4";
    let cleaned = strip_legacy_llmman_profile(existing);
    assert_eq!(cleaned, "a = 1\n[x]\nc = 3\n");
    assert_eq!(strip_legacy_llmman_profile(&cleaned), cleaned);
}

#[test]
fn codex_profile_is_a_websocket_free_provider_at_the_daemon() {
    let profile: toml::Value = codex_profile("http://127.0.0.1:17434", None)
        .parse()
        .expect("valid TOML");
    assert_eq!(profile["model_provider"].as_str(), Some("llmman"));
    let provider = &profile["model_providers"]["llmman"];
    assert_eq!(
        provider["base_url"].as_str(),
        Some("http://127.0.0.1:17434/v1")
    );
    assert_eq!(provider["env_key"].as_str(), Some("OPENAI_API_KEY"));
    assert_eq!(provider["wire_api"].as_str(), Some("responses"));
    assert_eq!(provider["supports_websockets"].as_bool(), Some(false));
    assert!(
        profile.get("openai_base_url").is_none(),
        "the built-in openai provider is not the one in use"
    );
    assert!(
        profile.get("model_catalog_json").is_none(),
        "no model, no catalog to point at"
    );
}

#[test]
fn codex_profile_names_the_catalog_it_was_given() {
    let path = "/home/we\"ird/.codex/llmman-model.json";
    let profile: toml::Value = codex_profile("http://h", Some(path))
        .parse()
        .expect("valid TOML");
    assert_eq!(profile["model_catalog_json"].as_str(), Some(path));
}

#[test]
fn codex_profile_is_laid_out_line_by_line() {
    assert_eq!(
        codex_profile("http://h", Some("/c")),
        "# Written by `llmman launch codex`; edits are overwritten.\n\
         model_provider = \"llmman\"\n\
         model_catalog_json = \"/c\"\n\
         \n\
         [model_providers.llmman]\n\
         name = \"llmman\"\n\
         base_url = \"http://h/v1\"\n\
         env_key = \"OPENAI_API_KEY\"\n\
         wire_api = \"responses\"\n\
         supports_websockets = false\n"
    );
}

#[test]
fn codex_model_catalog_declares_image_input_only_for_a_vision_model() {
    let catalog = json(&codex_model_catalog("m", true, 32768));
    let entry = &catalog["models"][0];
    assert_eq!(entry["input_modalities"], json(r#"["text", "image"]"#));
    assert_eq!(entry["slug"], "m");
    assert_eq!(entry["display_name"], "m");
    assert_eq!(entry["context_window"], 32768);
    // Fields codex requires of an entry.
    for key in [
        "context_window",
        "shell_type",
        "visibility",
        "supported_in_api",
        "priority",
        "truncation_policy",
        "support_verbosity",
        "supported_reasoning_levels",
        "experimental_supported_tools",
    ] {
        assert!(entry.get(key).is_some(), "missing {key}");
    }

    let text_only = json(&codex_model_catalog("m", false, 32768));
    assert_eq!(
        text_only["models"][0]["input_modalities"],
        json(r#"["text"]"#)
    );
}

#[test]
fn codex_model_catalog_holds_one_entry_and_ends_its_line() {
    let text = codex_model_catalog("m", false, 7);
    assert!(text.ends_with("}\n"), "{text}");
    assert_eq!(
        json(&text),
        json(
            r#"{ "models": [ { "slug": "m", "display_name": "m", "context_window": 7,
                "shell_type": "default", "visibility": "list", "supported_in_api": true,
                "priority": 0, "truncation_policy": { "mode": "bytes", "limit": 10000 },
                "input_modalities": ["text"], "base_instructions": "",
                "support_verbosity": true, "default_verbosity": "low",
                "supports_parallel_tool_calls": false, "supports_reasoning_summaries": false,
                "supported_reasoning_levels": [], "experimental_supported_tools": [] } ] }"#
        )
    );
}

#[test]
fn codex_context_window_is_what_the_daemon_serves() {
    let cases = [
        // A positive LLMMAN_CONTEXT_LENGTH is the served --ctx-size.
        (Some(16384), Some(32768), 16384),
        (Some(65536), Some(32768), 65536),
        (Some(16384), None, 16384),
        // Unset or 0: the trained context.
        (None, Some(32768), 32768),
        (Some(0), Some(32768), 32768),
        (None, Some(1 << 20), 1 << 20),
        (Some(0), None, CODEX_FALLBACK_CONTEXT_WINDOW),
        (None, None, CODEX_FALLBACK_CONTEXT_WINDOW),
    ];
    for (env, trained, want) in cases {
        assert_eq!(
            codex_context_window(env, trained),
            want,
            "env={env:?} trained={trained:?}"
        );
    }
    assert_eq!(CODEX_FALLBACK_CONTEXT_WINDOW, 128_000);
}

#[test]
fn codex_config_is_rewritten_only_for_the_legacy_table() {
    assert_eq!(
        codex_config_rewrite(Some("[profiles.llmman]\na = 1\n[x]\n")).as_deref(),
        Some("[x]\n")
    );
    assert_eq!(codex_config_rewrite(Some("x = 1\n")), None);
    assert_eq!(codex_config_rewrite(None), None);
}

#[test]
fn codex_catalog_is_read_back_as_an_object() {
    let text = codex_model_catalog("we\"ird\\", true, u64::MAX);
    let read = read_object(Some(&text), false).expect("an object");
    assert_eq!(to_value(&read), json(&text));
    assert_eq!(json(&text)["models"][0]["slug"], "we\"ird\\");
    assert_eq!(json(&text)["models"][0]["context_window"], u64::MAX);
}

#[test]
fn a_file_is_written_unless_it_holds_just_that() {
    assert!(needs_write(None, "a"));
    assert!(needs_write(Some("b"), "a"));
    assert!(!needs_write(Some("a"), "a"));
}

use llmman_launch::agy::{agy_base_url, agy_refusal, AGY_SETTINGS};
use llmman_launch::goose::goose_env;
use llmman_launch::grok::{grok_args, grok_config_document, grok_env, GROK_API_KEY_ENV};

fn args(list: &[&str]) -> Vec<String> {
    list.iter().map(|s| s.to_string()).collect()
}

#[test]
fn agy_settings_are_written_to_the_llmman_owned_directory() {
    assert_eq!(AGY_SETTINGS, "{\n  \"modelProvider\": \"gemini\"\n}\n");
}

#[test]
fn agy_urls_carry_the_model_in_base64() {
    let url = |model: &str| agy_base_url("http://h", model);
    assert_eq!(url(""), "http://h/gemini/");
    assert_eq!(url("f"), "http://h/gemini/Zg");
    assert_eq!(url("fo"), "http://h/gemini/Zm8");
    assert_eq!(url("foo"), "http://h/gemini/Zm9v");
    assert_eq!(url("foob"), "http://h/gemini/Zm9vYg");
    assert_eq!(url("fooba"), "http://h/gemini/Zm9vYmE");
    assert_eq!(url("foobar"), "http://h/gemini/Zm9vYmFy");
    assert_eq!(
        url("docker.io/ai/qwen3.5:0.8b, and some more of it"),
        "http://h/gemini/ZG9ja2VyLmlvL2FpL3F3ZW4zLjU6MC44YiwgYW5kIHNvbWUgbW9yZSBvZiBpdA"
    );
    // The two characters of the URL-safe alphabet.
    assert_eq!(url("\u{3ff}~?"), "http://h/gemini/z79-Pw");
    assert_eq!(url("???"), "http://h/gemini/Pz8_");
    assert_ne!(url("a"), url("b"));
}

#[test]
fn agy_keeps_its_directory_to_llmman() {
    let refused = "llmman manages AGY\u{2019}s --gemini_dir";
    for extra in [
        args(&["--gemini_dir", "x"]),
        args(&["a", "--gemini_dir=x"]),
        args(&["-gemini_dir"]),
        args(&["-gemini_dir=x=y"]),
    ] {
        assert_eq!(agy_refusal(&extra).as_deref(), Some(refused));
    }
    assert_eq!(agy_refusal(&args(&["--gemini_dirs", "gemini_dir"])), None);
    assert_eq!(agy_refusal(&args(&[])), None);
}

#[test]
fn goose_env_points_at_the_daemon_and_carries_the_key() {
    let env = goose_env("m", "k", "http://127.0.0.1:17434");
    let get = |k| env.iter().find(|(n, _)| *n == k).map(|(_, v)| *v);
    assert_eq!(get("GOOSE_PROVIDER"), Some("openai"));
    assert_eq!(get("GOOSE_MODEL"), Some("m"));
    assert_eq!(get("OPENAI_API_KEY"), Some("k"));
    assert_eq!(get("OPENAI_HOST"), Some("http://127.0.0.1:17434"));
    assert_eq!(get("OPENAI_BASE_PATH"), Some("v1/chat/completions"));

    let env = goose_env("", "k", "http://127.0.0.1:17434");
    assert!(!env.iter().any(|(n, _)| *n == "GOOSE_MODEL"));
}

#[test]
fn grok_env_points_every_model_path_at_llmman() {
    let env = grok_env(
        "docker.io/ai/qwen3.5:0.8b",
        "k",
        "http://127.0.0.1:17434/v1",
        "http://127.0.0.1:17434/v1/models",
        "/tmp/grok/llmman",
    );
    let get = |key| {
        env.iter()
            .find(|(name, _)| *name == key)
            .map(|(_, value)| *value)
    };
    assert_eq!(
        get("GROK_MODELS_BASE_URL"),
        Some("http://127.0.0.1:17434/v1")
    );
    assert_eq!(get("GROK_HOME"), Some("/tmp/grok/llmman"));
    assert_eq!(
        get("GROK_MODELS_LIST_URL"),
        Some("http://127.0.0.1:17434/v1/models")
    );
    assert_eq!(get("GROK_DEFAULT_MODEL"), Some("docker.io/ai/qwen3.5:0.8b"));
    assert_eq!(
        get("GROK_WEB_SEARCH_MODEL"),
        Some("docker.io/ai/qwen3.5:0.8b")
    );
    assert_eq!(
        get("GROK_SESSION_SUMMARY_MODEL"),
        Some("docker.io/ai/qwen3.5:0.8b")
    );
    assert_eq!(
        get("GROK_IMAGE_DESCRIPTION_MODEL"),
        Some("docker.io/ai/qwen3.5:0.8b")
    );
    assert_eq!(
        get("GROK_PROMPT_SUGGESTIONS_MODEL"),
        Some("docker.io/ai/qwen3.5:0.8b")
    );
    assert_eq!(get(GROK_API_KEY_ENV), Some("k"));
    assert_eq!(get("XAI_API_KEY"), Some("k"));
}

#[test]
fn grok_config_uses_the_model_credential_without_persisting_it() {
    let model = r#"org/model.\"quoted\""#;
    let text = grok_config_document(model, "http://127.0.0.1:17434/v1");

    let parsed: toml::Value = text.parse().expect("valid TOML");
    let entry = &parsed["model"][model];
    assert_eq!(entry["model"].as_str(), Some(model));
    assert_eq!(
        entry["base_url"].as_str(),
        Some("http://127.0.0.1:17434/v1")
    );
    assert_eq!(entry["env_key"].as_str(), Some(GROK_API_KEY_ENV));
    assert_eq!(entry["api_backend"].as_str(), Some("chat_completions"));
    assert!(entry.get("api_key").is_none());
    assert!(text.contains("LLMMAN_GROK_API_KEY"));
}

#[test]
fn grok_args_add_the_model_and_yield_to_an_explicit_override() {
    assert_eq!(
        grok_args("m:latest", &args(&["--single", "hi"])),
        ["--model", "m:latest", "--single", "hi"]
    );
    assert_eq!(
        grok_args("m:latest", &args(&["-m", "theirs", "--single", "hi"])),
        ["-m", "theirs", "--single", "hi"]
    );
    assert_eq!(
        grok_args("m:latest", &args(&["--model=theirs"])),
        ["--model=theirs"]
    );
}

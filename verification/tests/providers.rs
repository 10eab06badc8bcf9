use llmman_launch::preflight::{check_model_flag, model_flag_forwarded, model_required};
use llmman_launch::providers::{
    check_provider_supported, format_remote_ref, integration_key, is_remote_ref,
    provider_needs_daemon_key, provider_unsupported, resolve_provider_model, split_remote_ref,
    unsupported_reason, Daemon, ProviderEntry,
};
use llmman_launch::registry::{integrations, Integration, Named};

fn listed() -> Vec<Integration> {
    integrations(&Named {
        name: "first".to_string(),
        description: "First Agent".to_string(),
    })
}

fn daemon() -> Daemon {
    Daemon {
        server: "http://127.0.0.1:17434".to_string(),
        bind_addr: "127.0.0.1:17434".to_string(),
        connects_securely: true,
        reachable_only_locally: true,
        client_key: None,
        placeholder: "placeholder".to_string(),
    }
}

fn entry() -> ProviderEntry {
    ProviderEntry {
        name: "OpenRouter".to_string(),
        key_usable: false,
        key_optional: false,
        daemon_key_usable: false,
        client_key: None,
        key_hint: "set OPENROUTER_API_KEY".to_string(),
        example_models: "Try one of these.".to_string(),
    }
}

#[test]
fn every_provider_unsupported_integration_is_a_real_one() {
    for (id, why) in provider_unsupported() {
        assert!(
            listed().iter().any(|i| i.name == id) || id == "copilot-cli",
            "{id} is not an integration"
        );
        assert!(!why.is_empty(), "{id} has no reason");
        assert_eq!(unsupported_reason(id), Some(why));
        assert!(
            check_provider_supported(id, &daemon()).is_err(),
            "{id} was accepted"
        );
        // Case-insensitively, the way `launch` dispatches.
        assert!(check_provider_supported(&id.to_uppercase(), &daemon()).is_err());
    }
    // Same for the ones that depend on the daemon holding the key:
    // a name nobody can type protects nobody.
    for id in ["hermes"] {
        assert!(provider_needs_daemon_key(id));
        assert!(
            listed().iter().any(|i| i.name == id),
            "{id} is not an integration"
        );
        assert!(
            !provider_unsupported().iter().any(|(u, _)| *u == id),
            "{id} is both refused outright and expected to work"
        );
    }
    let all = listed();
    let daemon_keyed: Vec<&str> = all
        .iter()
        .map(|i| i.name.as_str())
        .filter(|name| provider_needs_daemon_key(name))
        .collect();
    assert_eq!(daemon_keyed, ["hermes"]);
}

#[test]
fn provider_models_are_encoded_under_the_remote_prefix() {
    assert_eq!(
        format_remote_ref("openrouter", "qwen/qwen3-coder"),
        "llmman.provider/openrouter/qwen/qwen3-coder"
    );
    assert_eq!(
        split_remote_ref(&format_remote_ref("groq", "llama-3.3-70b")),
        Some(("groq", "llama-3.3-70b"))
    );
}

#[test]
fn a_reference_gives_back_a_model_with_slashes() {
    let reference = format_remote_ref("openrouter", "qwen/qwen3-coder");
    assert!(is_remote_ref(&reference));
    assert_eq!(
        split_remote_ref(&reference),
        Some(("openrouter", "qwen/qwen3-coder"))
    );
    assert_eq!(split_remote_ref("docker.io/ai/m"), None);
    assert_eq!(split_remote_ref("llmman.provider/alone"), None);
}

#[test]
fn local_models_are_unaffected_by_the_remote_prefix() {
    for (local, resolved) in [
        ("qwen3.5:0.8b", "docker.io/ai/qwen3.5:0.8b"),
        (
            "hf.co/unsloth/Qwen3.5-0.8B-GGUF",
            "hf.co/unsloth/Qwen3.5-0.8B-GGUF",
        ),
    ] {
        assert!(
            !is_remote_ref(resolved),
            "{local} resolved to a provider-routed reference: {resolved}"
        );
        assert!(!is_remote_ref(local));
    }
}

#[test]
fn model_required_integrations_are_refused_without_a_model() {
    let none: Vec<String> = vec![];
    for id in model_required() {
        let id = id.as_str();
        assert!(
            listed().iter().any(|i| i.name == id),
            "{id} is not an integration"
        );
        assert!(check_model_flag(id, None, None, &none).is_err());
        assert!(check_model_flag(id, Some(" "), None, &none).is_err());
        assert!(check_model_flag(&id.to_uppercase(), None, None, &none).is_err());
        let err = check_model_flag(id, None, Some("openrouter"), &none).unwrap_err();
        assert!(err.contains("--provider openrouter --model"), "{err}");
        assert!(check_model_flag(id, Some("m"), None, &none).is_ok());
        let forwarded = vec!["--model".to_string(), "theirs".to_string()];
        assert!(check_model_flag(id, Some("m"), None, &forwarded).is_ok());
    }
    assert!(check_model_flag("codex", None, None, &none).is_ok());
    // The "yours wins" warning is only claimed for launchers that
    // actually yield to it; dsh has no `--model` flag to yield to.
    for id in model_flag_forwarded() {
        assert!(model_required().contains(&id), "{id} is not model-required");
    }
    assert!(!model_flag_forwarded().contains(&"dsh".to_string()));
}

#[test]
fn a_forwarded_model_is_warned_of_where_it_wins() {
    let forwarded = vec!["-m=theirs".to_string()];
    assert_eq!(
        check_model_flag("Qwen", Some(" m "), None, &forwarded),
        Ok(Some(
            "[llmman] qwen: the --model after -- wins over --model m, the one llmman resolved"
                .to_string()
        ))
    );
    assert_eq!(check_model_flag("dsh", Some("m"), None, &forwarded), Ok(None));
    assert_eq!(check_model_flag("codex", None, None, &forwarded), Ok(None));
    assert_eq!(
        check_model_flag("grok", None, None, &forwarded),
        Err("grok needs a model: llmman launch grok --model <model>".to_string())
    );
    assert_eq!(
        check_model_flag("AGY", Some("\t"), Some("groq"), &[]),
        Err("agy needs a model: llmman launch agy --provider groq --model <model>".to_string())
    );
}

#[test]
fn goose_carries_its_own_key_so_provider_works() {
    assert!(listed().iter().any(|i| i.name == "goose"));
    assert!(check_provider_supported("goose", &daemon()).is_ok());
    assert!(!provider_needs_daemon_key("goose"));
}

#[test]
fn grok_is_model_required_and_refuses_unrepresentable_provider_routes() {
    assert!(listed().iter().any(|i| i.name == "grok"));
    assert!(model_required().contains(&"grok".to_string()));
    assert!(model_flag_forwarded().contains(&"grok".to_string()));
    let error = check_provider_supported("grok", &daemon()).unwrap_err();
    assert!(error.contains("model catalog"), "{error}");
    assert!(!provider_needs_daemon_key("grok"));
}

#[test]
fn a_provider_is_refused_where_its_key_would_be_exposed() {
    assert_eq!(
        check_provider_supported("Cline", &daemon()),
        Err(
            "--provider does not work with cline: it selects its own model rather than taking \
             one from llmman\nRun it against a locally served model, or use another integration."
                .to_string()
        )
    );
    let open = Daemon {
        connects_securely: false,
        ..daemon()
    };
    assert_eq!(
        check_provider_supported("codex", &open),
        Err(
            "--provider needs a local llmman serve, or one over TLS: LLMMAN_HOST points at \
             http://127.0.0.1:17434, and the provider key would cross the network in \
             cleartext.\nExport the key where that daemon runs instead."
                .to_string()
        )
    );
    let shared = Daemon {
        reachable_only_locally: false,
        bind_addr: "0.0.0.0:17434".to_string(),
        ..daemon()
    };
    assert_eq!(
        check_provider_supported("Hermes", &shared),
        Err(
            "--provider does not work with hermes while llmman serve is bound to 0.0.0.0:17434: \
             hermes is configured through a file, so it cannot send the key per request, and a \
             daemon reachable from the network will not spend its own.\nBind llmman serve to \
             loopback, or use an integration that carries the key."
                .to_string()
        )
    );
    assert!(check_provider_supported("codex", &shared).is_ok());
    let keyed = Daemon {
        client_key: Some("k".to_string()),
        ..shared
    };
    assert!(check_provider_supported("hermes", &keyed).is_ok());
    assert!(check_provider_supported("hermes", &daemon()).is_ok());
}

#[test]
fn a_providers_model_is_needed_and_trimmed() {
    for model in [None, Some("  ")] {
        let err = resolve_provider_model("groq", model, "codex", true, &entry(), &daemon());
        assert_eq!(
            err.unwrap_err(),
            "--provider groq also needs --model\n\nTry one of these."
        );
    }
    let keyed = ProviderEntry {
        client_key: Some("mine".to_string()),
        ..entry()
    };
    let found = resolve_provider_model("groq", Some(" m "), "codex", true, &keyed, &daemon());
    let found = found.unwrap();
    assert_eq!(found.reference, "llmman.provider/groq/m");
    assert_eq!(found.key, "mine");
    assert_eq!(found.warning, None);
}

#[test]
fn the_daemons_key_stands_in_for_one_this_shell_lacks() {
    let served = ProviderEntry {
        daemon_key_usable: true,
        ..entry()
    };
    let found = resolve_provider_model("p", Some("m"), "codex", true, &served, &daemon()).unwrap();
    assert_eq!(found.key, "placeholder");
    assert_eq!(
        found.warning.as_deref(),
        Some("[llmman] warning: no API key for OpenRouter here; using the key llmman serve has")
    );

    let keyed = Daemon {
        client_key: Some("daemon's".to_string()),
        ..daemon()
    };
    let both = ProviderEntry {
        client_key: Some("mine".to_string()),
        ..served
    };
    let found = resolve_provider_model("p", Some("m"), "codex", true, &both, &keyed).unwrap();
    assert_eq!(found.key, "daemon's", "the daemon takes the header for its own");
    assert_eq!(found.warning, None);

    let free = ProviderEntry {
        key_optional: true,
        ..entry()
    };
    let found = resolve_provider_model("p", Some("m"), "codex", true, &free, &daemon()).unwrap();
    assert_eq!(found.key, integration_key(&daemon()));
    assert_eq!(found.warning, None);
}

#[test]
fn a_missing_key_is_named() {
    let none = resolve_provider_model("p", Some("m"), "codex", true, &entry(), &daemon());
    assert_eq!(
        none.unwrap_err(),
        "no API key for OpenRouter \u{2014} set OPENROUTER_API_KEY"
    );
    let keyed = Daemon {
        client_key: Some("k".to_string()),
        ..daemon()
    };
    let own = ProviderEntry {
        client_key: Some("mine".to_string()),
        ..entry()
    };
    let behind = resolve_provider_model("p", Some("m"), "Codex", true, &own, &keyed);
    assert_eq!(
        behind.unwrap_err(),
        "llmman serve requires an API key, so Codex sends that one and cannot also carry a key \
         for OpenRouter: llmman serve needs a key of its own.\nWhere the daemon runs, set \
         OPENROUTER_API_KEY, then restart it."
    );
    let file = resolve_provider_model("p", Some("m"), "hermes", false, &own, &daemon());
    assert_eq!(
        file.unwrap_err(),
        "hermes is configured through a file, so it cannot send an API key: llmman serve needs a \
         key of its own, and must be bound to loopback (or require an API key) to spend it.\n\
         Where the daemon runs, set OPENROUTER_API_KEY, then restart it."
    );
    for usable in [true, false] {
        let entry = ProviderEntry {
            key_usable: usable,
            key_optional: !usable,
            client_key: Some("mine".to_string()),
            ..entry()
        };
        let found = resolve_provider_model("p", Some("m"), "hermes", false, &entry, &daemon());
        assert_eq!(found.unwrap().key, "placeholder", "a file gets no real key");
    }
}

use llmman_launch::capabilities::ThinkingControls;
use llmman_launch::pi::{
    pi_model_entry, pi_models_merged, pi_models_update, pi_settings_merged, pi_settings_update,
    pi_takes_provider,
};
use llmman_launch::settings::FileUpdate;
use llmman_launch::value::{from_value, to_value};
use serde_json::Value;

fn json(text: &str) -> Value {
    serde_json::from_str(text).unwrap()
}

fn ids(merged: &Value) -> Vec<&str> {
    merged["providers"]["llmman"]["models"]
        .as_array()
        .unwrap()
        .iter()
        .map(|m| m["id"].as_str().unwrap())
        .collect()
}

#[test]
fn pi_model_entry_declares_what_the_daemon_serves() {
    let thinks = ThinkingControls {
        thinks: true,
        choices: vec!["none".to_string(), "low".to_string(), "high".to_string()],
    };
    let entry = to_value(&pi_model_entry(
        "qwen3.5:0.8b",
        Some(&thinks),
        true,
        Some(32768),
    ));
    assert_eq!(entry["id"], "qwen3.5:0.8b");
    assert_eq!(entry["input"], json(r#"["text", "image"]"#));
    assert_eq!(entry["reasoning"], true);
    assert_eq!(entry["contextWindow"], 32768);
    assert_eq!(entry["_llmman"], true);

    // A text-only model that does not think, and no trained context to
    // declare: pi keeps its own default rather than being told a guess.
    let plain = to_value(&pi_model_entry("smol", None, false, None));
    assert_eq!(plain["input"], json(r#"["text"]"#));
    assert_eq!(plain["reasoning"], false);
    assert_eq!(plain.get("contextWindow"), None);
}

#[test]
fn pi_models_merged_keeps_other_providers_and_hand_added_models() {
    let existing = json(
        r#"{
          "providers": {
            "other": { "baseUrl": "https://example.invalid/v1" },
            "llmman": { "models": [
              { "id": "mine" },
              { "id": "stale", "_llmman": true }
            ] }
          }
        }"#,
    );
    let entry = pi_model_entry("qwen3.5:0.8b", None, false, None);
    let merged = to_value(&pi_models_merged(
        &from_value(existing),
        "http://127.0.0.1:17434",
        &entry,
    ));

    assert_eq!(
        merged["providers"]["other"]["baseUrl"],
        "https://example.invalid/v1"
    );
    assert_eq!(
        merged["providers"]["llmman"]["baseUrl"],
        "http://127.0.0.1:17434/v1"
    );
    // Literal, never an interpolated reference.
    assert_eq!(merged["providers"]["llmman"]["apiKey"], "llmman");
    // Both survive; llmman's own is rebuilt in place, not doubled.
    assert_eq!(ids(&merged), vec!["mine", "stale", "qwen3.5:0.8b"]);
}

#[test]
fn pi_models_merged_keeps_a_previously_launched_model() {
    let first = pi_model_entry("a", None, false, None);
    let one = pi_models_merged(&from_value(json("{}")), "http://s", &first);
    let two = to_value(&pi_models_merged(
        &one,
        "http://s",
        &pi_model_entry("b", None, false, None),
    ));
    assert_eq!(ids(&two), vec!["a", "b"]);
}

#[test]
fn pi_models_merged_replaces_the_entry_of_the_same_model() {
    let start = from_value(json(r#"{ "providers": null }"#));
    let one = pi_models_merged(&start, "http://s", &pi_model_entry("a", None, true, None));
    let two = pi_models_merged(&one, "http://s", &pi_model_entry("a", None, false, Some(7)));
    let direct = pi_models_merged(&start, "http://s", &pi_model_entry("a", None, false, Some(7)));
    assert_eq!(to_value(&two), to_value(&direct));
    assert_eq!(
        to_value(&two)["providers"]["llmman"],
        json(
            r#"{ "baseUrl": "http://s/v1", "api": "openai-completions", "apiKey": "llmman",
                "compat": { "supportsDeveloperRole": false, "supportsReasoningEffort": false },
                "models": [ { "id": "a", "input": ["text"], "reasoning": false,
                    "_llmman": true, "contextWindow": 7 } ] }"#
        )
    );
}

#[test]
fn pi_models_merged_again_changes_nothing() {
    for entry in [r#"{ "id": 1.5 }"#, r#"{ "id": { "a": [1] } }"#, "{}"] {
        let entry = from_value(json(entry));
        let one = pi_models_merged(&from_value(json("{}")), "http://s", &entry);
        let two = pi_models_merged(&one, "http://s", &entry);
        assert_eq!(to_value(&two), to_value(&one));
    }
}

#[test]
fn pi_settings_merged_leaves_unrelated_settings_alone() {
    let existing = json(r#"{ "theme": "dark", "defaultModel": "old" }"#);
    let merged = to_value(&pi_settings_merged(&from_value(existing), "qwen3.5:0.8b"));
    assert_eq!(merged["theme"], "dark");
    assert_eq!(merged["defaultProvider"], "llmman");
    assert_eq!(merged["defaultModel"], "qwen3.5:0.8b");
}

#[test]
fn pi_takes_a_provider_only_where_there_is_room_for_it() {
    let takes = |text: &str| pi_takes_provider(&from_value(json(text)));
    assert!(takes("{}"));
    assert!(takes("null"));
    assert!(takes(r#"{ "providers": {} }"#));
    assert!(takes(r#"{ "providers": null }"#));
    assert!(!takes(r#"{ "providers": [] }"#));
    assert!(!takes(r#"{ "providers": "x" }"#));
    assert!(!takes("[]"));
    assert!(!takes("3"));
}

#[test]
fn pi_files_are_read_past_a_byte_order_mark_and_written_once() {
    let entry = pi_model_entry("a", None, false, None);
    let raw = "\u{feff}{ \"providers\": { \"mine\": {} } } // note";
    let first = pi_models_update(Some(raw), true, "http://s", &entry).unwrap();
    let FileUpdate::Write { backup, contents } = first else {
        panic!("a file without llmman's provider is rewritten");
    };
    assert!(backup, "a commented file is kept");
    let written = json(&contents);
    assert_eq!(written["providers"]["mine"], json("{}"));
    assert_eq!(ids(&written), vec!["a"]);
    let second = pi_models_update(Some(&contents), true, "http://s", &entry).unwrap();
    assert!(matches!(second, FileUpdate::Keep));

    let changed = pi_model_entry("b", None, false, None);
    let third = pi_models_update(Some(&contents), true, "http://s", &changed).unwrap();
    assert!(matches!(third, FileUpdate::Write { backup: false, .. }));
    let fourth = pi_models_update(Some(&contents), false, "http://s", &changed).unwrap();
    assert!(matches!(fourth, FileUpdate::Write { backup: true, .. }));
}

#[test]
fn pi_files_that_hold_something_else_are_left_alone() {
    let entry = pi_model_entry("a", None, false, None);
    assert!(matches!(
        pi_models_update(Some("[]"), false, "http://s", &entry),
        Some(FileUpdate::NotAnObject)
    ));
    assert!(pi_models_update(Some(r#"{ "providers": 3 }"#), false, "http://s", &entry).is_none());
    assert!(matches!(
        pi_settings_update(Some("nonsense"), false, "a"),
        FileUpdate::NotAnObject
    ));
    assert!(matches!(
        pi_settings_update(
            Some(r#"{ "defaultProvider": "llmman", "defaultModel": "a" }"#),
            false,
            "a"
        ),
        FileUpdate::Keep
    ));
    assert!(matches!(
        pi_settings_update(None, false, "a"),
        FileUpdate::Write { backup: false, .. }
    ));
}

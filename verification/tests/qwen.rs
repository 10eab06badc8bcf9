use llmman_launch::args::{forwarded_model, has_flag};
use llmman_launch::comments::strip_json_comments;
use llmman_launch::providers::provider_needs_daemon_key;
use llmman_launch::qwen::{
    qwen_args, qwen_entry_is_ours, qwen_model_and_vision, qwen_settings_merged,
    qwen_settings_update,
};
use llmman_launch::settings::{left_alone, object_read, FileUpdate};
use llmman_launch::value::{from_value, to_value};
use serde_json::Value;

fn args(list: &[&str]) -> Vec<String> {
    list.iter().map(|s| s.to_string()).collect()
}

fn json(text: &str) -> Value {
    serde_json::from_str(text).unwrap()
}

fn merged(existing: &Value, model: &str, url: &str, vision: bool) -> Value {
    to_value(&qwen_settings_merged(
        &from_value(existing.clone()),
        model,
        url,
        vision,
    ))
}

#[test]
fn forwarded_model_takes_the_last_spelling() {
    assert_eq!(forwarded_model(&args(&["--model", "b"])), Some("b"));
    assert_eq!(forwarded_model(&args(&["-m=b", "--model", "c"])), Some("c"));
    assert_eq!(forwarded_model(&args(&["--model=b", "-m", "c"])), Some("c"));
    assert_eq!(forwarded_model(&args(&["-p", "x"])), None);
    assert_eq!(forwarded_model(&args(&["--model"])), None);
    assert_eq!(forwarded_model(&args(&["--model="])), None);
}

#[test]
fn forwarded_model_reads_a_flag_as_the_value_of_the_one_before_it() {
    assert_eq!(forwarded_model(&args(&["--model", "-m", "c"])), Some("-m"));
    assert_eq!(forwarded_model(&args(&["--model=b", "--model"])), Some("b"));
    assert_eq!(forwarded_model(&args(&["-m=ü", "x"])), Some("ü"));
    for spelled in [&["--model", "b"][..], &["-m", "b"], &["-m=b"], &["--model=b"]] {
        assert!(forwarded_model(&args(spelled)).is_some());
        assert!(has_flag(&args(spelled), "--model", Some("-m")));
    }
}

#[test]
fn has_flag_takes_the_exact_and_joined_forms_only() {
    assert!(has_flag(&args(&["--model", "x"]), "--model", Some("-m")));
    assert!(has_flag(&args(&["--model=x"]), "--model", Some("-m")));
    assert!(has_flag(&args(&["-m", "x"]), "--model", Some("-m")));
    assert!(has_flag(&args(&["-m=x"]), "--model", Some("-m")));
    assert!(!has_flag(&args(&["-sm", "x"]), "--model", Some("-m")));
    assert!(!has_flag(
        &args(&["--model-context", "x"]),
        "--model",
        Some("-m")
    ));
}

#[test]
fn qwen_args_prefix_auth_type_and_model_unless_the_caller_passed_them() {
    let none: Vec<String> = vec![];
    assert_eq!(
        qwen_args("m:latest", &none),
        ["--auth-type", "openai", "--model", "m:latest"]
    );

    let user_model = vec![
        "--model".to_string(),
        "theirs".to_string(),
        "-p".to_string(),
    ];
    assert_eq!(
        qwen_args("m:latest", &user_model),
        ["--auth-type", "openai", "--model", "theirs", "-p"]
    );
    let user_short = vec!["-m=theirs".to_string()];
    assert_eq!(
        qwen_args("m:latest", &user_short),
        ["--auth-type", "openai", "-m=theirs"]
    );

    let user_auth = vec!["--auth-type=qwen-oauth".to_string()];
    assert_eq!(
        qwen_args("m:latest", &user_auth),
        ["--model", "m:latest", "--auth-type=qwen-oauth"]
    );
    let user_camel = vec!["--authType".to_string(), "openai".to_string()];
    assert_eq!(
        qwen_args("m:latest", &user_camel),
        ["--model", "m:latest", "--authType", "openai"]
    );
}

#[test]
fn qwen_args_repeat_no_flag() {
    let extra = args(&["--model=a", "--auth-type", "b"]);
    let all = qwen_args("m", &extra);
    assert_eq!(all, extra);
}

#[test]
fn qwen_settings_merge_keeps_what_is_not_llmmans() {
    let existing = json(
        r#"{
            "$version": 4,
            "ui": { "theme": "keep-me" },
            "modelProviders": {
                "gemini": [ { "id": "gemini-2.5-pro" } ],
                "openai": [
                    { "id": "docker.io/ai/m:latest", "name": "cloud copy",
                      "baseUrl": "https://cloud.example/v1",
                      "envKey": "QWEN_CUSTOM_API_KEY_X", "customField": 1 },
                    { "id": "old:latest", "name": "renamed by the user",
                      "baseUrl": "http://127.0.0.1:17434/v1/", "envKey": "LLMMAN_API_KEY" },
                    { "id": "other:latest", "name": "other:latest (llmman)",
                      "baseUrl": "http://10.0.0.2:17434/v1", "envKey": "LLMMAN_API_KEY" },
                    { "id": "local-alias", "name": "my alias for the daemon",
                      "baseUrl": "http://127.0.0.1:17434/v1", "envKey": "OPENAI_API_KEY",
                      "generationConfig": { "temperature": 0.2 } }
                ]
            },
            "security": { "auth": { "selectedType": "qwen-oauth", "apiKey": "keep-too" } },
            "model": { "name": "gemini-2.5-pro", "generationConfig": { "temperature": 0.1 } }
        }"#,
    );
    let url = "http://127.0.0.1:17434/v1";
    let merged = merged(&existing, "docker.io/ai/m:latest", url, false);
    assert_eq!(merged["$version"], 4);
    assert_eq!(merged["ui"]["theme"], "keep-me");
    assert_eq!(
        merged["modelProviders"]["gemini"],
        existing["modelProviders"]["gemini"]
    );
    let before = existing["modelProviders"]["openai"].as_array().unwrap();
    let openai = merged["modelProviders"]["openai"].as_array().unwrap();
    assert_eq!(
        openai[0],
        json(
            r#"{ "id": "docker.io/ai/m:latest",
                "name": "docker.io/ai/m:latest (llmman)",
                "baseUrl": "http://127.0.0.1:17434/v1",
                "envKey": "LLMMAN_API_KEY" }"#
        )
    );
    assert_eq!(
        openai[1..],
        [before[0].clone(), before[2].clone(), before[3].clone()]
    );
    assert_eq!(merged["security"]["auth"]["selectedType"], "openai");
    assert_eq!(merged["security"]["auth"]["baseUrl"], url);
    assert_eq!(merged["security"]["auth"]["apiKey"], "keep-too");
    assert_eq!(merged["model"]["name"], "docker.io/ai/m:latest");
    assert_eq!(merged["model"]["baseUrl"], url);
    assert_eq!(merged["model"]["generationConfig"]["temperature"], 0.1);
}

#[test]
fn qwen_settings_merge_is_complete_from_nothing_and_idempotent() {
    let url = "http://127.0.0.1:17434/v1";
    let once = merged(&json("{}"), "m:latest", url, false);
    assert_eq!(
        once,
        json(
            r#"{
                "modelProviders": { "openai": [ { "id": "m:latest",
                    "name": "m:latest (llmman)", "baseUrl": "http://127.0.0.1:17434/v1",
                    "envKey": "LLMMAN_API_KEY" } ] },
                "security": { "auth": { "selectedType": "openai",
                    "baseUrl": "http://127.0.0.1:17434/v1" } },
                "model": { "name": "m:latest", "baseUrl": "http://127.0.0.1:17434/v1" }
            }"#
        )
    );
    assert_eq!(merged(&once, "m:latest", url, false), once);
    let text = once.to_string();
    assert!(!text.contains("apiKey") && !text.contains("\"env\""));
    assert!(!provider_needs_daemon_key("qwen"));
}

#[test]
fn qwen_settings_of_the_last_launch_win() {
    let url = "http://h/v1";
    let first = merged(&json(r#"{ "ui": 1 }"#), "a", url, true);
    let second = merged(&first, "b", url, false);
    assert_eq!(second, merged(&json(r#"{ "ui": 1 }"#), "b", url, false));
}

#[test]
fn qwen_keeps_image_input_only_for_the_model_it_was_read_from() {
    // What each forwarded name resolves to, as the daemon resolves it.
    let resolved = "docker.io/ai/gemma4:12b";
    let forwarded = |m: &str| vec![String::from("--model"), String::from(m)];
    let cases = [
        // Nothing forwarded, then the same model spelled either way.
        (Vec::new(), None, resolved, true),
        (forwarded("gemma4:12b"), Some(resolved), "gemma4:12b", true),
        (forwarded(resolved), Some(resolved), resolved, true),
        // Another model, and one that is not a reference at all.
        (
            forwarded("qwen3.5:0.8b"),
            Some("docker.io/ai/qwen3.5:0.8b"),
            "qwen3.5:0.8b",
            false,
        ),
        (forwarded("not a reference"), None, "not a reference", false),
    ];
    for (extra_args, name, model, vision) in cases {
        assert_eq!(
            qwen_model_and_vision(resolved, true, &extra_args, name),
            (model, vision),
            "{extra_args:?}"
        );
        assert!(!qwen_model_and_vision(resolved, false, &extra_args, name).1);
    }
}

#[test]
fn qwen_settings_declare_image_input_only_for_a_vision_model() {
    let url = "http://h/v1";
    let vision = merged(&json("{}"), "m", url, true);
    assert_eq!(
        vision["modelProviders"]["openai"][0]["generationConfig"],
        json(r#"{ "modalities": { "image": true } }"#)
    );
    assert!(vision["model"].get("generationConfig").is_none());

    let text_only = merged(&vision, "m", url, false);
    assert!(!text_only.to_string().contains("modalities"), "{text_only}");
}

#[test]
fn qwen_settings_merge_replaces_a_wrong_typed_value_on_its_path() {
    let existing = json(r#"{ "security": 3, "modelProviders": { "openai": "x" }, "model": [] }"#);
    let from_wrong = merged(&existing, "m", "http://h/v1", false);
    assert_eq!(from_wrong["security"]["auth"]["selectedType"], "openai");
    assert_eq!(from_wrong["modelProviders"]["openai"][0]["id"], "m");
    assert_eq!(from_wrong["model"]["name"], "m");
    let from_null = merged(&json("null"), "m", "http://h/v1", false);
    assert_eq!(from_null["model"]["name"], "m");

    let wrapped = json(
        r#"{
            "$version": 5,
            "modelProviders": { "openai": { "protocol": "openai", "models": [
                { "id": "gpt-5", "baseUrl": "https://api.openai.com/v1", "envKey": "MY_KEY" }
            ] } }
        }"#,
    );
    let unwrapped = merged(&wrapped, "m", "http://h/v1", false);
    let openai = unwrapped["modelProviders"]["openai"].as_array().unwrap();
    assert_eq!(openai.len(), 2);
    assert_eq!(openai[1]["id"], "gpt-5");
    assert_eq!(unwrapped["$version"], 4, "the version follows the shape");
}

#[test]
fn qwen_entry_is_ours_needs_the_key_name_and_the_address() {
    let url = "http://127.0.0.1:17434/v1";
    let ours = json(
        r#"{ "id": "anything", "name": "renamed by the user",
            "baseUrl": "http://127.0.0.1:17434/v1/", "envKey": "LLMMAN_API_KEY" }"#,
    );
    assert!(qwen_entry_is_ours(&from_value(ours), url));
    let hand_written = json(
        r#"{ "id": "local-alias", "name": "m (llmman)",
            "baseUrl": "http://127.0.0.1:17434/v1", "envKey": "OPENAI_API_KEY" }"#,
    );
    assert!(!qwen_entry_is_ours(&from_value(hand_written), url));
    let elsewhere = json(
        r#"{ "id": "m:latest", "name": "m:latest (llmman)",
            "baseUrl": "http://10.0.0.2:17434/v1", "envKey": "LLMMAN_API_KEY" }"#,
    );
    assert!(!qwen_entry_is_ours(&from_value(elsewhere), url));
    assert!(!qwen_entry_is_ours(
        &from_value(json("\"not an object\"")),
        url
    ));
}

#[test]
fn strip_json_comments_keeps_strings_and_columns() {
    let raw = "{\n  // note\n  \"url\": \"http://h//v1\", /* block\n  */ \"q\": \"a\\\"//b\"\n}\n";
    let stripped = strip_json_comments(raw);
    assert_eq!(stripped.chars().count(), raw.chars().count());
    assert_eq!(stripped.lines().count(), raw.lines().count());
    let v: serde_json::Value = serde_json::from_str(&stripped).unwrap();
    assert_eq!(v["url"], "http://h//v1");
    assert_eq!(v["q"], "a\"//b");
    assert_eq!(strip_json_comments("{\"a\": 1}"), "{\"a\": 1}");
}

#[test]
fn strip_json_comments_takes_each_comment_to_its_own_end() {
    assert_eq!(strip_json_comments("1 // a\n2"), "1     \n2");
    assert_eq!(strip_json_comments("1 /* a */ 2"), "1         2");
    assert_eq!(strip_json_comments("1 /*/ 2 */3"), "1         3");
    assert_eq!(strip_json_comments("/* open\nend"), "       \n   ");
    assert_eq!(strip_json_comments("a / b"), "a / b");
    let once = strip_json_comments("{ /* x */ \"a\": 1 } // y");
    assert_eq!(strip_json_comments(&once), once);
}

/// A directory with a settings file and its backup.
struct Dir {
    file: Option<String>,
    bak: Option<String>,
}

impl Dir {
    fn update(&mut self, model: &str, url: &str) -> FileUpdate {
        let update = qwen_settings_update(
            self.file.as_deref(),
            self.bak.is_some(),
            model,
            url,
            false,
        );
        if let FileUpdate::Write { backup, contents } = &update {
            if *backup {
                self.bak = self.file.clone();
            }
            self.file = Some(contents.clone());
        }
        update
    }

    fn read(&self) -> Value {
        serde_json::from_str(self.file.as_deref().unwrap()).unwrap()
    }
}

#[test]
fn write_qwen_settings_at_writes_once_keeps_a_bak_and_refuses_non_json() {
    let url = "http://127.0.0.1:17434/v1";
    let mut dir = Dir {
        file: None,
        bak: None,
    };

    dir.update("m:latest", url);
    assert_eq!(dir.read()["model"]["name"], "m:latest");
    assert!(dir.bak.is_none(), "nothing to back up on a first write");
    assert!(dir.file.as_deref().unwrap().ends_with("}\n"));
    assert!(matches!(dir.update("m:latest", url), FileUpdate::Keep));

    let commented = "{\n  // mine\n  \"ui\": { \"theme\": \"x\" }\n}\n";
    dir.file = Some(commented.to_string());
    dir.update("m:latest", url);
    assert_eq!(dir.read()["ui"]["theme"], "x");
    assert_eq!(dir.read()["model"]["name"], "m:latest");
    assert_eq!(dir.bak.as_deref(), Some(commented));
    dir.update("other:latest", url);
    assert_eq!(dir.read()["model"]["name"], "other:latest");
    assert_eq!(
        dir.bak.as_deref(),
        Some(commented),
        "llmman's own rendering must not replace the user's backup"
    );
    let edited = "{\n  // edited by hand\n  \"ui\": { \"theme\": \"y\" }\n}\n";
    dir.file = Some(edited.to_string());
    dir.update("m:latest", url);
    assert_eq!(dir.bak.as_deref(), Some(edited));

    dir.file = Some("  \n".to_string());
    dir.update("m:latest", url);
    assert_eq!(dir.read()["model"]["name"], "m:latest");

    dir.file = Some("{ not json".to_string());
    assert!(matches!(dir.update("m:latest", url), FileUpdate::NotAnObject));
    assert_eq!(dir.file.as_deref(), Some("{ not json"));
    dir.file = Some("[]".to_string());
    assert!(matches!(dir.update("m:latest", url), FileUpdate::NotAnObject));
    assert_eq!(dir.file.as_deref(), Some("[]"));
}

#[test]
fn a_written_file_is_not_rewritten_whatever_numbers_it_holds() {
    let url = "http://127.0.0.1:17434/v1";
    let mut dir = Dir {
        file: Some(r#"{ "a": [0.1, -3, 1e300, 2.5e-7], "b": { "c": 18446744073709551615 } }"#.to_string()),
        bak: None,
    };
    assert!(matches!(dir.update("m", url), FileUpdate::Write { backup: true, .. }));
    assert_eq!(dir.read()["b"]["c"], 18446744073709551615u64);
    assert_eq!(dir.read()["a"][1], -3);
    assert!(matches!(dir.update("m", url), FileUpdate::Keep));
}

#[test]
fn a_byte_order_mark_is_not_json_to_qwen() {
    let update = qwen_settings_update(Some("\u{feff}{}"), false, "m", "u", false);
    assert!(matches!(update, FileUpdate::NotAnObject));
}

#[test]
fn a_file_that_is_left_alone_is_named() {
    assert_eq!(
        left_alone("qwen", "/q/settings.json"),
        "[llmman] qwen: /q/settings.json is not a JSON object; leaving it alone"
    );
}

#[test]
fn only_an_object_counts_as_settings() {
    let object = json(r#"{ "a": 1 }"#);
    let kept = object_read(Some(from_value(object.clone()))).unwrap();
    assert_eq!(to_value(&kept), object);
    assert!(object_read(Some(from_value(json("[1]")))).is_none());
    assert!(object_read(Some(from_value(json("null")))).is_none());
    assert!(object_read(None).is_none());
}

use llmman_launch::capabilities::ThinkingControls;
use llmman_launch::opencode::{opencode_config, opencode_variants, portable_thinking_levels};
use llmman_launch::value::{compact_json, from_value, parse_json, to_value};
use serde_json::Value;

fn json(text: &str) -> Value {
    serde_json::from_str(text).unwrap()
}

fn controls(thinks: bool, choices: &[&str]) -> ThinkingControls {
    ThinkingControls {
        thinks,
        choices: choices.iter().map(|c| c.to_string()).collect(),
    }
}

fn variants(thinking: Option<&ThinkingControls>) -> Vec<(String, Value)> {
    opencode_variants(thinking)
        .iter()
        .map(|(name, options)| (name.clone(), to_value(options)))
        .collect()
}

#[test]
fn opencode_config_lists_the_variants_in_order() {
    let variants = opencode_variants(None);
    let text = opencode_config(
        "http://127.0.0.1:17434",
        "qwen3.5:0.8b",
        "k",
        &variants,
        false,
    );
    let config: Value = serde_json::from_str(&text).expect("valid JSON");
    assert_eq!(config["$schema"], "https://opencode.ai/config.json");
    assert_eq!(config["model"], "ollama/qwen3.5:0.8b");
    let provider = &config["provider"]["ollama"];
    assert_eq!(provider["npm"], "@ai-sdk/openai-compatible");
    assert_eq!(provider["name"], "Ollama");
    assert_eq!(provider["options"]["baseURL"], "http://127.0.0.1:17434/v1");
    assert_eq!(provider["options"]["apiKey"], "k");
    assert_eq!(provider["models"].as_object().map(|m| m.len()), Some(1));

    let model = &provider["models"]["qwen3.5:0.8b"];
    assert_eq!(model["name"], "qwen3.5:0.8b");
    let written = model["variants"].as_object().expect("variants object");
    assert_eq!(written.len(), variants.len());
    for (name, options) in &variants {
        assert_eq!(written[name], to_value(options), "variant {name}");
    }
    let positions: Vec<usize> = variants
        .iter()
        .map(|(name, _)| text.find(&format!("\"{name}\"")).expect(name))
        .collect();
    assert!(positions.windows(2).all(|w| w[0] < w[1]), "{text}");

    let bare = opencode_config("http://h", "m", "k", &vec![], false);
    assert!(!bare.contains("variants"), "{bare}");
}

#[test]
fn opencode_config_is_written_without_white_space() {
    assert_eq!(
        opencode_config("http://h", "m", "k", &vec![], false),
        "{\"$schema\":\"https://opencode.ai/config.json\",\"provider\":{\"ollama\":\
         {\"npm\":\"@ai-sdk/openai-compatible\",\"name\":\"Ollama\",\"options\":\
         {\"baseURL\":\"http://h/v1\",\"apiKey\":\"k\"},\"models\":{\"m\":{\"name\":\"m\"}}}},\
         \"model\":\"ollama/m\"}"
    );
}

#[test]
fn opencode_config_declares_image_input_only_for_a_vision_model() {
    let text = opencode_config("http://h", "m", "k", &vec![], true);
    let config: Value = serde_json::from_str(&text).expect("valid JSON");
    let model = &config["provider"]["ollama"]["models"]["m"];
    assert_eq!(
        model["modalities"],
        json(r#"{ "input": ["text", "image"], "output": ["text"] }"#)
    );
    assert_eq!(model["attachment"], true);

    let text_only = opencode_config("http://h", "m", "k", &vec![], false);
    assert!(!text_only.contains("modalities"), "{text_only}");
    assert!(!text_only.contains("attachment"), "{text_only}");
}

#[test]
fn opencode_config_escapes_the_model_name() {
    let model = "we\"ird/mo\\del";
    let config: Value =
        serde_json::from_str(&opencode_config("http://h", model, "k", &vec![], false))
            .expect("valid JSON");
    assert_eq!(config["model"], format!("ollama/{model}"));
    assert_eq!(config["provider"]["ollama"]["models"][model]["name"], model);
}

#[test]
fn opencode_variants_follow_the_templates_controls() {
    let gemma4 = controls(true, &["none", "thinking"]);
    assert_eq!(
        variants(Some(&gemma4)),
        [
            ("none".to_string(), json(r#"{ "reasoningEffort": "none" }"#)),
            (
                "thinking".to_string(),
                json(r#"{ "chat_template_kwargs": { "enable_thinking": true } }"#)
            ),
        ]
    );
    let qwen3_8 = controls(true, &["none", "low", "xhigh"]);
    assert_eq!(
        variants(Some(&qwen3_8)),
        [
            ("none".to_string(), json(r#"{ "reasoningEffort": "none" }"#)),
            ("low".to_string(), json(r#"{ "reasoningEffort": "low" }"#)),
            ("xhigh".to_string(), json(r#"{ "reasoningEffort": "xhigh" }"#)),
        ]
    );
    assert!(opencode_variants(Some(&controls(false, &[]))).is_empty());
    let fallback = opencode_variants(None);
    assert_eq!(fallback.len(), portable_thinking_levels().len());
    assert_eq!(fallback[0].0, "none");
}

#[test]
fn opencode_config_reads_back_as_what_it_was_made_of() {
    let model = "a\"},\n\\b\u{1}/\u{e9}";
    let mut listed = opencode_variants(Some(&controls(true, &["none", "thinking"])));
    listed.push((
        "none".to_string(),
        from_value(json(r#"{ "budget": 7, "deep": [{ "er": null }] }"#)),
    ));
    let text = opencode_config("http://h", model, "k\"", &listed, true);
    let read = to_value(&parse_json(&text).expect("valid JSON"));

    let mut entry = json(
        r#"{ "variants": {
                "none": { "budget": 7, "deep": [{ "er": null }] },
                "thinking": { "chat_template_kwargs": { "enable_thinking": true } } },
            "modalities": { "input": ["text", "image"], "output": ["text"] },
            "attachment": true }"#,
    );
    entry["name"] = Value::from(model);
    let mut expected = json(
        r#"{ "$schema": "https://opencode.ai/config.json",
            "provider": { "ollama": { "npm": "@ai-sdk/openai-compatible", "name": "Ollama",
                "options": { "baseURL": "http://h/v1", "apiKey": "k\"" }, "models": {} } } }"#,
    );
    expected["provider"]["ollama"]["models"][model] = entry;
    expected["model"] = Value::from(format!("ollama/{model}"));
    assert_eq!(read, expected);
}

#[test]
fn opencode_config_nests_as_deeply_as_can_be_read() {
    let nested = |depth: usize| {
        let options = from_value(json(&format!("{}{}", "[".repeat(depth), "]".repeat(depth))));
        let listed = vec![("v".to_string(), options)];
        parse_json(&opencode_config("http://h", "m", "k", &listed, false))
    };
    assert!(nested(121).is_some());
    assert!(nested(122).is_none());
}

#[test]
fn opencode_config_is_read_back_whatever_numbers_it_holds() {
    let numbers = [
        Value::from(-5),
        Value::from(i64::MIN),
        Value::from(u64::MAX),
        Value::from(1.5),
        Value::from(-0.0),
        Value::from(f64::MAX),
        Value::from(f64::MIN),
        Value::from(f64::MIN_POSITIVE),
        Value::from(5e-324),
        Value::from(1.7976931348623155e308),
        Value::from(1e308),
        Value::from(0.1),
        Value::from(9007199254740993.0),
    ];
    for number in numbers {
        let listed = vec![("v".to_string(), from_value(number.clone()))];
        let read = |vision: bool| {
            let text = opencode_config("http://h", "m", "k", &listed, vision);
            to_value(&parse_json(&text).expect("valid JSON"))
        };
        let mut seeing = read(true);
        let plain = read(false);
        let entry = seeing["provider"]["ollama"]["models"]["m"].as_object_mut().unwrap();
        assert_eq!(
            entry.remove("modalities"),
            Some(json(r#"{ "input": ["text", "image"], "output": ["text"] }"#))
        );
        assert_eq!(entry.remove("attachment"), Some(Value::from(true)));
        assert_eq!(seeing, plain);
        let back = &plain["provider"]["ollama"]["models"]["m"]["variants"]["v"];
        if number.is_f64() {
            assert!(back.is_f64(), "{number}");
        } else {
            assert_eq!(*back, number);
        }
        assert_eq!(*back, json(&number.to_string()));
    }
}

#[test]
fn opencode_config_is_laid_out_to_the_letter() {
    let odd = "\"\\/\u{8}\t\n\u{c}\r\u{0}\u{1f}\u{7f}\u{e9}";
    let listed = opencode_variants(Some(&controls(true, &["low", "thinking"])));
    assert_eq!(
        opencode_config("http://h", odd, "k", &listed, true),
        "{\"$schema\":\"https://opencode.ai/config.json\",\"provider\":{\"ollama\":\
         {\"npm\":\"@ai-sdk/openai-compatible\",\"name\":\"Ollama\",\"options\":\
         {\"baseURL\":\"http://h/v1\",\"apiKey\":\"k\"},\"models\":{\"QQ\":{\"name\":\"QQ\",\
         \"variants\":{\"low\":{\"reasoningEffort\":\"low\"},\
         \"thinking\":{\"chat_template_kwargs\":{\"enable_thinking\":true}}},\
         \"modalities\":{\"input\":[\"text\",\"image\"],\"output\":[\"text\"]},\
         \"attachment\":true}}}},\"model\":\"ollama/QQ\"}"
            .replace(
                "QQ",
                "\\\"\\\\/\\b\\t\\n\\f\\r\\u0000\\u001f\u{7f}\u{e9}"
            )
    );
}

#[test]
fn documents_without_white_space() {
    for text in ["null", "false", "[]", "{}", "[null,[true],\"a\"]", r#"{"a":[{}]}"#, "-7"] {
        assert_eq!(compact_json(&parse_json(text).unwrap()), text);
    }
}

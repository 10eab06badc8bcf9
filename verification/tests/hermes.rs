use llmman_launch::hermes::{hermes_config, hermes_config_blocks};
use llmman_launch::yaml::{strip_yaml_top_level_key, yaml_quote};

#[test]
fn yaml_quote_escapes_keywords_and_metacharacters() {
    assert_eq!(yaml_quote("qwen3.5:0.8b"), "\"qwen3.5:0.8b\"");
    assert_eq!(yaml_quote("null"), "\"null\"");
    assert_eq!(yaml_quote("true"), "\"true\"");
    assert_eq!(
        yaml_quote(r#"a "quoted" \ value"#),
        r#""a \"quoted\" \\ value""#
    );
}

#[test]
fn a_quoted_value_is_read_back() {
    for value in ["", "plain", "\\", "\"", "a\\\"b", "C:\\x\\"] {
        let quoted = yaml_quote(value);
        let inside = &quoted[1..quoted.len() - 1];
        let mut read = String::new();
        let mut chars = inside.chars();
        while let Some(c) = chars.next() {
            assert_ne!(c, '"');
            read.push(if c == '\\' { chars.next().unwrap() } else { c });
        }
        assert_eq!(read, value);
    }
}

#[test]
fn strip_yaml_top_level_key_removes_only_that_key_and_its_block() {
    let existing = "\
toolsets:\n  - web\nmodel:\n  provider: llmman\n  default: old-model\nproviders:\n  llmman:\n    name: llmman\nchannels:\n  telegram: {}\n";
    let cleaned =
        strip_yaml_top_level_key(&strip_yaml_top_level_key(existing, "model"), "providers");
    assert!(!cleaned.contains("model:"));
    assert!(!cleaned.contains("provider: llmman"));
    assert!(!cleaned.contains("providers:"));
    assert!(cleaned.contains("toolsets:"));
    assert!(cleaned.contains("  - web"));
    assert!(cleaned.contains("channels:"));
    assert!(cleaned.contains("  telegram: {}"));
}

#[test]
fn hermes_config_declares_image_input_only_for_a_vision_model() {
    let vision = hermes_config_blocks("m", "http://h/v1", true);
    let model_block = strip_yaml_top_level_key(&vision, "providers");
    assert!(
        model_block.contains("\n  supports_vision: true\n"),
        "{vision}"
    );

    let text_only = hermes_config_blocks("m", "http://h/v1", false);
    assert!(!text_only.contains("supports_vision"), "{text_only}");
    assert_eq!(text_only, vision.replace("  supports_vision: true\n", ""));
}

#[test]
fn hermes_config_blocks_are_laid_out_line_by_line() {
    assert_eq!(
        hermes_config_blocks("m:1", "http://h/v1", false),
        "model:\n  provider: llmman\n  default: \"m:1\"\n  base_url: \"http://h/v1\"\n  \
         api_key: llmman\nproviders:\n  llmman:\n    name: llmman\n    api: \"http://h/v1\"\n    \
         default_model: \"m:1\"\n    models:\n      - \"m:1\"\n"
    );
}

#[test]
fn strip_yaml_top_level_key_is_a_no_op_without_that_key() {
    let existing = "toolsets:\n  - web\n";
    assert_eq!(strip_yaml_top_level_key(existing, "model"), existing);
}

#[test]
fn strip_yaml_top_level_key_handles_blank_lines_inside_the_removed_block() {
    let existing = "toolsets:\n  - web\n\nmodel:\n  provider: llmman\n\n  default: old-model\n\nchannels:\n  telegram: {}\n";
    let cleaned = strip_yaml_top_level_key(existing, "model");
    assert!(!cleaned.contains("model:"));
    assert!(!cleaned.contains("provider: llmman"));
    assert!(!cleaned.contains("default: old-model"));
    assert!(cleaned.contains("toolsets:"));
    assert!(cleaned.contains("channels:"));
    assert!(cleaned.contains("  telegram: {}"));
}

#[test]
fn strip_yaml_top_level_key_handles_a_comment_inside_the_removed_block() {
    let existing = "toolsets:\n  - web\n# a comment\nmodel:\n  provider: llmman\n# another comment\n  default: old-model\nchannels:\n  telegram: {}\n";
    let cleaned = strip_yaml_top_level_key(existing, "model");
    assert!(!cleaned.contains("model:"));
    assert!(!cleaned.contains("provider: llmman"));
    assert!(!cleaned.contains("default: old-model"));
    assert!(!cleaned.contains("another comment"));
    assert!(cleaned.contains("toolsets:"));
    assert!(cleaned.contains("# a comment"));
    assert!(cleaned.contains("channels:"));
    assert!(cleaned.contains("  telegram: {}"));
}

#[test]
fn strip_yaml_top_level_key_reads_the_key_at_the_margin_only() {
    assert_eq!(
        strip_yaml_top_level_key(" model:\n  a: 1\nmodel: x\nmodel:  \r\n\tb: 2\n\nz: 1", "model"),
        " model:\n  a: 1\nmodel: x\nz: 1\n"
    );
    let once = strip_yaml_top_level_key("model:\n  a: 1\n# c\nz: 1\nmodel:\n", "model");
    assert_eq!(once, "z: 1\n");
    assert_eq!(strip_yaml_top_level_key(&once, "model"), once);
}

#[test]
fn the_last_hermes_launch_wins() {
    let existing = "toolsets:\n  - web\nproviders:\n  mine: {}\nchannels: {}\n";
    let first = hermes_config(existing, "a", "http://one/v1", true);
    assert_eq!(
        first,
        format!(
            "toolsets:\n  - web\nchannels: {{}}\n{}",
            hermes_config_blocks("a", "http://one/v1", true)
        )
    );
    let second = hermes_config(&first, "b", "http://two/v1", false);
    assert_eq!(second, hermes_config(existing, "b", "http://two/v1", false));
    assert_eq!(
        hermes_config("", "", "http://h/v1", false),
        hermes_config_blocks("default", "http://h/v1", false)
    );
}

#[test]
fn keys_are_removed_in_either_order() {
    let text = "x: 1\r\nmodel:\r\n  a\n# c\nproviders:\n\n  b\ny:\r\r\n  model: 2\nmodel:\n z";
    let strip = |text: &str, a: &str, b: &str| {
        strip_yaml_top_level_key(&strip_yaml_top_level_key(text, a), b)
    };
    assert_eq!(strip(text, "model", "providers"), "x: 1\ny:\n  model: 2\n");
    assert_eq!(
        strip(text, "providers", "model"),
        strip(text, "model", "providers")
    );
}

#[test]
fn our_blocks_come_off_any_text() {
    let strip = |text: &str| {
        strip_yaml_top_level_key(&strip_yaml_top_level_key(text, "model"), "providers")
    };
    let ours = hermes_config_blocks("m", "http://h/v1", true);
    for text in ["", "a: 1\n", "model:\n  mine\n\n", "providers:\n  b\n# c\r\n", "x:\r\r\n"] {
        assert_eq!(strip(&format!("{text}{ours}")), strip(text));
    }
}

use llmman_launch::agy::AGY_SETTINGS;
use llmman_launch::codex::{codex_model_catalog, codex_profile};
use llmman_launch::documents::{
    config_dir, config_files, document, file_in, named_file, ConfigFile, Seen, Vars,
};
use llmman_launch::dsh::{dsh_patch_document, dsh_settings_document};
use llmman_launch::grok::grok_config_document;
use llmman_launch::hermes::hermes_config;
use llmman_launch::launch::{launch_steps, Job, Step};
use llmman_launch::paths::{Location, Os, Root};
use llmman_launch::pi::{pi_model_entry, pi_models_update, pi_settings_update};
use llmman_launch::qwen::qwen_settings_update;
use llmman_launch::registry::Agent;
use llmman_launch::settings::FileUpdate;

const AGENTS: [Agent; 16] = [
    Agent::Claude,
    Agent::Opencode,
    Agent::Codex,
    Agent::Pi,
    Agent::Cline,
    Agent::Aider,
    Agent::Copilot,
    Agent::Kimi,
    Agent::Gemini,
    Agent::Agy,
    Agent::Hermes,
    Agent::Openclaw,
    Agent::Qwen,
    Agent::Dsh,
    Agent::Goose,
    Agent::Grok,
];

const NO_VARS: Vars = Vars {
    pi_agent_dir: None,
    hermes_home: None,
    local_app_data: None,
    qwen_home: None,
    grok_home: false,
};

fn job<'a>(model: &'a str, api_key: &'a str, extra_args: &'a [String]) -> Job<'a> {
    Job {
        model,
        api_key,
        server: "http://h",
        thinking: None,
        vision: true,
        extra_args,
    }
}

fn seen(raw: Option<&str>) -> Seen<'_> {
    Seen {
        raw,
        backup_exists: false,
        context_length: Some(9),
        configured_length: Some(5),
        named: "/named",
        resolved: Some("m"),
    }
}

fn show(file: ConfigFile, job: &Job, seen: &Seen) -> String {
    format!("{:?}", document(file, job, seen))
}

fn written(contents: String) -> String {
    format!(
        "{:?}",
        Some(FileUpdate::Write {
            backup: false,
            contents
        })
    )
}

#[test]
fn each_file_holds_its_document() {
    let none: Vec<String> = vec![];
    let job = job("m", "k", &none);
    let fresh = seen(None);
    assert_eq!(
        show(ConfigFile::CodexCatalog, &job, &fresh),
        written(codex_model_catalog("m", true, 5))
    );
    assert_eq!(
        show(ConfigFile::CodexProfile, &job, &fresh),
        written(codex_profile("http://h", Some("/named")))
    );
    assert_eq!(
        show(ConfigFile::HermesConfig, &job, &seen(Some("a: 1\n"))),
        written(hermes_config("a: 1\n", "m", "http://h/v1", true))
    );
    assert_eq!(
        show(ConfigFile::HermesConfig, &job, &fresh),
        written(hermes_config("", "m", "http://h/v1", true))
    );
    assert_eq!(
        show(ConfigFile::AgySettings, &job, &fresh),
        written(AGY_SETTINGS.to_string())
    );
    assert_eq!(
        show(ConfigFile::DshSettings, &job, &fresh),
        written(dsh_settings_document("m", "http://h", true))
    );
    assert_eq!(
        show(ConfigFile::DshPatch, &job, &fresh),
        written(dsh_patch_document("/named"))
    );
    assert_eq!(
        show(ConfigFile::GrokConfig, &job, &fresh),
        written(grok_config_document("m", "http://h/v1"))
    );
    let entry = pi_model_entry("m", None, true, Some(9));
    assert_eq!(
        show(ConfigFile::PiModels, &job, &fresh),
        format!("{:?}", pi_models_update(None, false, "http://h", &entry))
    );
    assert_eq!(
        show(ConfigFile::PiSettings, &job, &fresh),
        format!("{:?}", Some(pi_settings_update(None, false, "m")))
    );
    assert_eq!(
        show(ConfigFile::QwenSettings, &job, &fresh),
        format!(
            "{:?}",
            Some(qwen_settings_update(None, false, "m", "http://h/v1", true))
        )
    );
    assert_eq!(
        show(ConfigFile::PiModels, &job, &seen(Some(r#"{ "providers": 1 }"#))),
        "None"
    );
}

#[test]
fn the_model_in_the_arguments_is_written() {
    let extra = vec!["-m".to_string(), "theirs".to_string()];
    let job = job("m", "k", &extra);
    assert_eq!(
        show(ConfigFile::GrokConfig, &job, &seen(None)),
        written(grok_config_document("theirs", "http://h/v1"))
    );
    assert_eq!(
        show(ConfigFile::QwenSettings, &job, &seen(None)),
        format!(
            "{:?}",
            Some(qwen_settings_update(None, false, "theirs", "http://h/v1", true))
        )
    );
}

#[test]
fn codex_files_follow_the_model_and_the_legacy_table() {
    let none: Vec<String> = vec![];
    let keep = format!("{:?}", Some(FileUpdate::Keep));
    let bare = job("", "k", &none);
    assert_eq!(show(ConfigFile::CodexConfig, &bare, &seen(Some("x = 1\n"))), keep);
    assert_eq!(show(ConfigFile::CodexCatalog, &bare, &seen(None)), keep);
    assert_eq!(
        show(ConfigFile::CodexProfile, &bare, &seen(None)),
        written(codex_profile("http://h", None))
    );
    let held = codex_profile("http://h", None);
    assert_eq!(show(ConfigFile::CodexProfile, &bare, &seen(Some(&held))), keep);
    assert_eq!(
        show(
            ConfigFile::CodexConfig,
            &bare,
            &seen(Some("[profiles.llmman]\na = 1\n[x]\n"))
        ),
        written("[x]\n".to_string())
    );
    assert_eq!(show(ConfigFile::CodexConfig, &bare, &seen(None)), keep);
}

#[test]
fn no_file_holds_the_key() {
    let none: Vec<String> = vec![];
    for agent in AGENTS {
        for file in config_files(agent) {
            for raw in [None, Some("{}"), Some("[profiles.llmman]\n")] {
                let ours = show(file, &job("m", "sesame", &none), &seen(raw));
                assert_eq!(ours, show(file, &job("m", "other", &none), &seen(raw)));
                assert!(!ours.contains("sesame"), "{ours}");
            }
        }
    }
}

#[test]
fn what_is_written_has_a_place() {
    for agent in AGENTS {
        let writes = launch_steps(agent).contains(&Step::Write);
        assert_eq!(writes, !config_files(agent).is_empty());
        assert_eq!(writes, config_dir(agent, Os::Other, &NO_VARS).is_some());
        let mut before: Vec<ConfigFile> = vec![];
        for file in config_files(agent) {
            if let Some(named) = named_file(file) {
                assert!(before.contains(&named));
            }
            before.push(file);
        }
    }
}

#[test]
fn each_file_has_its_name() {
    let dir = Location::new(Root::Home).join("d");
    for (file, parts) in [
        (ConfigFile::CodexConfig, &["d", "config.toml"][..]),
        (ConfigFile::CodexCatalog, &["d", "llmman-model.json"]),
        (ConfigFile::CodexProfile, &["d", "llmman.config.toml"]),
        (ConfigFile::PiModels, &["d", "models.json"]),
        (ConfigFile::PiSettings, &["d", "settings.json"]),
        (ConfigFile::HermesConfig, &["d", "config.yaml"]),
        (ConfigFile::AgySettings, &["d", "antigravity-cli", "settings.json"]),
        (ConfigFile::DshSettings, &["d", "settings.yaml"]),
        (ConfigFile::DshPatch, &["d", "llmman.cordis.yml"]),
        (ConfigFile::GrokConfig, &["d", "config.toml"]),
        (ConfigFile::QwenSettings, &["d", "settings.json"]),
    ] {
        assert_eq!(file_in(file, &dir).parts, parts);
    }
    let place = |agent: Agent| config_dir(agent, Os::Other, &NO_VARS).unwrap().parts;
    assert_eq!(place(Agent::Codex), [".codex"]);
    assert_eq!(place(Agent::Pi), [".pi", "agent"]);
    assert_eq!(place(Agent::Hermes), [".hermes"]);
    assert_eq!(place(Agent::Agy), [".gemini", "llmman"]);
    assert_eq!(place(Agent::Dsh), ["launch", "dsh"]);
    assert_eq!(place(Agent::Grok), [".grok", "llmman"]);
    assert_eq!(place(Agent::Qwen), [".qwen"]);
}

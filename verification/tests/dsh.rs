use llmman_launch::args::has_flag;
use llmman_launch::dsh::{
    dsh_args, dsh_command, dsh_launcher, dsh_patch_document, dsh_refusal, dsh_settings_document,
    DSH_API_KEY_ENV, DSH_NPM_PACKAGE,
};
use llmman_launch::providers::{provider_needs_daemon_key, provider_unsupported};
use llmman_launch::registry::{integrations, Named};
use llmman_launch::yaml::yaml_quote;
use std::path::PathBuf;

fn args(list: &[&str]) -> Vec<String> {
    list.iter().map(|s| s.to_string()).collect()
}

#[test]
fn write_dsh_settings_points_at_llmman_with_the_key_in_the_environment() {
    let server = "http://127.0.0.1:17434";
    let contents = dsh_settings_document("qwen3.5:0.8b", server, false);
    assert!(contents.contains("provider: llmman"));
    assert!(contents.contains("model: \"qwen3.5:0.8b\""));
    assert!(contents.contains(&format!("apiKeyEnv: {DSH_API_KEY_ENV}")));
    assert!(contents.contains("api: openai-completions"));
    assert!(contents.contains(&format!("baseURL: \"{server}/v1\"")));
    assert!(contents.contains("id: \"qwen3.5:0.8b\""));
    assert!(!contents.contains("apiKey:"), "no literal key in the file");
}

#[test]
fn write_dsh_settings_declares_image_input_only_for_a_vision_model() {
    assert!(dsh_settings_document("m", "http://h", true).contains("input: [text, image]"));
    assert!(dsh_settings_document("m", "http://h", false).contains("input: [text]"));
}

#[test]
fn dsh_settings_are_laid_out_line_by_line() {
    assert_eq!(
        dsh_settings_document("m", "http://h", false),
        "# Written by `llmman launch dsh`; edits are overwritten.\n\
         agent-default-model:\n  provider: llmman\n  model: \"m\"\n\
         llm-pi-ai:\n  providers:\n    llmman:\n      displayName: llmman\n      \
         apiKeyEnv: LLMMAN_API_KEY\n      api: openai-completions\n      \
         baseURL: \"http://h/v1\"\n      \
         models:\n        - id: \"m\"\n          name: \"m\"\n          input: [text]\n"
    );
}

#[test]
fn dsh_falls_back_to_the_published_package_under_npx() {
    let dsh = PathBuf::from("/usr/local/bin/dsh");
    let npx = PathBuf::from("/usr/local/bin/npx");

    // An install wins, and npx is never even looked for.
    assert_eq!(
        dsh_command(Some(dsh.clone()), || panic!("npx looked up anyway")),
        Some((dsh, Vec::new()))
    );
    // Without one, npx runs the package: `--yes` so a first run
    // isn't blocked on a prompt, ahead of dsh's own arguments.
    assert_eq!(
        dsh_command(None, || Some(npx.clone())),
        Some((npx, vec!["--yes".to_string(), DSH_NPM_PACKAGE.to_string()]))
    );
    assert!(DSH_NPM_PACKAGE.starts_with("@deepseek-ai/dsh@"));
    // Neither: "dsh is not installed", not an npm error.
    assert_eq!(dsh_command(None::<PathBuf>, || None), None);
}

#[test]
fn write_dsh_patch_names_the_settings_document() {
    let settings_path = "/tmp/llmman/settings.yaml";
    let contents = dsh_patch_document(settings_path);
    assert!(contents.contains("id: settings"));
    assert!(contents.contains(&format!("path: {}", yaml_quote(settings_path))));
    assert_eq!(
        contents,
        "# Written by `llmman launch dsh`; edits are overwritten.\n\
         - id: settings\n  config:\n    path: \"/tmp/llmman/settings.yaml\"\n"
    );

    // A Windows-shaped path on every platform, so the escaping this
    // depends on is covered everywhere.
    let win = r"C:\Users\hb\.config\llmman\launch\dsh\settings.yaml";
    let rendered = dsh_patch_document(win);
    assert!(rendered.contains(r#"path: "C:\\Users\\hb\\"#), "{rendered}");
    assert!(!rendered.contains(r#"path: "C:\Users"#), "{rendered}");
}

#[test]
fn dsh_checks_stop_at_dshs_own_argument_boundary() {
    let forwarded_patch = args(&["--profile", "headless", "--", "--patch"]);
    assert_eq!(
        dsh_launcher(&forwarded_patch).args,
        args(&["--profile", "headless"])
    );
    assert!(!has_flag(
        dsh_launcher(&forwarded_patch).args,
        "--patch",
        None
    ));

    let forwarded_profile = args(&["--", "--profile", "headless"]);
    assert!(dsh_launcher(&forwarded_profile).args.is_empty());
    assert_eq!(
        dsh_args("/p.yml", &forwarded_profile),
        ["web", "--patch", "/p.yml", "--", "--profile", "headless"]
    );

    // The same boundary without a `--`: dsh stops at the first
    // token of its own it doesn't recognize, so a task's wording
    // is app text, not flags. `--profile headless` before it is
    // still dsh's, value stepped over rather than read as the
    // first app argument.
    let task_mentions_patch = args(&["--profile", "headless", "explain", "the", "--patch"]);
    assert_eq!(
        dsh_launcher(&task_mentions_patch).args,
        args(&["--profile", "headless"])
    );
    assert!(!has_flag(
        dsh_launcher(&task_mentions_patch).args,
        "--patch",
        None
    ));

    // An app-level `--profile` past that boundary must not suppress
    // the default `web`.
    let app_level_profile = args(&["sometask", "--profile", "headless"]);
    assert!(dsh_launcher(&app_level_profile).args.is_empty());
    assert_eq!(
        dsh_args("/p.yml", &app_level_profile),
        [
            "web",
            "--patch",
            "/p.yml",
            "sometask",
            "--profile",
            "headless"
        ]
    );

    // Bare flags take no value, and the `=`-joined spelling is dsh's
    // own either way.
    assert_eq!(
        dsh_launcher(&args(&["--dump-config", "task"])).args,
        args(&["--dump-config"])
    );
    assert_eq!(
        dsh_launcher(&args(&["--profile=headless", "task"])).args,
        args(&["--profile=headless"])
    );

    // dsh's command spellings are found where dsh itself reads them
    // (before any app argument), so a launch can refuse them up front.
    for command in ["web", "plugin"] {
        let via_command = args(&[command, "--port", "8080"]);
        assert_eq!(dsh_launcher(&via_command).command, Some(command));
        let err = dsh_refusal(&via_command).unwrap();
        assert!(err.contains("--profile"), "{err}");
    }
    // `--profile web`'s *value* is not the `web` command.
    let profile_web = args(&["--profile", "web", "--no-open"]);
    assert_eq!(dsh_launcher(&profile_web).command, None);
    assert_eq!(
        dsh_args("/p.yml", &profile_web),
        ["--patch", "/p.yml", "--profile", "web", "--no-open"]
    );
    // Same for a patch path that happens to be named `web`.
    assert_eq!(dsh_launcher(&args(&["--patch", "web"])).command, None);
    // Past the boundary it is app text, not a command.
    assert_eq!(dsh_launcher(&args(&["sometask", "web"])).command, None);

    // All launcher flags, no app arguments: the whole slice is dsh's.
    let plain = args(&["--profile", "headless"]);
    assert_eq!(dsh_launcher(&plain).args, plain);
    // A value-taking flag with its value missing must not run past
    // the end of the slice.
    assert_eq!(
        dsh_launcher(&args(&["--profile"])).args,
        args(&["--profile"])
    );
}

#[test]
fn dsh_reads_nothing_behind_its_boundary() {
    let short = args(&["--dump-config", "task"]);
    let long = args(&["--dump-config", "task", "--patch", "x", "web"]);
    assert_eq!(dsh_launcher(&short).args, dsh_launcher(&long).args);
    assert_eq!(dsh_launcher(&long).command, None);
    assert_eq!(dsh_refusal(&long), None);
}

#[test]
fn launch_dsh_refuses_a_conflicting_patch_flag() {
    let word = vec!["--patch".to_string(), "/tmp/x.yml".to_string()];
    let err = dsh_refusal(&word).unwrap();
    assert!(err.contains("--patch"), "{err}");
    let joined = vec!["--patch=/tmp/x.yml".to_string()];
    let err = dsh_refusal(&joined).unwrap();
    assert!(err.contains("--patch"), "{err}");
}

#[test]
fn dsh_refusals_say_what_to_do_instead() {
    assert_eq!(
        dsh_refusal(&args(&["--patch", "x"])).unwrap(),
        "llmman launch dsh manages --patch itself; pass other dsh flags after --"
    );
    assert_eq!(
        dsh_refusal(&args(&["web"])).unwrap(),
        "dsh's `web` command cannot be combined with the --patch llmman passes it.\n\
         Select a profile with `--profile web` instead, or omit it for the default."
    );
    assert_eq!(
        dsh_refusal(&args(&["plugin", "web"])).unwrap(),
        "dsh's `plugin` command cannot be combined with the --patch llmman passes it.\n\
         Select a profile with `--profile <name>` instead, or omit it for the default."
    );
    assert_eq!(dsh_refusal(&args(&["--profile", "web", "task"])), None);
}

#[test]
fn dsh_is_a_real_integration_and_not_on_a_provider_refusal_list() {
    let named = Named {
        name: "first".to_string(),
        description: "First Agent".to_string(),
    };
    assert!(integrations(&named).iter().any(|i| i.name == "dsh"));
    assert!(!provider_unsupported().iter().any(|(id, _)| *id == "dsh"));
    assert!(!provider_needs_daemon_key("dsh"));
}

#[test]
fn dsh_args_defaults_to_web_but_yields_to_a_caller_supplied_profile() {
    let path = "/tmp/x/llmman.cordis.yml";
    let none: Vec<String> = vec![];
    assert_eq!(
        dsh_args(path, &none),
        ["web", "--patch", "/tmp/x/llmman.cordis.yml"]
    );

    let headless = vec![
        "--profile".to_string(),
        "headless".to_string(),
        "hi".to_string(),
    ];
    assert_eq!(
        dsh_args(path, &headless),
        [
            "--patch",
            "/tmp/x/llmman.cordis.yml",
            "--profile",
            "headless",
            "hi"
        ]
    );

    let joined = vec!["--profile=headless".to_string(), "hi".to_string()];
    assert_eq!(
        dsh_args(path, &joined),
        [
            "--patch",
            "/tmp/x/llmman.cordis.yml",
            "--profile=headless",
            "hi"
        ]
    );
}

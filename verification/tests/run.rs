use llmman_launch::capabilities::ThinkingControls;
use llmman_launch::providers::{Daemon, ProviderEntry};
use llmman_launch::run::{
    is_answer, run, Action, Event, Handoff, LaunchArgs, ModelInfo, Notice, Outcome, Overflow,
    State,
};

fn launch_args(integration: Option<&str>, model: Option<&str>) -> LaunchArgs {
    LaunchArgs {
        integration: integration.map(str::to_string),
        model: model.map(str::to_string),
        provider: None,
        overflow_provider: None,
        overflow_model: None,
        extra_args: Vec::new(),
    }
}

fn daemon() -> Daemon {
    Daemon {
        server: "http://h".to_string(),
        bind_addr: "h".to_string(),
        connects_securely: true,
        reachable_only_locally: true,
        client_key: None,
        placeholder: "placeholder".to_string(),
    }
}

fn flags(provider: Option<&str>, overflow: Option<(&str, &str)>) -> Event {
    Event::Flags {
        provider: provider.map(str::to_string),
        overflow: overflow.map(|(provider, model)| Overflow {
            provider: provider.to_string(),
            model: model.to_string(),
        }),
    }
}

fn entry() -> ProviderEntry {
    ProviderEntry {
        name: "P".to_string(),
        key_usable: true,
        key_optional: false,
        daemon_key_usable: false,
        client_key: Some("mine".to_string()),
        key_hint: "hint".to_string(),
        example_models: "examples".to_string(),
    }
}

fn info() -> ModelInfo {
    ModelInfo {
        thinking: Some(ThinkingControls {
            thinks: true,
            choices: vec!["none".to_string()],
        }),
        vision: true,
        context_length: Some(9),
    }
}

fn step(args: &LaunchArgs, state: State, event: Event) -> Outcome {
    assert!(is_answer(args, &state, &event));
    run(args, &daemon(), state, event)
}

fn handed(out: Outcome) -> Handoff {
    assert!(matches!(out.state, State::Done));
    match out.action {
        Action::Launch { handoff } => handoff,
        other => panic!("{other:?}"),
    }
}

fn failure(out: Outcome) -> String {
    assert!(matches!(out.state, State::Done));
    match out.action {
        Action::Fail { message } => message,
        other => panic!("{other:?}"),
    }
}

#[test]
fn without_an_integration_they_are_listed() {
    let out = step(&launch_args(None, Some("m")), State::Begin, flags(None, None));
    assert!(out.notices.is_empty());
    assert!(matches!(out.action, Action::List));
    assert!(matches!(out.state, State::Done));
}

#[test]
fn a_local_model_is_resolved_started_pulled_and_handed_over() {
    let args = launch_args(Some("Codex"), Some("m"));
    let out = step(&args, State::Begin, flags(None, None));
    assert!(matches!(&out.action, Action::Resolve { model } if model == "m"));
    let event = Event::Resolved {
        model: "docker.io/ai/m".to_string(),
    };
    let out = step(&args, out.state, event);
    assert!(matches!(&out.action, Action::EnsureServer { model } if model == "docker.io/ai/m"));
    let out = step(&args, out.state, Event::ServerReady);
    assert!(matches!(&out.action, Action::Pull { model } if model == "docker.io/ai/m"));
    let handoff = handed(step(&args, out.state, Event::Pulled { info: info() }));
    assert_eq!(handoff.integration, "Codex");
    assert_eq!(handoff.model, "docker.io/ai/m");
    assert_eq!(handoff.api_key, "placeholder");
    assert!(handoff.info.vision);
    assert_eq!(handoff.info.context_length, Some(9));
    assert!(handoff.info.thinking.unwrap().thinks);
}

#[test]
fn without_a_model_only_the_daemon_is_started() {
    let args = launch_args(Some("codex"), None);
    let out = step(&args, State::Begin, flags(None, None));
    assert!(matches!(&out.action, Action::EnsureServer { model } if model.is_empty()));
    let handoff = handed(step(&args, out.state, Event::ServerReady));
    assert_eq!(handoff.model, "");
    assert!(handoff.info.thinking.is_none());
    assert!(!handoff.info.vision);
    assert_eq!(handoff.info.context_length, None);
}

#[test]
fn a_providers_model_is_looked_up_and_handed_over() {
    let args = launch_args(Some("codex"), Some(" q/m "));
    let out = step(&args, State::Begin, flags(Some("p"), None));
    assert!(matches!(&out.action, Action::EnsureServer { model } if model.is_empty()));
    let out = step(&args, out.state, Event::ServerReady);
    assert!(matches!(&out.action, Action::LookUp { provider } if provider == "p"));
    let out = step(&args, out.state, Event::Provider { entry: entry() });
    assert!(matches!(&out.notices[..], [Notice::Unlisted { model }] if model == "q/m"));
    let handoff = handed(out);
    assert_eq!(handoff.model, "llmman.provider/p/q/m");
    assert_eq!(handoff.api_key, "mine");
}

#[test]
fn a_file_agent_is_handed_no_provider_key() {
    let args = launch_args(Some("HERMES"), Some("m"));
    let out = step(&args, State::Begin, flags(Some("p"), None));
    let out = step(&args, out.state, Event::ServerReady);
    let handoff = handed(step(&args, out.state, Event::Provider { entry: entry() }));
    assert_eq!(handoff.api_key, "placeholder");
}

#[test]
fn a_pair_keeps_what_is_known_of_its_local_half() {
    let args = launch_args(Some("opencode"), Some("m"));
    let out = step(&args, State::Begin, flags(None, Some(("p", "big"))));
    let event = Event::Resolved {
        model: "r".to_string(),
    };
    let out = step(&args, out.state, event);
    let out = step(&args, out.state, Event::ServerReady);
    let out = step(&args, out.state, Event::Pulled { info: info() });
    assert!(matches!(&out.action, Action::LookUp { provider } if provider == "p"));
    let served = ProviderEntry {
        client_key: None,
        daemon_key_usable: true,
        ..entry()
    };
    let out = step(&args, out.state, Event::Provider { entry: served });
    assert!(matches!(&out.notices[0], Notice::Unlisted { model } if model == "big"));
    assert!(matches!(&out.notices[1], Notice::Say { line }
        if line == "[llmman] warning: no API key for P here; using the key llmman serve has"));
    assert!(matches!(&out.action, Action::Pair { local, remote }
        if local == "r" && remote == "llmman.provider/p/big"));
    let event = Event::Paired {
        reference: "llmman.hybrid/r,p/big".to_string(),
    };
    let handoff = handed(step(&args, out.state, event));
    assert_eq!(handoff.model, "llmman.hybrid/r,p/big");
    assert_eq!(handoff.api_key, "placeholder");
    assert!(handoff.info.vision);
}

#[test]
fn refusals_come_before_the_daemon() {
    let needs_model = step(
        &launch_args(Some("qwen"), None),
        State::Begin,
        flags(Some("p"), None),
    );
    assert_eq!(
        failure(needs_model),
        "qwen needs a model: llmman launch qwen --provider p --model <model>"
    );
    let no_local = step(
        &launch_args(Some("codex"), Some(" ")),
        State::Begin,
        flags(None, Some(("p", "big"))),
    );
    assert_eq!(
        failure(no_local),
        "--overflow-model needs --model naming the local model to pair it with"
    );
    let undriven = step(
        &launch_args(Some("kimi"), Some("m")),
        State::Begin,
        flags(Some("p"), None),
    );
    assert!(failure(undriven).starts_with("--provider does not work with kimi: "));
}

#[test]
fn a_pair_is_refused_where_its_provider_is() {
    let args = launch_args(Some("gemini"), Some("m"));
    let out = step(&args, State::Begin, flags(None, Some(("p", "big"))));
    let event = Event::Resolved {
        model: "r".to_string(),
    };
    let out = step(&args, out.state, event);
    let out = step(&args, out.state, Event::ServerReady);
    let out = step(&args, out.state, Event::Pulled { info: info() });
    assert!(failure(out).starts_with("--provider does not work with gemini: "));
}

#[test]
fn a_missing_provider_model_or_key_ends_the_launch() {
    let args = launch_args(Some("codex"), None);
    let out = step(&args, State::Begin, flags(Some("p"), None));
    let out = step(&args, out.state, Event::ServerReady);
    let out = step(&args, out.state, Event::Provider { entry: entry() });
    assert!(out.notices.is_empty());
    assert_eq!(failure(out), "--provider p also needs --model\n\nexamples");

    let args = launch_args(Some("codex"), Some("m"));
    let out = step(&args, State::Begin, flags(Some("p"), None));
    let out = step(&args, out.state, Event::ServerReady);
    let keyless = ProviderEntry {
        client_key: None,
        ..entry()
    };
    let out = step(&args, out.state, Event::Provider { entry: keyless });
    assert_eq!(out.notices.len(), 1);
    assert_eq!(failure(out), "no API key for P \u{2014} hint");
}

#[test]
fn a_forwarded_model_is_said_to_win() {
    let mut args = launch_args(Some("goose"), Some("m"));
    args.extra_args = vec!["--model".to_string(), "theirs".to_string()];
    let out = step(&args, State::Begin, flags(None, None));
    assert!(matches!(&out.notices[..], [Notice::Say { line }]
        if line == "[llmman] goose: the --model after -- wins over --model m, the one llmman resolved"));
    assert!(matches!(out.action, Action::Resolve { .. }));
}

#[test]
fn work_that_was_not_asked_for_is_no_answer() {
    let args = launch_args(Some("codex"), Some("m"));
    assert!(is_answer(&args, &State::Begin, &flags(None, None)));
    assert!(!is_answer(&args, &State::Begin, &Event::ServerReady));
    assert!(!is_answer(&args, &State::Done, &flags(None, None)));
    let unnamed = launch_args(None, None);
    let state = State::ForProvider {
        provider: "p".to_string(),
    };
    assert!(!is_answer(&unnamed, &state, &Event::ServerReady));
    assert!(is_answer(&args, &state, &Event::ServerReady));
}

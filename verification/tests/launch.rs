use llmman_launch::agy::agy_base_url;
use llmman_launch::args::forwarded_model;
use llmman_launch::launch::{
    chosen_model, download_notice, exit_code, launch_command, launch_steps, needs_onboarding,
    openclaw_configs, openclaw_model_id, openclaw_onboard_args, refuse_arguments, Command, Found,
    Job, Step,
};
use llmman_launch::opencode::{opencode_config, opencode_variants};
use llmman_launch::providers::{provider_needs_daemon_key, unsupported_reason};
use llmman_launch::registry::{integrations, launch, Agent, Integration, Named};

fn args(list: &[&str]) -> Vec<String> {
    list.iter().map(|s| s.to_string()).collect()
}

fn agents() -> Vec<(Integration, Agent)> {
    let named = Named {
        name: "first".to_string(),
        description: "First Agent".to_string(),
    };
    integrations(&named)
        .into_iter()
        .map(|i| {
            let agent = launch(&i.name, &named).unwrap();
            (i, agent)
        })
        .collect()
}

fn command(agent: Agent, model: &str, extra: &[&str]) -> Command {
    command_with_key(agent, model, "k", extra)
}

fn command_with_key(agent: Agent, model: &str, api_key: &str, extra: &[&str]) -> Command {
    let extra = args(extra);
    let prefix = args(&["--yes", "pkg"]);
    let job = Job {
        model,
        api_key,
        server: "http://h",
        thinking: None,
        vision: true,
        extra_args: &extra,
    };
    let found = Found {
        prefix: &prefix,
        config: "/conf",
        path: Some("/p:/q"),
    };
    launch_command(agent, &job, &found)
}

fn env(command: &Command) -> Vec<(&str, &str)> {
    command
        .env
        .iter()
        .map(|(name, value)| (name.as_str(), value.as_str()))
        .collect()
}

#[test]
fn openclaw_model_id_strips_the_docker_ai_prefix() {
    assert_eq!(
        openclaw_model_id("docker.io/ai/qwen3.5:0.8b"),
        "qwen3.5:0.8b"
    );
    assert_eq!(openclaw_model_id("qwen3.5:0.8b"), "qwen3.5:0.8b");
    assert_eq!(
        openclaw_model_id("hf.co/unsloth/Qwen3.5-0.8B-GGUF"),
        "hf.co/unsloth/Qwen3.5-0.8B-GGUF"
    );
    assert_eq!(openclaw_model_id(""), "default");
    assert_eq!(openclaw_model_id("docker.io/ai/"), "default");
}

#[test]
fn openclaw_is_onboarded_against_the_daemon() {
    assert_eq!(
        openclaw_onboard_args("http://h", "docker.io/ai/m"),
        [
            "onboard",
            "--non-interactive",
            "--accept-risk",
            "--auth-choice",
            "ollama",
            "--custom-base-url",
            "http://h/v1",
            "--custom-model-id",
            "m",
            "--skip-health",
            "--skip-channels",
            "--skip-skills",
        ]
    );
    let configs = openclaw_configs();
    assert_eq!(configs[0].parts, [".openclaw", "openclaw.json"]);
    assert_eq!(configs[1].parts, [".clawdbot", "clawdbot.json"]);
}

#[test]
fn openclaw_is_onboarded_unless_a_file_of_it_is_there() {
    assert!(needs_onboarding(&[false, false]));
    assert!(!needs_onboarding(&[true, false]));
    assert!(!needs_onboarding(&[false, true]));
    assert!(!needs_onboarding(&[true, true]));
    assert!(needs_onboarding(&[]));
}

#[test]
fn the_model_in_the_arguments_is_chosen() {
    assert_eq!(chosen_model("m", &args(&["-m", "theirs"])), "theirs");
    assert_eq!(chosen_model("m", &args(&["-x"])), "m");
}

#[test]
fn each_agent_gets_its_arguments() {
    let run = |agent, model| command(agent, model, &["-x"]).args;
    assert_eq!(run(Agent::Claude, "m"), ["--model", "m", "-x"]);
    assert_eq!(run(Agent::Claude, ""), ["-x"]);
    assert_eq!(run(Agent::Opencode, "m"), ["-x"]);
    assert_eq!(
        run(Agent::Codex, "m"),
        ["--model", "m", "--profile", "llmman", "-x"]
    );
    assert_eq!(run(Agent::Codex, ""), ["--profile", "llmman", "-x"]);
    assert_eq!(
        run(Agent::Pi, ""),
        ["--model", "llmman/default", "--api-key", "k", "-x"]
    );
    assert_eq!(run(Agent::Cline, "m"), ["-x"]);
    assert_eq!(
        run(Agent::Aider, "m"),
        ["--model", "openai/m", "--openai-api-base", "http://h/v1", "-x"]
    );
    assert_eq!(
        run(Agent::Aider, ""),
        ["--openai-api-base", "http://h/v1", "-x"]
    );
    assert_eq!(run(Agent::Copilot, "m"), ["copilot", "--model", "m", "-x"]);
    assert_eq!(run(Agent::Copilot, ""), ["copilot", "-x"]);
    assert_eq!(run(Agent::Kimi, "m"), ["-x"]);
    assert_eq!(run(Agent::Gemini, "m"), ["--model", "m", "-x"]);
    assert_eq!(run(Agent::Agy, "m"), ["--gemini_dir=/conf", "-x"]);
    assert_eq!(run(Agent::Hermes, "m"), ["-x"]);
    assert_eq!(run(Agent::Openclaw, "m"), ["-x"]);
    assert_eq!(
        run(Agent::Qwen, "m"),
        ["--auth-type", "openai", "--model", "m", "-x"]
    );
    assert_eq!(
        run(Agent::Dsh, "m"),
        ["--yes", "pkg", "web", "--patch", "/conf", "-x"]
    );
    assert_eq!(run(Agent::Goose, "m"), ["-x"]);
    assert_eq!(run(Agent::Grok, "m"), ["--model", "m", "-x"]);
}

#[test]
fn each_agent_gets_its_environment() {
    let host = ("OLLAMA_HOST", "http://h");
    let v1 = "http://h/v1";
    assert_eq!(
        env(&command(Agent::Claude, "m", &[])),
        [
            host,
            ("ANTHROPIC_BASE_URL", "http://h"),
            ("ANTHROPIC_API_KEY", "k")
        ]
    );
    let config = opencode_config("http://h", "default", "k", &opencode_variants(None), true);
    assert_eq!(
        env(&command(Agent::Opencode, "", &[])),
        [host, ("OPENCODE_CONFIG_CONTENT", config.as_str())]
    );
    assert_eq!(
        env(&command(Agent::Codex, "m", &[])),
        [host, ("OPENAI_API_KEY", "k")]
    );
    assert_eq!(env(&command(Agent::Pi, "m", &[])), [host]);
    assert_eq!(env(&command(Agent::Cline, "m", &[])), [host, host]);
    assert_eq!(env(&command(Agent::Kimi, "m", &[])), [host, host]);
    assert_eq!(
        env(&command(Agent::Aider, "m", &[])),
        [host, ("OPENAI_API_KEY", "k"), ("OPENAI_BASE_URL", v1)]
    );
    assert_eq!(
        env(&command(Agent::Copilot, "m", &[])),
        [host, ("COPILOT_PROVIDER_BASE_URL", v1)]
    );
    assert_eq!(
        env(&command(Agent::Gemini, "m", &[])),
        [
            host,
            ("GOOGLE_GENAI_BASE_URL", v1),
            ("GEMINI_BASE_URL", v1),
            ("GEMINI_API_KEY", "k"),
        ]
    );
    let url = agy_base_url("http://h", "m");
    assert_eq!(
        env(&command(Agent::Agy, "m", &[])),
        [
            host,
            ("GOOGLE_GEMINI_BASE_URL", url.as_str()),
            ("GEMINI_API_KEY", "k"),
            ("GOOGLE_API_KEY", "k")
        ]
    );
    assert_eq!(env(&command(Agent::Hermes, "m", &[])), [host]);
    assert_eq!(env(&command(Agent::Openclaw, "m", &[])), [host]);
    assert_eq!(
        env(&command(Agent::Qwen, "m", &["-m", "theirs"])),
        [
            host,
            ("OPENAI_BASE_URL", v1),
            ("OPENAI_API_KEY", "k"),
            ("LLMMAN_API_KEY", "k"),
            ("OPENAI_MODEL", "theirs"),
            ("PATH", "/p:/q")
        ]
    );
    assert_eq!(
        env(&command(Agent::Dsh, "m", &[])),
        [host, ("LLMMAN_API_KEY", "k")]
    );
    let goose = command(Agent::Goose, "m", &[]);
    assert_eq!(env(&goose).last(), Some(&("GOOSE_MODEL", "m")));
    assert!(env(&goose).contains(&("OPENAI_HOST", "http://h")));
    let grok = command(Agent::Grok, "m", &["--model=theirs"]);
    assert!(env(&grok).contains(&("GROK_DEFAULT_MODEL", "theirs")));
    assert!(env(&grok).contains(&("GROK_MODELS_LIST_URL", "http://h/v1/models")));
    assert!(env(&grok).contains(&("GROK_HOME", "/conf")));
}

#[test]
fn every_agent_is_pointed_at_the_daemon() {
    for (i, agent) in agents() {
        let command = command(agent, "m", &["-x", "y"]);
        let last = command.env.iter().rev().find(|(name, _)| name == "OLLAMA_HOST");
        assert_eq!(last.unwrap().1, "http://h");
        assert!(command.args.ends_with(&args(&["-x", "y"])), "{}", i.name);
    }
}

#[test]
fn nothing_is_written_before_the_agent_is_found() {
    for (i, agent) in agents() {
        let steps = launch_steps(agent);
        assert_eq!(steps.last(), Some(&Step::Run));
        let place = |step| steps.iter().position(|s| *s == step);
        if let Some(write) = place(Step::Write) {
            assert_eq!(
                place(Step::Find).unwrap() < write,
                agent != Agent::Codex,
                "{}",
                i.name
            );
        }
    }
    assert_eq!(launch_steps(Agent::Aider), [Step::Run]);
    assert_eq!(
        launch_steps(Agent::Agy),
        [Step::Find, Step::Refuse, Step::Write, Step::Run]
    );
    assert_eq!(
        launch_steps(Agent::Dsh),
        [Step::Refuse, Step::Find, Step::Write, Step::Run]
    );
    assert_eq!(
        launch_steps(Agent::Openclaw),
        [Step::Find, Step::Onboard, Step::Run]
    );
    assert_eq!(launch_steps(Agent::Goose), [Step::Find, Step::Run]);
}

#[test]
fn only_agy_and_dsh_refuse_arguments() {
    let extra = args(&["--gemini_dir", "--patch", "x"]);
    for (_, agent) in agents() {
        let refused = refuse_arguments(agent, &extra).is_some();
        assert_eq!(refused, agent == Agent::Agy || agent == Agent::Dsh);
    }
}

#[test]
fn a_download_is_announced() {
    assert_eq!(download_notice(&[]), None);
    assert_eq!(
        download_notice(&args(&["--yes", "x"])).as_deref(),
        Some("[llmman] dsh is not installed; running @deepseek-ai/dsh@latest with npx")
    );
}

#[test]
fn an_agent_without_a_code_counts_as_failed() {
    assert_eq!(exit_code(Some(0)), 0);
    assert_eq!(exit_code(Some(7)), 7);
    assert_eq!(exit_code(None), 1);
}

#[test]
fn a_key_reaches_only_the_agents_that_can_carry_it() {
    for (i, agent) in agents() {
        let one = command_with_key(agent, "m", "one", &[]);
        let two = command_with_key(agent, "m", "two", &[]);
        let keyless = one.args == two.args && one.env == two.env;
        if keyless {
            assert!(
                unsupported_reason(&i.name).is_some() || provider_needs_daemon_key(&i.name),
                "{}",
                i.name
            );
        }
        assert_eq!(
            keyless,
            ["cline", "kimi", "copilot", "hermes", "openclaw"].contains(&i.name.as_str()),
            "{}",
            i.name
        );
    }
}

#[test]
fn the_command_line_names_the_model_of_the_environment() {
    for agent in [Agent::Qwen, Agent::Grok] {
        for (extra, model) in [(&["-x"][..], "m"), (&["-m", "theirs"], "theirs")] {
            let command = command(agent, "m", extra);
            assert_eq!(forwarded_model(&command.args), Some(model));
            assert!(command.env.iter().any(|(name, value)| {
                (name == "OPENAI_MODEL" || name == "GROK_DEFAULT_MODEL") && value == model
            }));
        }
    }
}

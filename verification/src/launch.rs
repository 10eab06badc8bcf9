//! What an agent is launched with: the steps of a launch, and the command
//! at the end of it.

use crate::agy::{agy_base_url, agy_refusal, agy_url, base64_url};
use crate::args::{
    flag_given, forwarded_model, joined_model, last_model, law_a_model_in_the_arguments,
    lemma_found_or_given, model_forwarded, spells, spells_either,
};
use crate::capabilities::ThinkingControls;
use crate::dsh::{
    dsh_args, dsh_line, dsh_refusal, launcher_args, launcher_command, refusal_of, DSH_API_KEY_ENV,
    DSH_NPM_PACKAGE,
};
use crate::endpoint::{effective_model, model_or_default, v1_of, v1_url};
use crate::goose::{goose_env, goose_vars};
use crate::grok::{grok_args, grok_env, grok_line, grok_vars};
use crate::opencode::{choices_of, config_text, opencode_config, opencode_variants, variants_of};
use crate::paths::{at, places, Location, Place, Root};
use crate::pi::PI_PROVIDER;
use crate::providers::{listed_under, needs_daemon_key, unsupported};
use crate::qwen::{qwen_args, qwen_command, QWEN_ENV_KEY};
use crate::registry::{agent_of, Agent, Named};
use crate::text::{
    extend_texts, law_a_prefix_is_taken_off, push_both, push_text, str_pairs, string_of,
    string_pairs, strip_prefix, text_of, texts, without_prefix,
};
use vstd::prelude::*;
use vstd::string::*;
use vstd::utf8::encode_utf8;

verus! {

// ---------------------------------------------------------------------------
// Steps
// ---------------------------------------------------------------------------

/// A step of a launch.
#[derive(Debug, Clone, Copy, PartialEq, Eq, Structural)]
pub enum Step {
    /// The agent is looked for; the launch ends where it is not found.
    Find,
    /// The caller's arguments are checked for what llmman manages itself.
    Refuse,
    /// The agent's configuration is written.
    Write,
    /// The agent is set up, unless it has been.
    Onboard,
    /// The agent takes over.
    Run,
}

/// The steps of a launch, in their order.
pub open spec fn steps_of(agent: Agent) -> Seq<Step> {
    match agent {
        Agent::Codex => seq![Step::Write, Step::Find, Step::Run],
        Agent::Aider => seq![Step::Run],
        Agent::Agy => seq![Step::Find, Step::Refuse, Step::Write, Step::Run],
        Agent::Dsh => seq![Step::Refuse, Step::Find, Step::Write, Step::Run],
        Agent::Openclaw => seq![Step::Find, Step::Onboard, Step::Run],
        Agent::Pi => seq![Step::Find, Step::Write, Step::Run],
        Agent::Hermes => seq![Step::Find, Step::Write, Step::Run],
        Agent::Qwen => seq![Step::Find, Step::Write, Step::Run],
        Agent::Grok => seq![Step::Find, Step::Write, Step::Run],
        _ => seq![Step::Find, Step::Run],
    }
}

/// The steps of a launch, in their order.
pub fn launch_steps(agent: Agent) -> (r: Vec<Step>)
    ensures
        r@ == steps_of(agent),
{
    let mut steps: Vec<Step> = Vec::new();
    match agent {
        Agent::Codex => {
            steps.push(Step::Write);
            steps.push(Step::Find);
        },
        Agent::Aider => {},
        Agent::Agy => {
            steps.push(Step::Find);
            steps.push(Step::Refuse);
            steps.push(Step::Write);
        },
        Agent::Dsh => {
            steps.push(Step::Refuse);
            steps.push(Step::Find);
            steps.push(Step::Write);
        },
        Agent::Openclaw => {
            steps.push(Step::Find);
            steps.push(Step::Onboard);
        },
        Agent::Pi => {
            steps.push(Step::Find);
            steps.push(Step::Write);
        },
        Agent::Hermes => {
            steps.push(Step::Find);
            steps.push(Step::Write);
        },
        Agent::Qwen => {
            steps.push(Step::Find);
            steps.push(Step::Write);
        },
        Agent::Grok => {
            steps.push(Step::Find);
            steps.push(Step::Write);
        },
        _ => {
            steps.push(Step::Find);
        },
    }
    steps.push(Step::Run);
    assert(steps@ =~= steps_of(agent));
    steps
}

/// Why an agent cannot be launched with the caller's arguments.
pub open spec fn argument_refusal(agent: Agent, extra: Seq<Seq<char>>) -> Option<Seq<char>> {
    match agent {
        Agent::Agy => if flag_given(extra, "--gemini_dir"@, Some("-gemini_dir"@)) {
            Some("llmman manages AGY\u{2019}s --gemini_dir"@)
        } else {
            None
        },
        Agent::Dsh => refusal_of(extra),
        _ => None,
    }
}

/// Why an agent cannot be launched with the caller's arguments, none if it
/// can.
pub fn refuse_arguments(agent: Agent, extra_args: &[String]) -> (r: Option<String>)
    ensures
        string_of(r) == argument_refusal(agent, texts(extra_args@)),
{
    match agent {
        Agent::Agy => agy_refusal(extra_args),
        Agent::Dsh => dsh_refusal(extra_args),
        _ => None,
    }
}

// ---------------------------------------------------------------------------
// Onboarding
// ---------------------------------------------------------------------------

/// The name OpenClaw is given for a model.
pub open spec fn openclaw_name(model: Seq<char>) -> Seq<char> {
    match without_prefix(model, "docker.io/ai/"@) {
        Some(bare) => model_or_default(bare),
        None => model_or_default(model),
    }
}

/// The name OpenClaw is given for a model: its onboarding takes
/// `docker.io/ai/` for a container registry, so the bare name is what it
/// expects. `default` when there is nothing left.
pub fn openclaw_model_id(model: &str) -> (r: &str)
    ensures
        r@ == openclaw_name(model@),
{
    match strip_prefix(model, "docker.io/ai/") {
        Some(bare) => effective_model(bare),
        None => effective_model(model),
    }
}

/// The arguments of OpenClaw's onboarding.
pub open spec fn onboard_line(server: Seq<char>, model: Seq<char>) -> Seq<Seq<char>> {
    seq![
        "onboard"@,
        "--non-interactive"@,
        "--accept-risk"@,
        "--auth-choice"@,
        "ollama"@,
        "--custom-base-url"@,
        v1_of(server),
        "--custom-model-id"@,
        openclaw_name(model),
        "--skip-health"@,
        "--skip-channels"@,
        "--skip-skills"@,
    ]
}

/// The arguments of OpenClaw's onboarding against the daemon.
pub fn openclaw_onboard_args(server: &str, model: &str) -> (r: Vec<String>)
    ensures
        texts(r@) == onboard_line(server@, model@),
{
    let url = v1_url(server);
    let mut args: Vec<String> = Vec::new();
    push_text(&mut args, "onboard");
    push_text(&mut args, "--non-interactive");
    push_text(&mut args, "--accept-risk");
    push_text(&mut args, "--auth-choice");
    push_text(&mut args, "ollama");
    push_text(&mut args, "--custom-base-url");
    push_text(&mut args, url.as_str());
    push_text(&mut args, "--custom-model-id");
    push_text(&mut args, openclaw_model_id(model));
    push_text(&mut args, "--skip-health");
    push_text(&mut args, "--skip-channels");
    push_text(&mut args, "--skip-skills");
    assert(texts(args@) =~= onboard_line(server@, model@));
    args
}

/// The files either of which says that OpenClaw was set up: its
/// configuration, and the one it had under its earlier name.
pub open spec fn onboarded_places() -> Seq<Place> {
    seq![
        at(Root::Home).join(".openclaw"@).join("openclaw.json"@),
        at(Root::Home).join(".clawdbot"@).join("clawdbot.json"@),
    ]
}

/// The files either of which says that OpenClaw was set up.
pub fn openclaw_configs() -> (r: Vec<Location>)
    ensures
        places(r@) == onboarded_places(),
{
    let mut list: Vec<Location> = Vec::new();
    list.push(Location::new(Root::Home).join(".openclaw").join("openclaw.json"));
    list.push(Location::new(Root::Home).join(".clawdbot").join("clawdbot.json"));
    assert(places(list@) =~= onboarded_places());
    list
}

/// Whether OpenClaw is yet to be set up, given which of its files are there.
pub open spec fn is_new(there: Seq<bool>) -> bool {
    !there.contains(true)
}

/// Whether OpenClaw is yet to be set up, given which of its files are there.
pub fn needs_onboarding(there: &[bool]) -> (r: bool)
    ensures
        r == is_new(there@),
{
    for i in 0..there.len()
        invariant
            forall|k: int| 0 <= k < i ==> !there@[k],
    {
        if there[i] {
            assert(there@[i as int]);
            return false;
        }
    }
    true
}

// ---------------------------------------------------------------------------
// The command
// ---------------------------------------------------------------------------

/// What is launched: the model, and what it can do, the key, the daemon,
/// and the caller's arguments.
#[derive(Debug)]
pub struct Job<'a> {
    pub model: &'a str,
    pub api_key: &'a str,
    pub server: &'a str,
    pub thinking: Option<&'a ThinkingControls>,
    pub vision: bool,
    pub extra_args: &'a [String],
}

/// What the steps before it found out for the command.
#[derive(Debug)]
pub struct Found<'a> {
    /// The arguments that lead the agent's own, for an agent that is run by
    /// another program.
    pub prefix: &'a [String],
    /// Where the agent's configuration is: AGY's and Grok's directory, and
    /// dsh's patch.
    pub config: &'a str,
    /// The `PATH` Qwen Code needs, if it is not the one it inherits.
    pub path: Option<&'a str>,
}

/// An agent's arguments, and the variables set for it, in the order they
/// are set.
#[derive(Debug)]
pub struct Command {
    pub args: Vec<String>,
    pub env: Vec<(String, String)>,
}

/// What a command says.
pub struct CommandLine {
    pub args: Seq<Seq<char>>,
    pub env: Seq<(Seq<char>, Seq<char>)>,
}

impl View for Command {
    type V = CommandLine;

    open spec fn view(&self) -> CommandLine {
        CommandLine { args: texts(self.args@), env: string_pairs(self.env@) }
    }
}

/// The flag that names a model, left out without one.
pub open spec fn model_flag(model: Seq<char>) -> Seq<Seq<char>> {
    if model.len() == 0 {
        Seq::empty()
    } else {
        seq!["--model"@, model]
    }
}

/// The model an agent that yields to the caller uses: the one the caller's
/// arguments name wins.
pub open spec fn model_in_use(model: Seq<char>, extra: Seq<Seq<char>>) -> Seq<char> {
    match model_forwarded(extra) {
        Some(forwarded) => forwarded,
        None => model,
    }
}

/// The arguments of an agent.
pub open spec fn args_of(agent: Agent, job: Job, found: Found) -> Seq<Seq<char>> {
    let model = job.model@;
    let extra = texts(job.extra_args@);
    match agent {
        Agent::Claude => model_flag(model) + extra,
        Agent::Opencode => extra,
        Agent::Codex => model_flag(model) + seq!["--profile"@, "llmman"@] + extra,
        Agent::Pi => seq![
            "--model"@,
            PI_PROVIDER@ + "/"@ + model_or_default(model),
            "--api-key"@,
            job.api_key@,
        ] + extra,
        Agent::Cline => extra,
        Agent::Aider => (if model.len() == 0 {
            Seq::empty()
        } else {
            seq!["--model"@, "openai/"@ + model]
        }) + seq!["--openai-api-base"@, v1_of(job.server@)] + extra,
        Agent::Copilot => seq!["copilot"@] + model_flag(model) + extra,
        Agent::Kimi => extra,
        Agent::Gemini => model_flag(model) + extra,
        Agent::Agy => seq!["--gemini_dir="@ + found.config@] + extra,
        Agent::Hermes => extra,
        Agent::Openclaw => extra,
        Agent::Qwen => qwen_command(model_in_use(model, extra), extra),
        Agent::Dsh => texts(found.prefix@) + dsh_line(found.config@, extra),
        Agent::Goose => extra,
        Agent::Grok => grok_line(model, extra),
    }
}

/// The variables set for an agent.
pub open spec fn env_of(agent: Agent, job: Job, found: Found) -> Seq<(Seq<char>, Seq<char>)> {
    let model = job.model@;
    let key = job.api_key@;
    let server = job.server@;
    let v1 = v1_of(server);
    let extra = texts(job.extra_args@);
    match agent {
        Agent::Claude => seq![("ANTHROPIC_BASE_URL"@, server), ("ANTHROPIC_API_KEY"@, key)],
        Agent::Opencode => seq![
            (
                "OPENCODE_CONFIG_CONTENT"@,
                config_text(
                    server,
                    model_or_default(model),
                    key,
                    variants_of(choices_of(job.thinking)),
                    job.vision,
                ),
            ),
        ],
        Agent::Codex => seq![("OPENAI_API_KEY"@, key)],
        Agent::Pi => Seq::empty(),
        Agent::Cline => seq![("OLLAMA_HOST"@, server)],
        Agent::Aider => seq![("OPENAI_API_KEY"@, key), ("OPENAI_BASE_URL"@, v1)],
        Agent::Copilot => seq![("COPILOT_PROVIDER_BASE_URL"@, v1)],
        Agent::Kimi => seq![("OLLAMA_HOST"@, server)],
        Agent::Gemini => seq![
            ("GOOGLE_GENAI_BASE_URL"@, v1),
            ("GEMINI_BASE_URL"@, v1),
            ("GEMINI_API_KEY"@, key),
        ],
        Agent::Agy => seq![
            ("GOOGLE_GEMINI_BASE_URL"@, agy_url(server, model)),
            ("GEMINI_API_KEY"@, key),
            ("GOOGLE_API_KEY"@, key),
        ],
        Agent::Hermes => Seq::empty(),
        Agent::Openclaw => Seq::empty(),
        Agent::Qwen => {
            let fixed = seq![
                ("OPENAI_BASE_URL"@, v1),
                ("OPENAI_API_KEY"@, key),
                (QWEN_ENV_KEY@, key),
                ("OPENAI_MODEL"@, model_in_use(model, extra)),
            ];
            match found.path {
                Some(path) => fixed.push(("PATH"@, path@)),
                None => fixed,
            }
        },
        Agent::Dsh => seq![(DSH_API_KEY_ENV@, key)],
        Agent::Goose => goose_vars(model, key, server),
        Agent::Grok => grok_vars(
            model_in_use(model, extra),
            key,
            v1,
            v1 + "/models"@,
            found.config@,
        ),
    }
}

/// Puts a variable behind others.
fn set(env: &mut Vec<(String, String)>, name: &str, value: &str)
    ensures
        string_pairs(final(env)@) == string_pairs(old(env)@).push((name@, value@)),
{
    env.push((name.to_owned(), value.to_owned()));
    assert(string_pairs(env@) =~= string_pairs(old(env)@).push((name@, value@)));
}

/// Copies of variables.
fn set_all(vars: &Vec<(&str, &str)>) -> (r: Vec<(String, String)>)
    ensures
        string_pairs(r@) == str_pairs(vars@),
{
    let mut env: Vec<(String, String)> = Vec::new();
    let ghost all = str_pairs(vars@);
    assert(string_pairs(env@) =~= all.take(0));
    for i in 0..vars.len()
        invariant
            all == str_pairs(vars@),
            string_pairs(env@) == all.take(i as int),
    {
        assert(all[i as int] == (vars@[i as int].0@, vars@[i as int].1@));
        set(&mut env, vars[i].0, vars[i].1);
        assert(all.take(i + 1) =~= all.take(i as int).push(all[i as int]));
    }
    assert(all.take(all.len() as int) =~= all);
    env
}

/// Puts the flag that names a model behind other arguments.
fn push_model(args: &mut Vec<String>, model: &str)
    ensures
        texts(final(args)@) == texts(old(args)@) + model_flag(model@),
{
    let ghost before = texts(args@);
    if !model.is_empty() {
        push_text(args, "--model");
        push_text(args, model);
    }
    assert(texts(args@) =~= before + model_flag(model@));
}

/// The model the caller's arguments name, else `model`.
pub fn chosen_model<'a>(model: &'a str, extra_args: &'a [String]) -> (r: &'a str)
    ensures
        r@ == model_in_use(model@, texts(extra_args@)),
{
    match forwarded_model(extra_args) {
        Some(forwarded) => forwarded,
        None => model,
    }
}

/// The arguments of an agent.
fn launch_args(agent: Agent, job: &Job, found: &Found) -> (r: Vec<String>)
    ensures
        texts(r@) == args_of(agent, *job, *found),
{
    let ghost wanted = args_of(agent, *job, *found);
    let mut args: Vec<String> = Vec::new();
    assert(texts(args@) =~= Seq::<Seq<char>>::empty());
    match agent {
        Agent::Claude => push_model(&mut args, job.model),
        Agent::Gemini => push_model(&mut args, job.model),
        Agent::Codex => {
            push_model(&mut args, job.model);
            push_text(&mut args, "--profile");
            push_text(&mut args, "llmman");
        },
        Agent::Pi => {
            let mut name = PI_PROVIDER.to_owned();
            name.append("/");
            name.append(effective_model(job.model));
            push_text(&mut args, "--model");
            push_text(&mut args, name.as_str());
            push_text(&mut args, "--api-key");
            push_text(&mut args, job.api_key);
        },
        Agent::Aider => {
            if !job.model.is_empty() {
                push_text(&mut args, "--model");
                push_both(&mut args, "openai/", job.model);
            }
            let url = v1_url(job.server);
            push_text(&mut args, "--openai-api-base");
            push_text(&mut args, url.as_str());
        },
        Agent::Copilot => {
            push_text(&mut args, "copilot");
            push_model(&mut args, job.model);
        },
        Agent::Agy => {
            push_both(&mut args, "--gemini_dir=", found.config);
        },
        Agent::Qwen => {
            return qwen_args(chosen_model(job.model, job.extra_args), job.extra_args);
        },
        Agent::Dsh => {
            extend_texts(&mut args, found.prefix);
            let own = dsh_args(found.config, job.extra_args);
            extend_texts(&mut args, own.as_slice());
            assert(texts(args@) =~= wanted);
            return args;
        },
        Agent::Grok => {
            return grok_args(job.model, job.extra_args);
        },
        _ => {},
    }
    extend_texts(&mut args, job.extra_args);
    assert(texts(args@) =~= wanted);
    args
}

/// The variables set for an agent.
fn launch_env(agent: Agent, job: &Job, found: &Found) -> (r: Vec<(String, String)>)
    ensures
        string_pairs(r@) == env_of(agent, *job, *found),
{
    let ghost wanted = env_of(agent, *job, *found);
    let v1 = v1_url(job.server);
    let mut env: Vec<(String, String)> = Vec::new();
    assert(string_pairs(env@) =~= Seq::<(Seq<char>, Seq<char>)>::empty());
    match agent {
        Agent::Claude => {
            set(&mut env, "ANTHROPIC_BASE_URL", job.server);
            set(&mut env, "ANTHROPIC_API_KEY", job.api_key);
        },
        Agent::Opencode => {
            let variants = opencode_variants(job.thinking);
            let config = opencode_config(
                job.server,
                effective_model(job.model),
                job.api_key,
                &variants,
                job.vision,
            );
            set(&mut env, "OPENCODE_CONFIG_CONTENT", config.as_str());
        },
        Agent::Codex => set(&mut env, "OPENAI_API_KEY", job.api_key),
        Agent::Cline => set(&mut env, "OLLAMA_HOST", job.server),
        Agent::Kimi => set(&mut env, "OLLAMA_HOST", job.server),
        Agent::Aider => {
            set(&mut env, "OPENAI_API_KEY", job.api_key);
            set(&mut env, "OPENAI_BASE_URL", v1.as_str());
        },
        Agent::Copilot => set(&mut env, "COPILOT_PROVIDER_BASE_URL", v1.as_str()),
        Agent::Gemini => {
            set(&mut env, "GOOGLE_GENAI_BASE_URL", v1.as_str());
            set(&mut env, "GEMINI_BASE_URL", v1.as_str());
            set(&mut env, "GEMINI_API_KEY", job.api_key);
        },
        Agent::Agy => {
            let url = agy_base_url(job.server, job.model);
            set(&mut env, "GOOGLE_GEMINI_BASE_URL", url.as_str());
            set(&mut env, "GEMINI_API_KEY", job.api_key);
            set(&mut env, "GOOGLE_API_KEY", job.api_key);
        },
        Agent::Qwen => {
            set(&mut env, "OPENAI_BASE_URL", v1.as_str());
            set(&mut env, "OPENAI_API_KEY", job.api_key);
            set(&mut env, QWEN_ENV_KEY, job.api_key);
            set(&mut env, "OPENAI_MODEL", chosen_model(job.model, job.extra_args));
            if let Some(path) = found.path {
                set(&mut env, "PATH", path);
            }
        },
        Agent::Dsh => set(&mut env, DSH_API_KEY_ENV, job.api_key),
        Agent::Goose => {
            return set_all(&goose_env(job.model, job.api_key, job.server));
        },
        Agent::Grok => {
            let mut models = v1.clone();
            models.append("/models");
            return set_all(
                &grok_env(
                    chosen_model(job.model, job.extra_args),
                    job.api_key,
                    v1.as_str(),
                    models.as_str(),
                    found.config,
                ),
            );
        },
        _ => {},
    }
    assert(string_pairs(env@) =~= wanted);
    env
}

/// The command an agent is run with. `OLLAMA_HOST` is set first, so that an
/// agent's own variables win over it.
pub open spec fn command_of(agent: Agent, job: Job, found: Found) -> CommandLine {
    CommandLine {
        args: args_of(agent, job, found),
        env: seq![("OLLAMA_HOST"@, job.server@)] + env_of(agent, job, found),
    }
}

/// The command an agent is run with.
pub fn launch_command(agent: Agent, job: &Job, found: &Found) -> (r: Command)
    ensures
        r@ == command_of(agent, *job, *found),
{
    let args = launch_args(agent, job, found);
    let mut env: Vec<(String, String)> = Vec::new();
    set(&mut env, "OLLAMA_HOST", job.server);
    let ghost host = env@;
    assert(string_pairs(host) =~= seq![("OLLAMA_HOST"@, job.server@)]);
    let mut own = launch_env(agent, job, found);
    let ghost rest = own@;
    env.append(&mut own);
    assert(string_pairs(env@) =~= string_pairs(host) + string_pairs(rest));
    Command { args, env }
}

/// What is said before dsh is run by another program, which downloads it.
pub open spec fn notice_of(prefix: Seq<Seq<char>>) -> Option<Seq<char>> {
    if prefix.len() == 0 {
        None
    } else {
        Some("[llmman] dsh is not installed; running "@ + DSH_NPM_PACKAGE@ + " with npx"@)
    }
}

/// What is said before dsh is run by another program, which downloads it.
pub fn download_notice(prefix: &[String]) -> (r: Option<String>)
    ensures
        string_of(r) == notice_of(texts(prefix@)),
{
    if prefix.len() == 0 {
        return None;
    }
    let mut out = "[llmman] dsh is not installed; running ".to_owned();
    out.append(DSH_NPM_PACKAGE);
    out.append(" with npx");
    Some(out)
}

/// What llmman exits with for an agent that ended.
pub open spec fn exit_status(code: Option<i32>) -> i32 {
    match code {
        Some(code) => code,
        None => 1,
    }
}

/// What llmman exits with for an agent that ended with a code, or with none
/// where a signal ended it.
pub fn exit_code(code: Option<i32>) -> (r: i32)
    ensures
        r == exit_status(code),
{
    match code {
        Some(code) => code,
        None => 1,
    }
}

// ---------------------------------------------------------------------------
// Laws
// ---------------------------------------------------------------------------

/// A step stands among steps, before a place.
pub open spec fn happens_before(steps: Seq<Step>, step: Step, end: int) -> bool {
    exists|i: int| 0 <= i < end && #[trigger] steps[i] == step
}

/// Nothing is written or set up for an agent that is not there, codex
/// apart, and nothing for arguments that are refused.
pub proof fn law_nothing_is_written_for_a_missing_agent(agent: Agent, i: int)
    requires
        0 <= i < steps_of(agent).len(),
        steps_of(agent)[i] == Step::Write || steps_of(agent)[i] == Step::Onboard,
    ensures
        agent != Agent::Codex ==> happens_before(steps_of(agent), Step::Find, i),
        agent == Agent::Agy || agent == Agent::Dsh ==> happens_before(
            steps_of(agent),
            Step::Refuse,
            i,
        ),
{
    let steps = steps_of(agent);
    assert(steps[0] == Step::Find || steps[0] == Step::Refuse || steps[0] == Step::Write);
    if agent == Agent::Agy || agent == Agent::Dsh {
        assert(steps[1] == Step::Find || steps[1] == Step::Refuse);
    }
}

/// The agent takes over last, and only an agent that was found, aider
/// apart.
pub proof fn law_the_agent_takes_over_last(agent: Agent)
    ensures
        steps_of(agent).last() == Step::Run,
        forall|i: int| 0 <= i < steps_of(agent).len() - 1 ==> steps_of(agent)[i] != Step::Run,
        agent != Agent::Aider ==> happens_before(
            steps_of(agent),
            Step::Find,
            steps_of(agent).len() - 1,
        ),
{
    let steps = steps_of(agent);
    if agent == Agent::Codex || agent == Agent::Dsh {
        assert(steps[1] == Step::Find);
    } else if agent != Agent::Aider {
        assert(steps[0] == Step::Find);
    }
}

/// The value a variable has once all are set, in their order.
pub open spec fn value_of(
    env: Seq<(Seq<char>, Seq<char>)>,
    name: Seq<char>,
) -> Option<Seq<char>>
    decreases env.len(),
{
    if env.len() == 0 {
        None
    } else if env.last().0 == name {
        Some(env.last().1)
    } else {
        value_of(env.drop_last(), name)
    }
}

/// The caller's arguments reach the agent as they are, at the end of its
/// own.
pub proof fn law_the_callers_arguments_come_last(agent: Agent, job: Job, found: Found)
    ensures
        texts(job.extra_args@).is_suffix_of(command_of(agent, job, found).args),
{
    let args = command_of(agent, job, found).args;
    let extra = texts(job.extra_args@);
    assert(args.len() >= extra.len());
    assert(args.subrange(args.len() - extra.len(), args.len() as int) =~= extra);
}

/// Some variables do not set the daemon's address, or set it to the
/// daemon's.
spec fn leaves_host(env: Seq<(Seq<char>, Seq<char>)>, server: Seq<char>) -> bool {
    forall|i: int|
        0 <= i < env.len() ==> (#[trigger] env[i]).0 != "OLLAMA_HOST"@ || env[i].1 == server
}

proof fn lemma_host_stays(env: Seq<(Seq<char>, Seq<char>)>, server: Seq<char>)
    requires
        leaves_host(env, server),
    ensures
        value_of(seq![("OLLAMA_HOST"@, server)] + env, "OLLAMA_HOST"@) == Some(server),
    decreases env.len(),
{
    let all = seq![("OLLAMA_HOST"@, server)] + env;
    if env.len() == 0 {
        assert(all.last() == ("OLLAMA_HOST"@, server));
    } else {
        assert(all.last() == env[env.len() - 1]);
        assert(all.drop_last() =~= seq![("OLLAMA_HOST"@, server)] + env.drop_last());
        let front = env.drop_last();
        assert forall|i: int| 0 <= i < front.len() implies (#[trigger] front[i]).0
            != "OLLAMA_HOST"@ || front[i].1 == server by {
            assert(front[i] == env[i]);
        }
        lemma_host_stays(front, server);
    }
}

/// Every agent is pointed at the daemon: whatever else is set for it,
/// `OLLAMA_HOST` is the daemon's address.
pub proof fn law_every_agent_is_pointed_at_the_daemon(agent: Agent, job: Job, found: Found)
    ensures
        value_of(command_of(agent, job, found).env, "OLLAMA_HOST"@) == Some(job.server@),
{
    match agent {
        Agent::Claude => law_the_variables_of_claude(job, found),
        Agent::Opencode => law_the_variables_of_opencode(job, found),
        Agent::Codex => law_the_variables_of_codex(job, found),
        Agent::Aider => law_the_variables_of_aider(job, found),
        Agent::Copilot => law_the_variables_of_copilot(job, found),
        Agent::Gemini => law_the_variables_of_gemini(job, found),
        Agent::Agy => law_the_variables_of_agy(job, found),
        Agent::Openclaw => law_the_variables_of_openclaw(job, found),
        Agent::Qwen => law_the_variables_of_qwen(job, found),
        Agent::Dsh => law_the_variables_of_dsh(job, found),
        Agent::Goose => law_the_variables_of_goose(job, found),
        Agent::Grok => law_the_variables_of_grok(job, found),
        _ => lemma_host_stays(env_of(agent, job, found), job.server@),
    }
}

/// Whether an agent has no way to carry a key.
pub open spec fn is_keyless(agent: Agent) -> bool {
    agent == Agent::Cline || agent == Agent::Kimi || agent == Agent::Copilot || agent
        == Agent::Hermes || agent == Agent::Openclaw
}

/// A key is handed to no agent that cannot carry it: such an agent's
/// command is the same whatever the key, and it is refused a provider's
/// model, unless the daemon spends a key of its own for it.
pub proof fn law_an_agent_without_a_key_is_handed_none(
    agent: Agent,
    job: Job,
    other: Job,
    found: Found,
    name: Seq<char>,
    named: Named,
)
    requires
        is_keyless(agent),
        job.model == other.model,
        job.server == other.server,
        job.thinking == other.thinking,
        job.vision == other.vision,
        job.extra_args == other.extra_args,
        agent_of(name, named) == Some(agent),
    ensures
        command_of(agent, job, found) == command_of(agent, other, found),
        listed_under(unsupported(), name) is Some || needs_daemon_key(name),
{
    reveal_with_fuel(listed_under, 8);
}

/// What an agent that yields to the caller reads from its command line is
/// the model its settings and its environment name. The caller's arguments
/// are taken to name a model where they spell the flag for it.
pub proof fn law_the_command_line_names_the_model_in_use(model: Seq<char>, extra: Seq<Seq<char>>)
    requires
        model.len() > 0,
        flag_given(extra, "--model"@, Some("-m"@)) ==> model_forwarded(extra) is Some,
    ensures
        model_forwarded(qwen_command(model_in_use(model, extra), extra)) == Some(
            model_in_use(model, extra),
        ),
        model_forwarded(grok_line(model, extra)) == Some(model_in_use(model, extra)),
{
    let used = model_in_use(model, extra);
    let given = flag_given(extra, "--model"@, Some("-m"@));
    if !given {
        lemma_found_or_given(extra, None);
        lemma_found_or_given(extra, Some(used));
    }
    let rest = if given {
        extra
    } else {
        seq!["--model"@, used] + extra
    };
    if !given {
        assert(rest.skip(2) =~= extra);
        assert(rest[0] == "--model"@ && rest[1] == used);
    }
    assert(last_model(rest, None) == Some(used));
    assert(grok_line(model, extra) =~= rest);
    let all = qwen_command(used, extra);
    if flag_given(extra, "--auth-type"@, Some("--authType"@)) {
        assert(all =~= rest);
    } else {
        lemma_no_model_here();
        assert(all.skip(1).skip(1) =~= rest);
        assert(all[0] == "--auth-type"@ && all.skip(1)[0] == "openai"@);
        assert(last_model(all, None) == last_model(all.skip(1), None));
        assert(last_model(all.skip(1), None) == last_model(all.skip(1).skip(1), None));
    }
}

/// The words of the other flag name no model.
proof fn lemma_no_model_here()
    ensures
        "--auth-type"@ != "--model"@,
        "--auth-type"@ != "-m"@,
        "openai"@ != "--model"@,
        "openai"@ != "-m"@,
        joined_model("--auth-type"@) is None,
        joined_model("openai"@) is None,
{
    reveal_strlit("--auth-type");
    reveal_strlit("openai");
    reveal_strlit("--model");
    reveal_strlit("--model=");
    reveal_strlit("-m");
    reveal_strlit("-m=");
    let auth = "--auth-type"@;
    let word = "openai"@;
    assert(auth.len() == 11 && auth[1] == '-' && auth[2] == 'a');
    assert(word.len() == 6 && word[0] == 'o');
    assert("--model"@.len() == 7);
    assert("-m"@.len() == 2);
    assert("--model="@.len() == 8 && "--model="@[2] == 'm' && "--model="@[0] == '-');
    assert("-m="@.len() == 3 && "-m="@[1] == 'm' && "-m="@[0] == '-');
    assert(auth.subrange(0, 8)[2] == auth[2]);
    assert(auth.subrange(0, 3)[1] == auth[1]);
    assert(word.subrange(0, 3)[0] == word[0]);
}

/// What Anthropic's agent is told: the daemon's address and the key.
pub proof fn law_the_variables_of_claude(job: Job, found: Found)
    ensures
        ({
            let env = command_of(Agent::Claude, job, found).env;
            &&& value_of(env, "OLLAMA_HOST"@) == Some(job.server@)
            &&& value_of(env, "ANTHROPIC_BASE_URL"@) == Some(job.server@)
            &&& value_of(env, "ANTHROPIC_API_KEY"@) == Some(job.api_key@)
            &&& forall|i: int|
                0 <= i < env.len() ==> ((#[trigger] env[i]).0 == "OLLAMA_HOST"@
                    || env[i].0 == "ANTHROPIC_BASE_URL"@
                    || env[i].0 == "ANTHROPIC_API_KEY"@)
        }),
{
    reveal_strlit("OLLAMA_HOST");
    reveal_strlit("ANTHROPIC_BASE_URL");
    reveal_strlit("ANTHROPIC_API_KEY");
    assert("OLLAMA_HOST"@.len() == 11);
    assert("ANTHROPIC_BASE_URL"@.len() == 18);
    assert("ANTHROPIC_API_KEY"@.len() == 17);
    let env = command_of(Agent::Claude, job, found).env;
    assert(env[0].0 == "OLLAMA_HOST"@);
    assert(env[1].0 == "ANTHROPIC_BASE_URL"@);
    assert(env[2].0 == "ANTHROPIC_API_KEY"@);
    lemma_value_at(env, 0);
    lemma_value_at(env, 1);
    lemma_value_at(env, 2);
}

/// What opencode is told: its configuration, made of the daemon, the model,
/// the key, the model's choices and its vision.
pub proof fn law_the_variables_of_opencode(job: Job, found: Found)
    ensures
        ({
            let env = command_of(Agent::Opencode, job, found).env;
            let name = if job.model@.len() == 0 {
                "default"@
            } else {
                job.model@
            };
            let choices = if job.thinking is Some {
                texts(job.thinking->0.choices@)
            } else {
                seq!["none"@, "low"@, "medium"@, "high"@]
            };
            &&& value_of(env, "OLLAMA_HOST"@) == Some(job.server@)
            &&& value_of(env, "OPENCODE_CONFIG_CONTENT"@) == Some(
                config_text(job.server@, name, job.api_key@, variants_of(choices), job.vision),
            )
            &&& forall|i: int|
                0 <= i < env.len() ==> ((#[trigger] env[i]).0 == "OLLAMA_HOST"@
                    || env[i].0 == "OPENCODE_CONFIG_CONTENT"@)
        }),
{
    reveal_strlit("OLLAMA_HOST");
    reveal_strlit("OPENCODE_CONFIG_CONTENT");
    assert("OLLAMA_HOST"@.len() == 11);
    assert("OPENCODE_CONFIG_CONTENT"@.len() == 23);
    let env = command_of(Agent::Opencode, job, found).env;
    assert(env[0].0 == "OLLAMA_HOST"@);
    assert(env[1].0 == "OPENCODE_CONFIG_CONTENT"@);
    lemma_value_at(env, 0);
    lemma_value_at(env, 1);
}

/// What codex is told: the key.
pub proof fn law_the_variables_of_codex(job: Job, found: Found)
    ensures
        ({
            let env = command_of(Agent::Codex, job, found).env;
            &&& value_of(env, "OLLAMA_HOST"@) == Some(job.server@)
            &&& value_of(env, "OPENAI_API_KEY"@) == Some(job.api_key@)
            &&& forall|i: int|
                0 <= i < env.len() ==> ((#[trigger] env[i]).0 == "OLLAMA_HOST"@
                    || env[i].0 == "OPENAI_API_KEY"@)
        }),
{
    reveal_strlit("OLLAMA_HOST");
    reveal_strlit("OPENAI_API_KEY");
    assert("OLLAMA_HOST"@.len() == 11);
    assert("OPENAI_API_KEY"@.len() == 14);
    let env = command_of(Agent::Codex, job, found).env;
    assert(env[0].0 == "OLLAMA_HOST"@);
    assert(env[1].0 == "OPENAI_API_KEY"@);
    lemma_value_at(env, 0);
    lemma_value_at(env, 1);
}

/// pi is told nothing in its environment.
pub proof fn law_the_variables_of_pi(job: Job, found: Found)
    ensures
        ({
            let env = command_of(Agent::Pi, job, found).env;
            &&& value_of(env, "OLLAMA_HOST"@) == Some(job.server@)
            &&& forall|i: int| 0 <= i < env.len() ==> ((#[trigger] env[i]).0 == "OLLAMA_HOST"@)
        }),
{
    reveal_strlit("OLLAMA_HOST");
    assert("OLLAMA_HOST"@.len() == 11);
    let env = command_of(Agent::Pi, job, found).env;
    assert(env[0].0 == "OLLAMA_HOST"@);
    lemma_value_at(env, 0);
}

/// Cline is told where the daemon is.
pub proof fn law_the_variables_of_cline(job: Job, found: Found)
    ensures
        ({
            let env = command_of(Agent::Cline, job, found).env;
            &&& value_of(env, "OLLAMA_HOST"@) == Some(job.server@)
            &&& forall|i: int| 0 <= i < env.len() ==> ((#[trigger] env[i]).0 == "OLLAMA_HOST"@)
        }),
{
    reveal_strlit("OLLAMA_HOST");
    assert("OLLAMA_HOST"@.len() == 11);
    let env = command_of(Agent::Cline, job, found).env;
    assert(env[0].0 == "OLLAMA_HOST"@);
    assert(env[1].0 == "OLLAMA_HOST"@);
    lemma_value_at(env, 1);
}

/// Kimi is told where the daemon is.
pub proof fn law_the_variables_of_kimi(job: Job, found: Found)
    ensures
        ({
            let env = command_of(Agent::Kimi, job, found).env;
            &&& value_of(env, "OLLAMA_HOST"@) == Some(job.server@)
            &&& forall|i: int| 0 <= i < env.len() ==> ((#[trigger] env[i]).0 == "OLLAMA_HOST"@)
        }),
{
    reveal_strlit("OLLAMA_HOST");
    assert("OLLAMA_HOST"@.len() == 11);
    let env = command_of(Agent::Kimi, job, found).env;
    assert(env[0].0 == "OLLAMA_HOST"@);
    assert(env[1].0 == "OLLAMA_HOST"@);
    lemma_value_at(env, 1);
}

/// What aider is told: the key, and the daemon's OpenAI-compatible address.
pub proof fn law_the_variables_of_aider(job: Job, found: Found)
    ensures
        ({
            let env = command_of(Agent::Aider, job, found).env;
            &&& value_of(env, "OLLAMA_HOST"@) == Some(job.server@)
            &&& value_of(env, "OPENAI_API_KEY"@) == Some(job.api_key@)
            &&& value_of(env, "OPENAI_BASE_URL"@) == Some(job.server@ + "/v1"@)
            &&& forall|i: int|
                0 <= i < env.len() ==> ((#[trigger] env[i]).0 == "OLLAMA_HOST"@
                    || env[i].0 == "OPENAI_API_KEY"@
                    || env[i].0 == "OPENAI_BASE_URL"@)
        }),
{
    reveal_strlit("OLLAMA_HOST");
    reveal_strlit("OPENAI_API_KEY");
    reveal_strlit("OPENAI_BASE_URL");
    assert("OLLAMA_HOST"@.len() == 11);
    assert("OPENAI_API_KEY"@.len() == 14);
    assert("OPENAI_BASE_URL"@.len() == 15);
    let env = command_of(Agent::Aider, job, found).env;
    assert(env[0].0 == "OLLAMA_HOST"@);
    assert(env[1].0 == "OPENAI_API_KEY"@);
    assert(env[2].0 == "OPENAI_BASE_URL"@);
    lemma_value_at(env, 0);
    lemma_value_at(env, 1);
    lemma_value_at(env, 2);
}

/// Copilot is told the daemon's OpenAI-compatible address, and no key.
pub proof fn law_the_variables_of_copilot(job: Job, found: Found)
    ensures
        ({
            let env = command_of(Agent::Copilot, job, found).env;
            &&& value_of(env, "OLLAMA_HOST"@) == Some(job.server@)
            &&& value_of(env, "COPILOT_PROVIDER_BASE_URL"@) == Some(job.server@ + "/v1"@)
            &&& forall|i: int|
                0 <= i < env.len() ==> ((#[trigger] env[i]).0 == "OLLAMA_HOST"@
                    || env[i].0 == "COPILOT_PROVIDER_BASE_URL"@)
        }),
{
    reveal_strlit("OLLAMA_HOST");
    reveal_strlit("COPILOT_PROVIDER_BASE_URL");
    assert("OLLAMA_HOST"@.len() == 11);
    assert("COPILOT_PROVIDER_BASE_URL"@.len() == 25);
    let env = command_of(Agent::Copilot, job, found).env;
    assert(env[0].0 == "OLLAMA_HOST"@);
    assert(env[1].0 == "COPILOT_PROVIDER_BASE_URL"@);
    lemma_value_at(env, 0);
    lemma_value_at(env, 1);
}

/// What Gemini is told: the daemon's address, under both names, and the key.
pub proof fn law_the_variables_of_gemini(job: Job, found: Found)
    ensures
        ({
            let env = command_of(Agent::Gemini, job, found).env;
            &&& value_of(env, "OLLAMA_HOST"@) == Some(job.server@)
            &&& value_of(env, "GOOGLE_GENAI_BASE_URL"@) == Some(job.server@ + "/v1"@)
            &&& value_of(env, "GEMINI_BASE_URL"@) == Some(job.server@ + "/v1"@)
            &&& value_of(env, "GEMINI_API_KEY"@) == Some(job.api_key@)
            &&& forall|i: int|
                0 <= i < env.len() ==> ((#[trigger] env[i]).0 == "OLLAMA_HOST"@
                    || env[i].0 == "GOOGLE_GENAI_BASE_URL"@
                    || env[i].0 == "GEMINI_BASE_URL"@
                    || env[i].0 == "GEMINI_API_KEY"@)
        }),
{
    reveal_strlit("OLLAMA_HOST");
    reveal_strlit("GOOGLE_GENAI_BASE_URL");
    reveal_strlit("GEMINI_BASE_URL");
    reveal_strlit("GEMINI_API_KEY");
    assert("OLLAMA_HOST"@.len() == 11);
    assert("GOOGLE_GENAI_BASE_URL"@.len() == 21);
    assert("GEMINI_BASE_URL"@.len() == 15);
    assert("GEMINI_API_KEY"@.len() == 14);
    let env = command_of(Agent::Gemini, job, found).env;
    assert(env[0].0 == "OLLAMA_HOST"@);
    assert(env[1].0 == "GOOGLE_GENAI_BASE_URL"@);
    assert(env[2].0 == "GEMINI_BASE_URL"@);
    assert(env[3].0 == "GEMINI_API_KEY"@);
    lemma_value_at(env, 0);
    lemma_value_at(env, 1);
    lemma_value_at(env, 2);
    lemma_value_at(env, 3);
}

/// What AGY is told: the address that carries the model, and the key under
/// each name it may look for.
pub proof fn law_the_variables_of_agy(job: Job, found: Found)
    ensures
        ({
            let env = command_of(Agent::Agy, job, found).env;
            &&& value_of(env, "OLLAMA_HOST"@) == Some(job.server@)
            &&& value_of(env, "GOOGLE_GEMINI_BASE_URL"@) == Some(
                job.server@ + "/gemini/"@ + base64_url(encode_utf8(job.model@)),
            )
            &&& value_of(env, "GEMINI_API_KEY"@) == Some(job.api_key@)
            &&& value_of(env, "GOOGLE_API_KEY"@) == Some(job.api_key@)
            &&& forall|i: int|
                0 <= i < env.len() ==> ((#[trigger] env[i]).0 == "OLLAMA_HOST"@
                    || env[i].0 == "GOOGLE_GEMINI_BASE_URL"@
                    || env[i].0 == "GEMINI_API_KEY"@
                    || env[i].0 == "GOOGLE_API_KEY"@)
        }),
{
    reveal_strlit("OLLAMA_HOST");
    reveal_strlit("GOOGLE_GEMINI_BASE_URL");
    reveal_strlit("GEMINI_API_KEY");
    reveal_strlit("GOOGLE_API_KEY");
    assert("OLLAMA_HOST"@.len() == 11);
    assert("GOOGLE_GEMINI_BASE_URL"@.len() == 22);
    assert("GEMINI_API_KEY"@.len() == 14);
    assert("GOOGLE_API_KEY"@.len() == 14);
    assert("GEMINI_API_KEY"@[1] == 'E' && "GOOGLE_API_KEY"@[1] == 'O');
    let env = command_of(Agent::Agy, job, found).env;
    assert(env[0].0 == "OLLAMA_HOST"@);
    assert(env[1].0 == "GOOGLE_GEMINI_BASE_URL"@);
    assert(env[2].0 == "GEMINI_API_KEY"@);
    assert(env[3].0 == "GOOGLE_API_KEY"@);
    lemma_value_at(env, 0);
    lemma_value_at(env, 1);
    lemma_value_at(env, 2);
    lemma_value_at(env, 3);
}

/// Hermes is told nothing in its environment.
pub proof fn law_the_variables_of_hermes(job: Job, found: Found)
    ensures
        ({
            let env = command_of(Agent::Hermes, job, found).env;
            &&& value_of(env, "OLLAMA_HOST"@) == Some(job.server@)
            &&& forall|i: int| 0 <= i < env.len() ==> ((#[trigger] env[i]).0 == "OLLAMA_HOST"@)
        }),
{
    reveal_strlit("OLLAMA_HOST");
    assert("OLLAMA_HOST"@.len() == 11);
    let env = command_of(Agent::Hermes, job, found).env;
    assert(env[0].0 == "OLLAMA_HOST"@);
    lemma_value_at(env, 0);
}

/// OpenClaw is told nothing in its environment.
pub proof fn law_the_variables_of_openclaw(job: Job, found: Found)
    ensures
        ({
            let env = command_of(Agent::Openclaw, job, found).env;
            &&& value_of(env, "OLLAMA_HOST"@) == Some(job.server@)
            &&& forall|i: int| 0 <= i < env.len() ==> ((#[trigger] env[i]).0 == "OLLAMA_HOST"@)
        }),
{
    reveal_strlit("OLLAMA_HOST");
    assert("OLLAMA_HOST"@.len() == 11);
    let env = command_of(Agent::Openclaw, job, found).env;
    assert(env[0].0 == "OLLAMA_HOST"@);
    lemma_value_at(env, 0);
}

/// What Qwen Code is told: the daemon's address, the key under both names it
/// is looked for, the model in use, and the `PATH` it needs, if any.
pub proof fn law_the_variables_of_qwen(job: Job, found: Found)
    ensures
        ({
            let env = command_of(Agent::Qwen, job, found).env;
            let extra = texts(job.extra_args@);
            let used = if model_forwarded(extra) is Some {
                model_forwarded(extra)->0
            } else {
                job.model@
            };
            &&& value_of(env, "OLLAMA_HOST"@) == Some(job.server@)
            &&& value_of(env, "OPENAI_BASE_URL"@) == Some(job.server@ + "/v1"@)
            &&& value_of(env, "OPENAI_API_KEY"@) == Some(job.api_key@)
            &&& value_of(env, "LLMMAN_API_KEY"@) == Some(job.api_key@)
            &&& value_of(env, "OPENAI_MODEL"@) == Some(used)
            &&& value_of(env, "PATH"@) == text_of(found.path)
            &&& forall|i: int|
                0 <= i < env.len() ==> ((#[trigger] env[i]).0 == "OLLAMA_HOST"@
                    || env[i].0 == "OPENAI_BASE_URL"@
                    || env[i].0 == "OPENAI_API_KEY"@
                    || env[i].0 == "LLMMAN_API_KEY"@
                    || env[i].0 == "OPENAI_MODEL"@
                    || env[i].0 == "PATH"@)
        }),
{
    reveal_strlit("OLLAMA_HOST");
    reveal_strlit("OPENAI_BASE_URL");
    reveal_strlit("OPENAI_API_KEY");
    reveal_strlit("LLMMAN_API_KEY");
    reveal_strlit("OPENAI_MODEL");
    reveal_strlit("PATH");
    assert("OLLAMA_HOST"@.len() == 11);
    assert("OPENAI_BASE_URL"@.len() == 15);
    assert("OPENAI_API_KEY"@.len() == 14);
    assert("LLMMAN_API_KEY"@.len() == 14);
    assert("OPENAI_MODEL"@.len() == 12);
    assert("PATH"@.len() == 4);
    assert("OPENAI_API_KEY"@[0] == 'O' && "LLMMAN_API_KEY"@[0] == 'L');
    let env = command_of(Agent::Qwen, job, found).env;
    assert(env[0].0 == "OLLAMA_HOST"@);
    assert(env[1].0 == "OPENAI_BASE_URL"@);
    assert(env[2].0 == "OPENAI_API_KEY"@);
    assert(env[3].0 == "LLMMAN_API_KEY"@);
    assert(env[4].0 == "OPENAI_MODEL"@);
    lemma_value_at(env, 0);
    lemma_value_at(env, 1);
    lemma_value_at(env, 2);
    lemma_value_at(env, 3);
    lemma_value_at(env, 4);
    if found.path is Some {
        assert(env[5].0 == "PATH"@);
        lemma_value_at(env, 5);
    } else {
        lemma_no_value(env, "PATH"@);
    }
}

/// dsh is told the key, under the name its settings give for it.
pub proof fn law_the_variables_of_dsh(job: Job, found: Found)
    ensures
        ({
            let env = command_of(Agent::Dsh, job, found).env;
            &&& value_of(env, "OLLAMA_HOST"@) == Some(job.server@)
            &&& value_of(env, "LLMMAN_API_KEY"@) == Some(job.api_key@)
            &&& forall|i: int|
                0 <= i < env.len() ==> ((#[trigger] env[i]).0 == "OLLAMA_HOST"@
                    || env[i].0 == "LLMMAN_API_KEY"@)
        }),
{
    reveal_strlit("OLLAMA_HOST");
    reveal_strlit("LLMMAN_API_KEY");
    assert("OLLAMA_HOST"@.len() == 11);
    assert("LLMMAN_API_KEY"@.len() == 14);
    let env = command_of(Agent::Dsh, job, found).env;
    assert(env[0].0 == "OLLAMA_HOST"@);
    assert(env[1].0 == "LLMMAN_API_KEY"@);
    lemma_value_at(env, 0);
    lemma_value_at(env, 1);
}

/// What goose is told: the daemon, the key, and the model unless there is none.
pub proof fn law_the_variables_of_goose(job: Job, found: Found)
    ensures
        ({
            let env = command_of(Agent::Goose, job, found).env;
            &&& value_of(env, "OLLAMA_HOST"@) == Some(job.server@)
            &&& value_of(env, "GOOSE_PROVIDER"@) == Some("openai"@)
            &&& value_of(env, "OPENAI_API_KEY"@) == Some(job.api_key@)
            &&& value_of(env, "OPENAI_HOST"@) == Some(job.server@)
            &&& value_of(env, "OPENAI_BASE_PATH"@) == Some("v1/chat/completions"@)
            &&& value_of(env, "GOOSE_MODEL"@) == if job.model@.len() > 0 {
                Some(job.model@)
            } else {
                None
            }
            &&& forall|i: int|
                0 <= i < env.len() ==> ((#[trigger] env[i]).0 == "OLLAMA_HOST"@
                    || env[i].0 == "GOOSE_PROVIDER"@
                    || env[i].0 == "OPENAI_API_KEY"@
                    || env[i].0 == "OPENAI_HOST"@
                    || env[i].0 == "OPENAI_BASE_PATH"@
                    || env[i].0 == "GOOSE_MODEL"@)
        }),
{
    reveal_strlit("OLLAMA_HOST");
    reveal_strlit("GOOSE_PROVIDER");
    reveal_strlit("OPENAI_API_KEY");
    reveal_strlit("OPENAI_HOST");
    reveal_strlit("OPENAI_BASE_PATH");
    reveal_strlit("GOOSE_MODEL");
    assert("OLLAMA_HOST"@.len() == 11);
    assert("GOOSE_PROVIDER"@.len() == 14);
    assert("OPENAI_API_KEY"@.len() == 14);
    assert("OPENAI_HOST"@.len() == 11);
    assert("OPENAI_BASE_PATH"@.len() == 16);
    assert("GOOSE_MODEL"@.len() == 11);
    assert("OLLAMA_HOST"@[1] == 'L' && "OPENAI_HOST"@[1] == 'P');
    assert("OLLAMA_HOST"@[0] == 'O' && "GOOSE_MODEL"@[0] == 'G');
    assert("GOOSE_PROVIDER"@[0] == 'G' && "OPENAI_API_KEY"@[0] == 'O');
    assert("OPENAI_HOST"@[0] == 'O' && "GOOSE_MODEL"@[0] == 'G');
    let env = command_of(Agent::Goose, job, found).env;
    assert(env[0].0 == "OLLAMA_HOST"@);
    assert(env[1].0 == "GOOSE_PROVIDER"@);
    assert(env[2].0 == "OPENAI_API_KEY"@);
    assert(env[3].0 == "OPENAI_HOST"@);
    assert(env[4].0 == "OPENAI_BASE_PATH"@);
    lemma_value_at(env, 0);
    lemma_value_at(env, 1);
    lemma_value_at(env, 2);
    lemma_value_at(env, 3);
    lemma_value_at(env, 4);
    if job.model@.len() > 0 {
        assert(env[5].0 == "GOOSE_MODEL"@);
        lemma_value_at(env, 5);
    } else {
        lemma_no_value(env, "GOOSE_MODEL"@);
    }
}

/// What Grok is told: its directory, the daemon's address and model list, the
/// model in use for every purpose, and the key under both names it is
/// looked for.
pub proof fn law_the_variables_of_grok(job: Job, found: Found)
    ensures
        ({
            let env = command_of(Agent::Grok, job, found).env;
            let extra = texts(job.extra_args@);
            let used = if model_forwarded(extra) is Some {
                model_forwarded(extra)->0
            } else {
                job.model@
            };
            &&& value_of(env, "OLLAMA_HOST"@) == Some(job.server@)
            &&& value_of(env, "GROK_HOME"@) == Some(found.config@)
            &&& value_of(env, "GROK_MODELS_BASE_URL"@) == Some(job.server@ + "/v1"@)
            &&& value_of(env, "GROK_MODELS_LIST_URL"@) == Some(job.server@ + "/v1"@ + "/models"@)
            &&& value_of(env, "GROK_DEFAULT_MODEL"@) == Some(used)
            &&& value_of(env, "GROK_WEB_SEARCH_MODEL"@) == Some(used)
            &&& value_of(env, "GROK_SESSION_SUMMARY_MODEL"@) == Some(used)
            &&& value_of(env, "GROK_IMAGE_DESCRIPTION_MODEL"@) == Some(used)
            &&& value_of(env, "GROK_PROMPT_SUGGESTIONS_MODEL"@) == Some(used)
            &&& value_of(env, "LLMMAN_GROK_API_KEY"@) == Some(job.api_key@)
            &&& value_of(env, "XAI_API_KEY"@) == Some(job.api_key@)
            &&& forall|i: int|
                0 <= i < env.len() ==> ((#[trigger] env[i]).0 == "OLLAMA_HOST"@
                    || env[i].0 == "GROK_HOME"@
                    || env[i].0 == "GROK_MODELS_BASE_URL"@
                    || env[i].0 == "GROK_MODELS_LIST_URL"@
                    || env[i].0 == "GROK_DEFAULT_MODEL"@
                    || env[i].0 == "GROK_WEB_SEARCH_MODEL"@
                    || env[i].0 == "GROK_SESSION_SUMMARY_MODEL"@
                    || env[i].0 == "GROK_IMAGE_DESCRIPTION_MODEL"@
                    || env[i].0 == "GROK_PROMPT_SUGGESTIONS_MODEL"@
                    || env[i].0 == "LLMMAN_GROK_API_KEY"@
                    || env[i].0 == "XAI_API_KEY"@)
        }),
{
    reveal_strlit("OLLAMA_HOST");
    reveal_strlit("GROK_HOME");
    reveal_strlit("GROK_MODELS_BASE_URL");
    reveal_strlit("GROK_MODELS_LIST_URL");
    reveal_strlit("GROK_DEFAULT_MODEL");
    reveal_strlit("GROK_WEB_SEARCH_MODEL");
    reveal_strlit("GROK_SESSION_SUMMARY_MODEL");
    reveal_strlit("GROK_IMAGE_DESCRIPTION_MODEL");
    reveal_strlit("GROK_PROMPT_SUGGESTIONS_MODEL");
    reveal_strlit("LLMMAN_GROK_API_KEY");
    reveal_strlit("XAI_API_KEY");
    assert("OLLAMA_HOST"@.len() == 11);
    assert("GROK_HOME"@.len() == 9);
    assert("GROK_MODELS_BASE_URL"@.len() == 20);
    assert("GROK_MODELS_LIST_URL"@.len() == 20);
    assert("GROK_DEFAULT_MODEL"@.len() == 18);
    assert("GROK_WEB_SEARCH_MODEL"@.len() == 21);
    assert("GROK_SESSION_SUMMARY_MODEL"@.len() == 26);
    assert("GROK_IMAGE_DESCRIPTION_MODEL"@.len() == 28);
    assert("GROK_PROMPT_SUGGESTIONS_MODEL"@.len() == 29);
    assert("LLMMAN_GROK_API_KEY"@.len() == 19);
    assert("XAI_API_KEY"@.len() == 11);
    assert("OLLAMA_HOST"@[0] == 'O' && "XAI_API_KEY"@[0] == 'X');
    assert("GROK_MODELS_BASE_URL"@[12] == 'B' && "GROK_MODELS_LIST_URL"@[12] == 'L');
    let env = command_of(Agent::Grok, job, found).env;
    assert(env[0].0 == "OLLAMA_HOST"@);
    assert(env[1].0 == "GROK_HOME"@);
    assert(env[2].0 == "GROK_MODELS_BASE_URL"@);
    assert(env[3].0 == "GROK_MODELS_LIST_URL"@);
    assert(env[4].0 == "GROK_DEFAULT_MODEL"@);
    assert(env[5].0 == "GROK_WEB_SEARCH_MODEL"@);
    assert(env[6].0 == "GROK_SESSION_SUMMARY_MODEL"@);
    assert(env[7].0 == "GROK_IMAGE_DESCRIPTION_MODEL"@);
    assert(env[8].0 == "GROK_PROMPT_SUGGESTIONS_MODEL"@);
    assert(env[9].0 == "LLMMAN_GROK_API_KEY"@);
    assert(env[10].0 == "XAI_API_KEY"@);
    lemma_value_at(env, 0);
    lemma_value_at(env, 1);
    lemma_value_at(env, 2);
    lemma_value_at(env, 3);
    lemma_value_at(env, 4);
    lemma_value_at(env, 5);
    lemma_value_at(env, 6);
    lemma_value_at(env, 7);
    lemma_value_at(env, 8);
    lemma_value_at(env, 9);
    lemma_value_at(env, 10);
}

/// A variable has the value it was set to last.
proof fn lemma_value_at(env: Seq<(Seq<char>, Seq<char>)>, i: int)
    requires
        0 <= i < env.len(),
        forall|k: int| i < k < env.len() ==> (#[trigger] env[k]).0 != env[i].0,
    ensures
        value_of(env, env[i].0) == Some(env[i].1),
    decreases env.len(),
{
    let last = env.len() - 1;
    if i < last {
        assert(env[last].0 != env[i].0);
        let front = env.drop_last();
        assert forall|k: int| i < k < front.len() implies (#[trigger] front[k]).0 != front[i].0 by {
            assert(env[k].0 != env[i].0);
        }
        lemma_value_at(front, i);
    }
}

/// A variable that is not set has no value.
proof fn lemma_no_value(env: Seq<(Seq<char>, Seq<char>)>, name: Seq<char>)
    requires
        forall|k: int| 0 <= k < env.len() ==> (#[trigger] env[k]).0 != name,
    ensures
        value_of(env, name) is None,
    decreases env.len(),
{
    if env.len() > 0 {
        let front = env.drop_last();
        assert(env[env.len() - 1].0 != name);
        assert forall|k: int| 0 <= k < front.len() implies (#[trigger] front[k]).0 != name by {
            assert(env[k].0 != name);
        }
        lemma_no_value(front, name);
    }
}

/// The model an agent reads off its command is the model of the job as it
/// is, whatever it is called, where the caller's arguments give no model.
pub proof fn law_the_command_line_names_the_model(agent: Agent, job: Job, found: Found)
    requires
        agent == Agent::Claude || agent == Agent::Codex || agent == Agent::Gemini || agent
            == Agent::Copilot,
        job.model@.len() > 0,
        !flag_given(texts(job.extra_args@), "--model"@, Some("-m"@)),
    ensures
        model_forwarded(command_of(agent, job, found).args) == Some(job.model@),
{
    let extra = texts(job.extra_args@);
    let args = command_of(agent, job, found).args;
    let none = Seq::<Seq<char>>::empty();
    lemma_other_words_name_no_model();
    if agent == Agent::Claude || agent == Agent::Gemini {
        law_a_model_in_the_arguments(none, job.model@, extra);
        assert(args =~= none + seq!["--model"@, job.model@] + extra);
    } else if agent == Agent::Codex {
        let tail = seq!["--profile"@, "llmman"@] + extra;
        assert forall|i: int| 0 <= i < tail.len() implies !spells_either(
            #[trigger] tail[i],
            "--model"@,
            Some("-m"@),
        ) by {
            if i >= 2 {
                assert(tail[i] == extra[i - 2]);
            }
        }
        law_a_model_in_the_arguments(none, job.model@, tail);
        assert(args =~= none + seq!["--model"@, job.model@] + tail);
    } else {
        let head = seq!["copilot"@];
        assert(!flag_given(head, "--model"@, Some("-m"@)));
        law_a_model_in_the_arguments(head, job.model@, extra);
        assert(args =~= head + seq!["--model"@, job.model@] + extra);
    }
}

/// The other words llmman puts on a command line name no model.
proof fn lemma_other_words_name_no_model()
    ensures
        !spells_either("--profile"@, "--model"@, Some("-m"@)),
        !spells_either("llmman"@, "--model"@, Some("-m"@)),
        !spells_either("copilot"@, "--model"@, Some("-m"@)),
{
    reveal_strlit("--profile");
    reveal_strlit("llmman");
    reveal_strlit("copilot");
    reveal_strlit("--model");
    reveal_strlit("-m");
    assert("--profile"@.len() == 9 && "--profile"@[1] == '-' && "--profile"@[2] == 'p');
    assert("llmman"@.len() == 6 && "llmman"@[0] == 'l');
    assert("copilot"@.len() == 7 && "copilot"@[0] == 'c');
    assert("--model"@.len() == 7 && "--model"@[0] == '-' && "--model"@[2] == 'm');
    assert("-m"@.len() == 2 && "-m"@[0] == '-' && "-m"@[1] == 'm');
    lemma_no_spelling("--profile"@, "--model"@, 2);
    lemma_no_spelling("--profile"@, "-m"@, 1);
    lemma_no_spelling("llmman"@, "--model"@, 0);
    lemma_no_spelling("llmman"@, "-m"@, 0);
    lemma_no_spelling("copilot"@, "--model"@, 0);
    lemma_no_spelling("copilot"@, "-m"@, 0);
}

/// A word that differs from a flag inside of it does not spell it.
proof fn lemma_no_spelling(arg: Seq<char>, flag: Seq<char>, i: int)
    requires
        0 <= i < flag.len(),
        i < arg.len(),
        arg[i] != flag[i],
    ensures
        !spells(arg, flag),
{
    let joined = flag.push('=');
    assert(joined[i] == flag[i]);
    if joined.is_prefix_of(arg) {
        assert(arg.subrange(0, joined.len() as int)[i] == arg[i]);
    }
}

/// What stands in front of the caller's arguments: the model, and what else
/// the agent takes on its command line. An agent that takes nothing there
/// gets the caller's arguments alone.
pub proof fn law_what_stands_in_front_of_the_callers_arguments(
    agent: Agent,
    job: Job,
    found: Found,
)
    ensures
        ({
            let args = command_of(agent, job, found).args;
            let extra = texts(job.extra_args@);
            let model = job.model@;
            match agent {
                Agent::Opencode | Agent::Cline | Agent::Kimi | Agent::Hermes | Agent::Openclaw
                | Agent::Goose => args == extra,
                Agent::Claude | Agent::Gemini => args == if model.len() == 0 {
                    extra
                } else {
                    seq!["--model"@, model] + extra
                },
                Agent::Codex => args == if model.len() == 0 {
                    seq!["--profile"@, "llmman"@] + extra
                } else {
                    seq!["--model"@, model, "--profile"@, "llmman"@] + extra
                },
                Agent::Copilot => args == if model.len() == 0 {
                    seq!["copilot"@] + extra
                } else {
                    seq!["copilot"@, "--model"@, model] + extra
                },
                Agent::Aider => args == if model.len() == 0 {
                    seq!["--openai-api-base"@, job.server@ + "/v1"@] + extra
                } else {
                    seq![
                        "--model"@,
                        "openai/"@ + model,
                        "--openai-api-base"@,
                        job.server@ + "/v1"@,
                    ] + extra
                },
                Agent::Pi => args == seq![
                    "--model"@,
                    "llmman"@ + "/"@ + if model.len() == 0 {
                        "default"@
                    } else {
                        model
                    },
                    "--api-key"@,
                    job.api_key@,
                ] + extra,
                Agent::Agy => args == seq!["--gemini_dir="@ + found.config@] + extra,
                Agent::Qwen => {
                    let used = if model_forwarded(extra) is Some {
                        model_forwarded(extra)->0
                    } else {
                        model
                    };
                    let typed = flag_given(extra, "--auth-type"@, Some("--authType"@));
                    let named = flag_given(extra, "--model"@, Some("-m"@));
                    &&& !typed && !named ==> args == seq![
                        "--auth-type"@,
                        "openai"@,
                        "--model"@,
                        used,
                    ] + extra
                    &&& !typed && named ==> args == seq!["--auth-type"@, "openai"@] + extra
                    &&& typed && !named ==> args == seq!["--model"@, used] + extra
                    &&& typed && named ==> args == extra
                },
                Agent::Grok => args == if flag_given(extra, "--model"@, Some("-m"@)) {
                    extra
                } else {
                    seq!["--model"@, model] + extra
                },
                Agent::Dsh => {
                    let prefix = texts(found.prefix@);
                    args == if flag_given(launcher_args(extra), "--profile"@, None) {
                        prefix + seq!["--patch"@, found.config@] + extra
                    } else {
                        prefix + seq!["web"@, "--patch"@, found.config@] + extra
                    }
                },
            }
        }),
{
    let args = command_of(agent, job, found).args;
    let extra = texts(job.extra_args@);
    let model = job.model@;
    match agent {
        Agent::Codex => {
            assert(args =~= if model.len() == 0 {
                seq!["--profile"@, "llmman"@] + extra
            } else {
                seq!["--model"@, model, "--profile"@, "llmman"@] + extra
            });
        },
        Agent::Claude | Agent::Gemini => {
            assert(args =~= if model.len() == 0 {
                extra
            } else {
                seq!["--model"@, model] + extra
            });
        },
        Agent::Copilot => {
            assert(args =~= if model.len() == 0 {
                seq!["copilot"@] + extra
            } else {
                seq!["copilot"@, "--model"@, model] + extra
            });
        },
        Agent::Aider => {
            assert(args =~= if model.len() == 0 {
                seq!["--openai-api-base"@, job.server@ + "/v1"@] + extra
            } else {
                seq!["--model"@, "openai/"@ + model, "--openai-api-base"@, job.server@ + "/v1"@]
                    + extra
            });
        },
        Agent::Qwen => {
            let used = model_in_use(model, extra);
            assert(args =~= seq!["--auth-type"@, "openai"@, "--model"@, used] + extra || args
                =~= seq!["--auth-type"@, "openai"@] + extra || args =~= seq!["--model"@, used]
                + extra || args =~= extra);
        },
        Agent::Dsh => {
            let prefix = texts(found.prefix@);
            assert(args =~= prefix + seq!["--patch"@, found.config@] + extra || args =~= prefix
                + seq!["web"@, "--patch"@, found.config@] + extra);
        },
        _ => {},
    }
}

/// Which steps a launch has: every agent but aider is looked for, only AGY
/// and dsh are refused arguments, those with files of their own have them
/// written, only OpenClaw is set up, and no step is taken twice.
pub proof fn law_which_steps_a_launch_has(agent: Agent)
    ensures
        ({
            let steps = steps_of(agent);
            &&& steps.contains(Step::Run)
            &&& steps.contains(Step::Find) <==> agent != Agent::Aider
            &&& steps.contains(Step::Refuse) <==> agent == Agent::Agy || agent == Agent::Dsh
            &&& steps.contains(Step::Onboard) <==> agent == Agent::Openclaw
            &&& steps.contains(Step::Write) <==> (agent == Agent::Codex || agent == Agent::Pi
                || agent == Agent::Hermes || agent == Agent::Agy || agent == Agent::Dsh || agent
                == Agent::Grok || agent == Agent::Qwen)
            &&& forall|i: int, k: int|
                0 <= i < k < steps.len() ==> #[trigger] steps[i] != #[trigger] steps[k]
        }),
{
    let steps = steps_of(agent);
    match agent {
        Agent::Codex => assert(steps[0] == Step::Write && steps[1] == Step::Find && steps[2]
            == Step::Run),
        Agent::Aider => assert(steps[0] == Step::Run),
        Agent::Agy => assert(steps[0] == Step::Find && steps[1] == Step::Refuse && steps[2]
            == Step::Write && steps[3] == Step::Run),
        Agent::Dsh => assert(steps[0] == Step::Refuse && steps[1] == Step::Find && steps[2]
            == Step::Write && steps[3] == Step::Run),
        Agent::Openclaw => assert(steps[0] == Step::Find && steps[1] == Step::Onboard && steps[2]
            == Step::Run),
        Agent::Pi | Agent::Hermes | Agent::Qwen | Agent::Grok => assert(steps[0] == Step::Find
            && steps[1] == Step::Write && steps[2] == Step::Run),
        _ => assert(steps[0] == Step::Find && steps[1] == Step::Run),
    }
}

/// Only AGY and dsh are refused arguments: AGY the directory llmman
/// manages, dsh what its launcher cannot combine.
pub proof fn law_which_arguments_are_refused(agent: Agent, extra: Seq<Seq<char>>)
    ensures
        agent == Agent::Agy ==> (argument_refusal(agent, extra) is Some <==> flag_given(
            extra,
            "--gemini_dir"@,
            Some("-gemini_dir"@),
        )),
        agent == Agent::Dsh ==> (argument_refusal(agent, extra) is Some <==> flag_given(
            launcher_args(extra),
            "--patch"@,
            None,
        ) || launcher_command(extra) is Some),
        agent != Agent::Agy && agent != Agent::Dsh ==> argument_refusal(agent, extra) is None,
        agent == Agent::Agy && argument_refusal(agent, extra) is Some ==> argument_refusal(
            agent,
            extra,
        )->0 == "llmman manages AGY\u{2019}s --gemini_dir"@,
{
}

/// An argument stands behind another.
pub open spec fn stands_behind(args: Seq<Seq<char>>, flag: Seq<char>, value: Seq<char>) -> bool {
    exists|i: int| 0 <= i < args.len() - 1 && #[trigger] args[i] == flag && args[i + 1] == value
}

/// OpenClaw is set up against the daemon, for the model, without asking:
/// the model by its name without the registry it would be taken for, and as
/// `default` where nothing is left.
pub proof fn law_openclaw_is_set_up_for_the_model(server: Seq<char>, model: Seq<char>)
    ensures
        ({
            let line = onboard_line(server, model);
            let bare = if "docker.io/ai/"@.is_prefix_of(model) {
                model.skip("docker.io/ai/"@.len() as int)
            } else {
                model
            };
            &&& line.len() == 12 && line[0] == "onboard"@
            &&& stands_behind(line, "--auth-choice"@, "ollama"@)
            &&& stands_behind(line, "--custom-base-url"@, server + "/v1"@)
            &&& stands_behind(
                line,
                "--custom-model-id"@,
                if bare.len() == 0 {
                    "default"@
                } else {
                    bare
                },
            )
            &&& line.contains("--non-interactive"@) && line.contains("--accept-risk"@)
            &&& line.contains("--skip-health"@) && line.contains("--skip-channels"@)
                && line.contains("--skip-skills"@)
        }),
{
    let line = onboard_line(server, model);
    assert(line[3] == "--auth-choice"@ && line[4] == "ollama"@);
    assert(line[5] == "--custom-base-url"@ && line[6] == server + "/v1"@);
    assert(line[7] == "--custom-model-id"@ && line[8] == openclaw_name(model));
    assert(line[1] == "--non-interactive"@ && line[2] == "--accept-risk"@);
    assert(line[9] == "--skip-health"@ && line[10] == "--skip-channels"@ && line[11]
        == "--skip-skills"@);
}

/// OpenClaw was set up where either of its two files is there.
pub proof fn law_where_openclaw_was_set_up()
    ensures
        onboarded_places().len() == 2,
        onboarded_places()[0].root is Home && onboarded_places()[0].parts == seq![
            ".openclaw"@,
            "openclaw.json"@,
        ],
        onboarded_places()[1].root is Home && onboarded_places()[1].parts == seq![
            ".clawdbot"@,
            "clawdbot.json"@,
        ],
{
    assert(onboarded_places()[0].parts =~= seq![".openclaw"@, "openclaw.json"@]);
    assert(onboarded_places()[1].parts =~= seq![".clawdbot"@, "clawdbot.json"@]);
}

/// The registry OpenClaw does not take is left off a model's name, and any
/// other is kept. Where nothing is left, the name is `default`.
pub proof fn law_what_openclaw_calls_a_model(bare: Seq<char>, model: Seq<char>)
    requires
        !"docker.io/ai/"@.is_prefix_of(model),
    ensures
        bare.len() > 0 ==> openclaw_name("docker.io/ai/"@ + bare) == bare,
        openclaw_name("docker.io/ai/"@) == "default"@,
        model.len() > 0 ==> openclaw_name(model) == model,
        model.len() == 0 ==> openclaw_name(model) == "default"@,
{
    let prefix = "docker.io/ai/"@;
    law_a_prefix_is_taken_off(prefix, bare, model);
    law_a_prefix_is_taken_off(prefix, Seq::empty(), model);
    assert(prefix + Seq::<char>::empty() =~= prefix);
}

/// OpenClaw is set up once: one file of its own that is there is enough.
pub proof fn law_openclaw_is_set_up_once(there: Seq<bool>, i: int)
    ensures
        0 <= i < there.len() && there[i] ==> !is_new(there),
        (forall|k: int| 0 <= k < there.len() ==> !there[k]) ==> is_new(there),
{
    if 0 <= i < there.len() && there[i] {
        assert(there.contains(there[i]));
    }
}

/// A download is announced exactly where another program runs dsh.
pub proof fn law_a_download_is_announced(prefix: Seq<Seq<char>>)
    ensures
        notice_of(prefix) is Some <==> prefix.len() > 0,
        notice_of(prefix) is Some ==> notice_of(prefix)->0
            == "[llmman] dsh is not installed; running "@ + "@deepseek-ai/dsh@latest"@
            + " with npx"@,
{
}

/// llmman exits as its agent did, and with a failure where a signal ended
/// the agent.
pub proof fn law_llmman_exits_as_its_agent(code: i32)
    ensures
        exit_status(Some(code)) == code,
        exit_status(None) == 1,
{
}

} // verus!

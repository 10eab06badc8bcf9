//! `llmman launch`: what it decides, from its arguments to the handoff.
//!
//! A launch alternates between decisions, which are made here, and work only
//! the running system can do: asking the daemon, pulling a model, printing.
//! Each call of [`run`] takes what the last piece of work brought and says
//! which one comes next.

use crate::capabilities::ThinkingControls;
use crate::preflight::{
    check_model_flag, law_who_is_refused_without_a_model, model_refusal, model_warning,
};
use crate::providers::{
    check_provider_supported, daemons_key, integration_key, key_choice, model_wanted,
    needs_daemon_key, provider_needs_daemon_key, provider_refusal, remote_ref,
    resolve_provider_model, selection_refusal, stand_in_warning, wanted_model, Daemon, KeyChoice,
    ProviderEntry,
};
use crate::text::{lowercased, string_of, text_of, texts, trimmed};
use vstd::pervasive::unreached;
use vstd::prelude::*;
use vstd::string::*;

verus! {

// ---------------------------------------------------------------------------
// Arguments
// ---------------------------------------------------------------------------

/// The arguments of `llmman launch`.
#[derive(Debug)]
pub struct LaunchArgs {
    /// The agent to launch; without one the agents are listed.
    pub integration: Option<String>,
    /// The model to use.
    pub model: Option<String>,
    /// The provider that serves the model, instead of this machine.
    pub provider: Option<String>,
    /// The provider that takes the requests too large for the local model.
    pub overflow_provider: Option<String>,
    /// The provider's model that takes those requests.
    pub overflow_model: Option<String>,
    /// What is forwarded to the agent.
    pub extra_args: Vec<String>,
}

// ---------------------------------------------------------------------------
// Work and what it brings
// ---------------------------------------------------------------------------

/// What is known of a local model. Of a provider's model nothing is.
#[derive(Debug)]
pub struct ModelInfo {
    pub thinking: Option<ThinkingControls>,
    pub vision: bool,
    pub context_length: Option<u64>,
}

/// A provider, and the model of it that takes what is too large for the
/// local one.
#[derive(Debug)]
pub struct Overflow {
    pub provider: String,
    pub model: String,
}

/// A local model that was pulled.
#[derive(Debug)]
pub struct LocalModel {
    pub name: String,
    pub info: ModelInfo,
}

/// Where a launch stands.
#[derive(Debug)]
pub enum State {
    /// At its beginning.
    Begin,
    /// The model's name is being resolved.
    Resolving { overflow: Option<Overflow> },
    /// The daemon is being started, for a provider's model.
    ForProvider { provider: String },
    /// The daemon is being started, for a local model or for none.
    Starting { model: String, overflow: Option<Overflow> },
    /// The local model is being pulled.
    Pulling { model: String, overflow: Option<Overflow> },
    /// The daemon is being asked of a provider, for a model of it alone, or
    /// for one beside a local model.
    LookingUp { provider: String, wanted: Option<String>, local: Option<LocalModel> },
    /// The two models are being paired.
    Pairing { key: String, info: ModelInfo },
    /// At its end.
    Done,
}

/// What the last piece of work brought.
#[derive(Debug)]
pub enum Event {
    /// The flags were validated.
    Flags { provider: Option<String>, overflow: Option<Overflow> },
    /// The model's name was resolved.
    Resolved { model: String },
    /// The daemon runs.
    ServerReady,
    /// The local model is there.
    Pulled { info: ModelInfo },
    /// The daemon knows the provider.
    Provider { entry: ProviderEntry },
    /// The two models go by one reference.
    Paired { reference: String },
}

/// What an agent is handed.
#[derive(Debug)]
pub struct Handoff {
    pub integration: String,
    pub model: String,
    pub api_key: String,
    pub info: ModelInfo,
}

/// The next piece of work.
#[derive(Debug)]
pub enum Action {
    /// List the agents.
    List,
    /// Resolve a model's name.
    Resolve { model: String },
    /// Start the daemon if it does not run, with a model to preload unless
    /// that is empty.
    EnsureServer { model: String },
    /// Pull a model.
    Pull { model: String },
    /// Ask the daemon of a provider.
    LookUp { provider: String },
    /// Pair a local model with a provider's.
    Pair { local: String, remote: String },
    /// Launch the agent.
    Launch { handoff: Handoff },
    /// End with an error.
    Fail { message: String },
}

/// Something to tell the user.
#[derive(Debug)]
pub enum Notice {
    /// A line.
    Say { line: String },
    /// Unless the provider lists the model, that it does not.
    Unlisted { model: String },
}

/// What is done next, and what is said first.
#[derive(Debug)]
pub struct Outcome {
    pub notices: Vec<Notice>,
    pub action: Action,
    pub state: State,
}

// ---------------------------------------------------------------------------
// What a launch does
// ---------------------------------------------------------------------------

/// Whether work in a state brings such an event. A state past the beginning
/// is one of a launch that names an agent.
pub open spec fn answers(args: LaunchArgs, state: State, event: Event) -> bool {
    match state {
        State::Begin => event is Flags,
        State::Resolving { .. } => args.integration is Some && event is Resolved,
        State::ForProvider { .. } => args.integration is Some && event is ServerReady,
        State::Starting { .. } => args.integration is Some && event is ServerReady,
        State::Pulling { .. } => args.integration is Some && event is Pulled,
        State::LookingUp { .. } => args.integration is Some && event is Provider,
        State::Pairing { .. } => args.integration is Some && event is Paired,
        State::Done => false,
    }
}

/// Whether work in a state brings such an event.
pub fn is_answer(args: &LaunchArgs, state: &State, event: &Event) -> (r: bool)
    ensures
        r == answers(*args, *state, *event),
{
    let named = args.integration.is_some();
    match (state, event) {
        (State::Begin, Event::Flags { .. }) => true,
        (State::Resolving { .. }, Event::Resolved { .. }) => named,
        (State::ForProvider { .. }, Event::ServerReady) => named,
        (State::Starting { .. }, Event::ServerReady) => named,
        (State::Pulling { .. }, Event::Pulled { .. }) => named,
        (State::LookingUp { .. }, Event::Provider { .. }) => named,
        (State::Pairing { .. }, Event::Paired { .. }) => named,
        _ => false,
    }
}

/// The launch ends with an error.
pub open spec fn fails(out: Outcome, message: Seq<char>) -> bool {
    &&& out.action matches Action::Fail { message: said } && said@ == message
    &&& out.state is Done
}

/// Nothing is said.
pub open spec fn silent(out: Outcome) -> bool {
    out.notices@.len() == 0
}

/// A line is said, if there is one.
pub open spec fn says(out: Outcome, line: Option<Seq<char>>) -> bool {
    match line {
        Some(line) => out.notices@.len() == 1 && (out.notices@[0] matches Notice::Say {
            line: said,
        } && said@ == line),
        None => silent(out),
    }
}

/// The agent is launched with a model, a key, and what is known of the
/// model.
pub open spec fn launches(
    out: Outcome,
    args: LaunchArgs,
    model: Seq<char>,
    key: Seq<char>,
    info: ModelInfo,
) -> bool {
    &&& out.action matches Action::Launch { handoff } && {
        &&& Some(handoff.integration) == args.integration
        &&& handoff.model@ == model
        &&& handoff.api_key@ == key
        &&& handoff.info == info
    }
    &&& out.state is Done
}

/// Nothing is known of a model.
pub open spec fn unknown_model() -> ModelInfo {
    ModelInfo { thinking: None, vision: false, context_length: None }
}

/// What is said of an overflow model without a local one.
pub open spec fn overflow_needs_model() -> Seq<char> {
    "--overflow-model needs --model naming the local model to pair it with"@
}

/// At its beginning a launch is checked before anything is started: the
/// agent's model first, then the local half of a pair, then the provider.
pub open spec fn is_begun(
    args: LaunchArgs,
    daemon: Daemon,
    provider: Option<String>,
    overflow: Option<Overflow>,
    out: Outcome,
) -> bool {
    if args.integration is None {
        silent(out) && out.action is List && out.state is Done
    } else {
        let name = lowercased(args.integration->0@);
        let model = string_of(args.model);
        let refusal = model_refusal(name, model, string_of(provider));
        if refusal is Some {
            silent(out) && fails(out, refusal->0)
        } else {
            &&& says(out, model_warning(name, model, texts(args.extra_args@)))
            &&& if overflow is Some && wanted_model(model) is None {
                fails(out, overflow_needs_model())
            } else {
                match provider {
                    Some(provider) => match provider_refusal(name, daemon) {
                        Some(message) => fails(out, message),
                        None => {
                            &&& out.action matches Action::EnsureServer { model }
                                && model@.len() == 0
                            &&& out.state == State::ForProvider { provider }
                        },
                    },
                    None => match args.model {
                        Some(model) => {
                            &&& out.action == Action::Resolve { model }
                            &&& out.state == State::Resolving { overflow }
                        },
                        None => starts(out, Seq::empty(), overflow),
                    },
                }
            }
        }
    }
}

/// The daemon is started for a local model, or for none.
pub open spec fn starts(out: Outcome, model: Seq<char>, overflow: Option<Overflow>) -> bool {
    &&& out.action matches Action::EnsureServer { model: preloaded } && preloaded@ == model
    &&& out.state matches State::Starting { model: kept, overflow: rest } && kept@ == model
        && rest == overflow
}

/// The local model is there: the agent is launched with it, unless a
/// provider's is to take what is too large for it.
pub open spec fn is_local_ready(
    args: LaunchArgs,
    daemon: Daemon,
    model: String,
    info: ModelInfo,
    overflow: Option<Overflow>,
    out: Outcome,
) -> bool {
    &&& silent(out)
    &&& match overflow {
        None => launches(out, args, model@, daemons_key(daemon), info),
        Some(overflow) => match provider_refusal(lowercased(args.integration->0@), daemon) {
            Some(message) => fails(out, message),
            None => {
                &&& out.action == Action::LookUp { provider: overflow.provider }
                &&& out.state == State::LookingUp {
                    provider: overflow.provider,
                    wanted: Some(overflow.model),
                    local: Some(LocalModel { name: model, info }),
                }
            },
        },
    }
}

/// The daemon's answer on a provider: its model is held against what the
/// provider lists, and then used if there is a key for it.
pub open spec fn is_looked_up(
    args: LaunchArgs,
    daemon: Daemon,
    provider: String,
    model: Option<String>,
    local: Option<LocalModel>,
    entry: ProviderEntry,
    out: Outcome,
) -> bool {
    let name = args.integration->0@;
    let per_request = !needs_daemon_key(lowercased(name));
    let wanted = wanted_model(string_of(model));
    let choice = key_choice(per_request, entry, daemon);
    let refusal = selection_refusal(
        provider@,
        string_of(model),
        name,
        per_request,
        entry,
        daemon,
    );
    &&& match wanted {
        Some(wanted) => out.notices@.len() >= 1 && (out.notices@[0] matches Notice::Unlisted {
            model: held,
        } && held@ == wanted),
        None => silent(out),
    }
    &&& match refusal {
        Some(message) => out.notices@.len() <= 1 && fails(out, message),
        None => {
            let reference = remote_ref(provider@, wanted->0);
            &&& if choice == (KeyChoice::Daemons { said: true }) {
                out.notices@.len() == 2 && (out.notices@[1] matches Notice::Say { line } && line@
                    == stand_in_warning(entry.name@))
            } else {
                out.notices@.len() == 1
            }
            &&& match local {
                None => launches(
                    out,
                    args,
                    reference,
                    key_of(choice, daemon),
                    unknown_model(),
                ),
                Some(local) => {
                    &&& out.action matches Action::Pair { local: half, remote } && half
                        == local.name && remote@ == reference
                    &&& out.state matches State::Pairing { key, info } && key@ == key_of(
                        choice,
                        daemon,
                    ) && info == local.info
                },
            }
        },
    }
}

/// The key of a choice that has one.
pub open spec fn key_of(choice: KeyChoice, daemon: Daemon) -> Seq<char> {
    match choice {
        KeyChoice::Own(key) => key,
        _ => daemons_key(daemon),
    }
}

/// What a launch does next.
pub open spec fn is_next(
    args: LaunchArgs,
    daemon: Daemon,
    state: State,
    event: Event,
    out: Outcome,
) -> bool {
    match (state, event) {
        (State::Begin, Event::Flags { provider, overflow }) => is_begun(
            args,
            daemon,
            provider,
            overflow,
            out,
        ),
        (State::Resolving { overflow }, Event::Resolved { model }) => silent(out) && starts(
            out,
            model@,
            overflow,
        ),
        (State::ForProvider { provider }, Event::ServerReady) => {
            &&& silent(out)
            &&& out.action == Action::LookUp { provider }
            &&& out.state == State::LookingUp { provider, wanted: args.model, local: None }
        },
        (State::Starting { model, overflow }, Event::ServerReady) => if model@.len() == 0 {
            is_local_ready(args, daemon, model, unknown_model(), overflow, out)
        } else {
            &&& silent(out)
            &&& out.action == Action::Pull { model }
            &&& out.state == State::Pulling { model, overflow }
        },
        (State::Pulling { model, overflow }, Event::Pulled { info }) => is_local_ready(
            args,
            daemon,
            model,
            info,
            overflow,
            out,
        ),
        (State::LookingUp { provider, wanted, local }, Event::Provider { entry }) => is_looked_up(
            args,
            daemon,
            provider,
            wanted,
            local,
            entry,
            out,
        ),
        (State::Pairing { key, info }, Event::Paired { reference }) => silent(out) && launches(
            out,
            args,
            reference@,
            key@,
            info,
        ),
        _ => false,
    }
}

// ---------------------------------------------------------------------------
// Doing it
// ---------------------------------------------------------------------------

/// The end of a launch with an error.
fn fail(notices: Vec<Notice>, message: String) -> (r: Outcome)
    ensures
        r.notices == notices,
        fails(r, message@),
{
    Outcome { notices, action: Action::Fail { message }, state: State::Done }
}

/// A copy of an optional string.
fn copy_of(s: &Option<String>) -> (r: Option<String>)
    ensures
        r == *s,
{
    match s {
        Some(s) => Some(s.clone()),
        None => None,
    }
}

/// An optional string as a slice.
fn as_slice(s: &Option<String>) -> (r: Option<&str>)
    ensures
        text_of(r) == string_of(*s),
{
    match s {
        Some(s) => Some(s.as_str()),
        None => None,
    }
}

/// The handoff to an agent.
fn hand_off(
    notices: Vec<Notice>,
    name: &String,
    model: String,
    api_key: String,
    info: ModelInfo,
) -> (r: Outcome)
    ensures
        r.notices == notices,
        r.action == (Action::Launch {
            handoff: Handoff { integration: *name, model, api_key, info },
        }),
        r.state is Done,
{
    let handoff = Handoff { integration: name.clone(), model, api_key, info };
    Outcome { notices, action: Action::Launch { handoff }, state: State::Done }
}

/// What a launch does at its beginning.
fn begin(
    args: &LaunchArgs,
    daemon: &Daemon,
    provider: Option<String>,
    overflow: Option<Overflow>,
) -> (r: Outcome)
    ensures
        is_begun(*args, *daemon, provider, overflow, r),
{
    let mut notices: Vec<Notice> = Vec::new();
    let name = match &args.integration {
        Some(name) => name,
        None => {
            return Outcome { notices, action: Action::List, state: State::Done };
        },
    };
    match check_model_flag(
        name.as_str(),
        as_slice(&args.model),
        as_slice(&provider),
        args.extra_args.as_slice(),
    ) {
        Ok(warning) => {
            if let Some(line) = warning {
                notices.push(Notice::Say { line });
            }
        },
        Err(message) => {
            return fail(notices, message);
        },
    }
    if overflow.is_some() && model_wanted(as_slice(&args.model)).is_none() {
        return fail(
            notices,
            "--overflow-model needs --model naming the local model to pair it with".to_owned(),
        );
    }
    match provider {
        Some(provider) => {
            if let Err(message) = check_provider_supported(name.as_str(), daemon) {
                return fail(notices, message);
            }
            Outcome {
                notices,
                action: Action::EnsureServer { model: String::new() },
                state: State::ForProvider { provider },
            }
        },
        None => match &args.model {
            Some(model) => Outcome {
                notices,
                action: Action::Resolve { model: model.clone() },
                state: State::Resolving { overflow },
            },
            None => Outcome {
                notices,
                action: Action::EnsureServer { model: String::new() },
                state: State::Starting { model: String::new(), overflow },
            },
        },
    }
}

/// What a launch does once the local model is there.
fn local_ready(
    args: &LaunchArgs,
    name: &String,
    daemon: &Daemon,
    model: String,
    info: ModelInfo,
    overflow: Option<Overflow>,
) -> (r: Outcome)
    requires
        args.integration == Some(*name),
    ensures
        is_local_ready(*args, *daemon, model, info, overflow, r),
{
    let notices: Vec<Notice> = Vec::new();
    match overflow {
        None => hand_off(notices, name, model, integration_key(daemon), info),
        Some(overflow) => {
            if let Err(message) = check_provider_supported(name.as_str(), daemon) {
                return fail(notices, message);
            }
            Outcome {
                notices,
                action: Action::LookUp { provider: overflow.provider.clone() },
                state: State::LookingUp {
                    provider: overflow.provider,
                    wanted: Some(overflow.model),
                    local: Some(LocalModel { name: model, info }),
                },
            }
        },
    }
}

/// What a launch does with the daemon's answer on a provider.
fn looked_up(
    args: &LaunchArgs,
    name: &String,
    daemon: &Daemon,
    provider: String,
    model: Option<String>,
    local: Option<LocalModel>,
    entry: ProviderEntry,
) -> (r: Outcome)
    requires
        args.integration == Some(*name),
    ensures
        is_looked_up(*args, *daemon, provider, model, local, entry, r),
{
    let mut notices: Vec<Notice> = Vec::new();
    if let Some(model) = model_wanted(as_slice(&model)) {
        notices.push(Notice::Unlisted { model });
    }
    let lower = name.to_lowercase();
    let per_request = !provider_needs_daemon_key(lower.as_str());
    let selection = match resolve_provider_model(
        provider.as_str(),
        as_slice(&model),
        name.as_str(),
        per_request,
        &entry,
        daemon,
    ) {
        Ok(selection) => selection,
        Err(message) => {
            return fail(notices, message);
        },
    };
    if let Some(line) = selection.warning {
        notices.push(Notice::Say { line });
    }
    match local {
        None => hand_off(
            notices,
            name,
            selection.reference,
            selection.key,
            ModelInfo { thinking: None, vision: false, context_length: None },
        ),
        Some(local) => Outcome {
            notices,
            action: Action::Pair { local: local.name, remote: selection.reference },
            state: State::Pairing { key: selection.key, info: local.info },
        },
    }
}

/// Launches an agent, one step of it: what is done next, given where the
/// launch stands and what the last piece of work brought. `daemon` is what
/// is known of the daemon by now. A launch begins with its flags, and is
/// over once its state is [`State::Done`].
pub fn run(args: &LaunchArgs, daemon: &Daemon, state: State, event: Event) -> (r: Outcome)
    requires
        answers(*args, state, event),
    ensures
        is_next(*args, *daemon, state, event, r),
{
    let name = match &args.integration {
        Some(name) => name,
        None => {
            return match event {
                Event::Flags { provider, overflow } => begin(args, daemon, provider, overflow),
                _ => unreached(),
            };
        },
    };
    let silence: Vec<Notice> = Vec::new();
    match (state, event) {
        (State::Begin, Event::Flags { provider, overflow }) => begin(
            args,
            daemon,
            provider,
            overflow,
        ),
        (State::Resolving { overflow }, Event::Resolved { model }) => Outcome {
            notices: silence,
            action: Action::EnsureServer { model: model.clone() },
            state: State::Starting { model, overflow },
        },
        (State::ForProvider { provider }, Event::ServerReady) => Outcome {
            notices: silence,
            action: Action::LookUp { provider: provider.clone() },
            state: State::LookingUp { provider, wanted: copy_of(&args.model), local: None },
        },
        (State::Starting { model, overflow }, Event::ServerReady) => {
            if model.as_str().is_empty() {
                let info = ModelInfo { thinking: None, vision: false, context_length: None };
                return local_ready(args, name, daemon, model, info, overflow);
            }
            Outcome {
                notices: silence,
                action: Action::Pull { model: model.clone() },
                state: State::Pulling { model, overflow },
            }
        },
        (State::Pulling { model, overflow }, Event::Pulled { info }) => local_ready(
            args,
            name,
            daemon,
            model,
            info,
            overflow,
        ),
        (State::LookingUp { provider, wanted, local }, Event::Provider { entry }) => looked_up(
            args,
            name,
            daemon,
            provider,
            wanted,
            local,
            entry,
        ),
        (State::Pairing { key, info }, Event::Paired { reference }) => hand_off(
            silence,
            name,
            reference,
            key,
            info,
        ),
        _ => unreached(),
    }
}

// ---------------------------------------------------------------------------
// Laws
// ---------------------------------------------------------------------------

/// A launch that is refused starts nothing: the refusal costs no daemon.
/// That holds of a missing model, of a pair without its local half, and of
/// a provider the agent cannot be driven with.
pub proof fn law_a_refusal_starts_nothing(
    args: LaunchArgs,
    daemon: Daemon,
    provider: Option<String>,
    overflow: Option<Overflow>,
    out: Outcome,
)
    requires
        is_next(args, daemon, State::Begin, Event::Flags { provider, overflow }, out),
        args.integration is Some,
        ({
            let name = lowercased(args.integration->0@);
            let model = string_of(args.model);
            ||| model_refusal(name, model, string_of(provider)) is Some
            ||| overflow is Some && wanted_model(model) is None
            ||| provider is Some && provider_refusal(name, daemon) is Some
        }),
    ensures
        out.action is Fail,
        out.state is Done,
{
}

/// An agent is handed over to only once the daemon runs: before the daemon
/// is started nothing is asked of it, and nothing is launched.
pub proof fn law_the_daemon_runs_before_the_handoff(
    args: LaunchArgs,
    daemon: Daemon,
    state: State,
    event: Event,
    out: Outcome,
)
    requires
        is_next(args, daemon, state, event, out),
        state is Begin || state is Resolving,
    ensures
        !(out.action is Pull || out.action is LookUp || out.action is Pair
            || out.action is Launch),
        out.state is Begin || out.state is Resolving || out.state is Done
            || out.action is EnsureServer,
{
}

/// Each state waits for the work that was asked for, so that what the work
/// brings is always an answer.
pub proof fn law_each_state_waits_for_its_work(
    args: LaunchArgs,
    daemon: Daemon,
    state: State,
    event: Event,
    out: Outcome,
)
    requires
        answers(args, state, event),
        is_next(args, daemon, state, event, out),
    ensures
        out.state is Begin == false,
        out.state is Resolving == out.action is Resolve,
        (out.state is ForProvider || out.state is Starting) == out.action is EnsureServer,
        out.state is Pulling == out.action is Pull,
        out.state is LookingUp == out.action is LookUp,
        out.state is Pairing == out.action is Pair,
        out.state is Done == (out.action is List || out.action is Launch || out.action is Fail),
        out.state is Done || args.integration is Some,
{
}

/// How many pieces of work are left at most.
pub open spec fn work_left(state: State) -> nat {
    match state {
        State::Begin => 6,
        State::Resolving { .. } => 5,
        State::Starting { .. } => 4,
        State::Pulling { .. } => 3,
        State::ForProvider { .. } => 3,
        State::LookingUp { .. } => 2,
        State::Pairing { .. } => 1,
        State::Done => 0,
    }
}

/// Every launch comes to its end.
pub proof fn law_every_launch_ends(
    args: LaunchArgs,
    daemon: Daemon,
    state: State,
    event: Event,
    out: Outcome,
)
    requires
        is_next(args, daemon, state, event, out),
    ensures
        work_left(out.state) < work_left(state),
{
}

/// A provider's model alone needs nothing local: nothing is resolved or
/// pulled for it, nothing is preloaded, and nothing is claimed of what it
/// can do.
pub proof fn law_a_providers_model_needs_nothing_local(
    args: LaunchArgs,
    daemon: Daemon,
    state: State,
    event: Event,
    out: Outcome,
)
    requires
        is_next(args, daemon, state, event, out),
        match state {
            State::Begin => event matches Event::Flags { provider, .. } && provider is Some,
            State::ForProvider { .. } => true,
            State::LookingUp { local, .. } => local is None,
            _ => false,
        },
    ensures
        !(out.action is Resolve || out.action is Pull || out.action is Pair),
        out.action matches Action::EnsureServer { model } ==> model@.len() == 0,
        out.action matches Action::Launch { handoff } ==> handoff.info == unknown_model(),
        match out.state {
            State::ForProvider { .. } => true,
            State::LookingUp { local, .. } => local is None,
            State::Done => true,
            _ => false,
        },
{
}

/// A local model travels without a provider's key: the agent is handed the
/// daemon's own, or the placeholder.
pub proof fn law_a_local_model_travels_without_a_providers_key(
    args: LaunchArgs,
    daemon: Daemon,
    state: State,
    event: Event,
    out: Outcome,
)
    requires
        is_next(args, daemon, state, event, out),
        state is Starting || state is Pulling,
        out.action is Launch,
    ensures
        out.action->handoff.api_key@ == daemons_key(daemon),
{
}

/// An agent that is configured through a file is never handed a provider's
/// key, whether its model is the provider's alone or paired with a local
/// one.
pub proof fn law_a_file_never_gets_a_providers_key(
    args: LaunchArgs,
    daemon: Daemon,
    state: State,
    event: Event,
    out: Outcome,
)
    requires
        is_next(args, daemon, state, event, out),
        state is LookingUp,
        needs_daemon_key(lowercased(args.integration->0@)),
    ensures
        out.action matches Action::Launch { handoff } ==> handoff.api_key@ == daemons_key(daemon),
        out.state matches State::Pairing { key, .. } ==> key@ == daemons_key(daemon),
{
}

/// The hosted half of a pair is validated and keyed exactly as the
/// provider's model alone would be: it is refused for the same reason, and
/// goes by the same reference and the same key.
pub proof fn law_a_pair_is_keyed_like_the_providers_model_alone(
    args: LaunchArgs,
    daemon: Daemon,
    provider: String,
    model: Option<String>,
    local: LocalModel,
    entry: ProviderEntry,
    alone: Outcome,
    paired: Outcome,
)
    requires
        is_next(
            args,
            daemon,
            State::LookingUp { provider, wanted: model, local: None },
            Event::Provider { entry },
            alone,
        ),
        is_next(
            args,
            daemon,
            State::LookingUp { provider, wanted: model, local: Some(local) },
            Event::Provider { entry },
            paired,
        ),
    ensures
        alone.action matches Action::Fail { message } ==> (paired.action matches Action::Fail {
            message: other,
        } && other@ == message@),
        alone.action matches Action::Launch { handoff } ==> {
            &&& paired.action matches Action::Pair { local: half, remote } && half == local.name
                && remote@ == handoff.model@
            &&& paired.state matches State::Pairing { key, info } && key@ == handoff.api_key@
                && info == local.info
        },
        alone.action is Fail || alone.action is Launch,
{
}

/// A pair is handed over as it was made: under its reference, with the key
/// that was kept for it, and with what is known of its local half.
pub proof fn law_a_pair_is_handed_over_as_it_was_made(
    args: LaunchArgs,
    daemon: Daemon,
    key: String,
    info: ModelInfo,
    reference: String,
    out: Outcome,
)
    requires
        is_next(args, daemon, State::Pairing { key, info }, Event::Paired { reference }, out),
    ensures
        out.notices@.len() == 0,
        out.state is Done,
        out.action matches Action::Launch { handoff } && {
            &&& args.integration == Some(handoff.integration)
            &&& handoff.model@ == reference@
            &&& handoff.api_key@ == key@
            &&& handoff.info == info
        },
{
}

/// The hosted half of a pair authenticates as the provider's model alone
/// does: over the whole launch, the pair is handed over with the key that
/// model would be handed over with, which is this shell's for the provider
/// where the agent sends a key per request, the daemon authenticates nobody
/// and this shell has one.
pub proof fn law_a_pair_authenticates_like_the_providers_model_alone(
    args: LaunchArgs,
    daemon: Daemon,
    provider: String,
    wanted: Option<String>,
    local: LocalModel,
    entry: ProviderEntry,
    alone: Outcome,
    paired: Outcome,
    later: Daemon,
    reference: String,
    last: Outcome,
)
    requires
        is_next(
            args,
            daemon,
            State::LookingUp { provider, wanted, local: None },
            Event::Provider { entry },
            alone,
        ),
        is_next(
            args,
            daemon,
            State::LookingUp { provider, wanted, local: Some(local) },
            Event::Provider { entry },
            paired,
        ),
        paired.state is Pairing,
        is_next(args, later, paired.state, Event::Paired { reference }, last),
    ensures
        alone.action is Launch,
        last.action is Launch,
        last.action->handoff.api_key@ == alone.action->handoff.api_key@,
        last.action->handoff.info == local.info,
        last.action->handoff.model@ == reference@,
        last.action->handoff.integration == alone.action->handoff.integration,
        lowercased(args.integration->0@) != "hermes"@ && daemon.client_key is None
            && entry.client_key is Some ==> last.action->handoff.api_key@
            == entry.client_key->0@,
        (lowercased(args.integration->0@) == "hermes"@ || entry.client_key is None)
            && daemon.client_key is None ==> last.action->handoff.api_key@ == daemon.placeholder@,
        daemon.client_key is Some ==> last.action->handoff.api_key@ == daemon.client_key->0@,
{
}

/// A launch without an agent lists them, and does nothing else.
pub proof fn law_without_an_agent_the_agents_are_listed(
    args: LaunchArgs,
    daemon: Daemon,
    provider: Option<String>,
    overflow: Option<Overflow>,
    out: Outcome,
)
    requires
        is_next(args, daemon, State::Begin, Event::Flags { provider, overflow }, out),
    ensures
        out.action is List <==> args.integration is None,
        out.action is List ==> out.notices@.len() == 0 && out.state is Done,
{
}

/// What a launch begins with, in terms of its flags: it fails where the
/// agent needs a model and has none, where a pair has no local half, and
/// where the agent is refused a provider; else it starts the daemon for the
/// provider, or resolves the model as it was given, or starts the daemon
/// for no model.
pub proof fn law_how_a_launch_begins(
    args: LaunchArgs,
    daemon: Daemon,
    provider: Option<String>,
    overflow: Option<Overflow>,
    out: Outcome,
)
    requires
        is_next(args, daemon, State::Begin, Event::Flags { provider, overflow }, out),
        args.integration is Some,
    ensures
        ({
            let name = lowercased(args.integration->0@);
            let blank = args.model is None || trimmed(args.model->0@).len() == 0;
            let needs = name == "qwen"@ || name == "dsh"@ || name == "agy"@ || name == "goose"@
                || name == "grok"@;
            let unpaired = overflow is Some && blank;
            let refused = provider is Some && provider_refusal(name, daemon) is Some;
            &&& out.action is Fail <==> needs && blank || unpaired || refused
            &&& needs && blank ==> out.action->message@ == model_refusal(
                name,
                string_of(args.model),
                string_of(provider),
            )->0 && out.notices@.len() == 0
            &&& !(needs && blank) && unpaired ==> out.action->message@
                == "--overflow-model needs --model naming the local model to pair it with"@
            &&& !(needs && blank) && !unpaired && refused ==> out.action->message@
                == provider_refusal(name, daemon)->0
            &&& out.action !is Fail ==> {
                &&& provider matches Some(id) ==> {
                    &&& out.action matches Action::EnsureServer { model } && model@.len() == 0
                    &&& out.state matches State::ForProvider { provider: kept } && kept@ == id@
                }
                &&& provider is None && args.model is Some ==> {
                    &&& out.action matches Action::Resolve { model: asked } && asked@
                        == args.model->0@
                    &&& out.state matches State::Resolving { overflow: kept } && kept == overflow
                }
                &&& provider is None && args.model is None ==> {
                    &&& out.action matches Action::EnsureServer { model } && model@.len() == 0
                    &&& out.state matches State::Starting { model: kept, overflow: rest }
                        && kept@.len() == 0 && rest == overflow
                }
            }
            &&& out.notices@.len() <= 1
            &&& !(needs && blank) ==> (out.notices@.len() == 1 <==> model_warning(
                name,
                string_of(args.model),
                texts(args.extra_args@),
            ) is Some)
            &&& out.notices@.len() == 1 ==> (out.notices@[0] matches Notice::Say { line } && line@
                == model_warning(name, string_of(args.model), texts(args.extra_args@))->0)
        }),
{
    law_who_is_refused_without_a_model(
        lowercased(args.integration->0@),
        string_of(args.model),
        string_of(provider),
    );
}

/// A launch of a local model alone: the daemon is started with the model
/// the name resolved to, that model is pulled, and it is what the agent is
/// handed, with what is known of it. The key is this shell's for the
/// daemon, or the placeholder.
pub proof fn law_a_launch_of_a_local_model(
    args: LaunchArgs,
    model: String,
    info: ModelInfo,
    overflow: Option<Overflow>,
    first: Daemon,
    started: Outcome,
    second: Daemon,
    pulled: Outcome,
    daemon: Daemon,
    last: Outcome,
)
    requires
        model@.len() > 0,
        overflow is None,
        is_next(args, first, State::Resolving { overflow }, Event::Resolved { model }, started),
        is_next(args, second, started.state, Event::ServerReady, pulled),
        is_next(args, daemon, pulled.state, Event::Pulled { info }, last),
    ensures
        started.notices@.len() + pulled.notices@.len() + last.notices@.len() == 0,
        started.action matches Action::EnsureServer { model: preloaded } && preloaded@ == model@,
        pulled.action matches Action::Pull { model: wanted } && wanted@ == model@,
        last.action matches Action::Launch { handoff } && {
            &&& args.integration == Some(handoff.integration)
            &&& handoff.model@ == model@
            &&& handoff.info == info
            &&& daemon.client_key is Some ==> handoff.api_key@ == daemon.client_key->0@
            &&& daemon.client_key is None ==> handoff.api_key@ == daemon.placeholder@
        },
        last.state is Done,
{
}

/// A launch without a model: nothing is pulled, the agent is handed no
/// model, and nothing is claimed of one.
pub proof fn law_a_launch_without_a_model(
    args: LaunchArgs,
    model: String,
    overflow: Option<Overflow>,
    daemon: Daemon,
    last: Outcome,
)
    requires
        model@.len() == 0,
        overflow is None,
        is_next(args, daemon, State::Starting { model, overflow }, Event::ServerReady, last),
    ensures
        last.notices@.len() == 0,
        last.action matches Action::Launch { handoff } && {
            &&& args.integration == Some(handoff.integration)
            &&& handoff.model@.len() == 0
            &&& handoff.info.thinking is None && !handoff.info.vision
                && handoff.info.context_length is None
            &&& daemon.client_key is Some ==> handoff.api_key@ == daemon.client_key->0@
            &&& daemon.client_key is None ==> handoff.api_key@ == daemon.placeholder@
        },
{
}

/// A launch of a provider's model alone: the daemon is asked of the
/// provider, the model is held against what that lists, and the agent is
/// handed the reference to the model as it was given, blanks around it
/// apart.
pub proof fn law_a_launch_of_a_providers_model(
    args: LaunchArgs,
    provider: String,
    entry: ProviderEntry,
    first: Daemon,
    asked: Outcome,
    daemon: Daemon,
    last: Outcome,
)
    requires
        is_next(args, first, State::ForProvider { provider }, Event::ServerReady, asked),
        is_next(args, daemon, asked.state, Event::Provider { entry }, last),
    ensures
        asked.notices@.len() == 0,
        asked.action matches Action::LookUp { provider: id } && id@ == provider@,
        last.state is Done,
        last.action is Launch || last.action is Fail,
        args.model is None || trimmed(args.model->0@).len() == 0 ==> last.action is Fail
            && last.notices@.len() == 0,
        args.model is Some && trimmed(args.model->0@).len() > 0 ==> last.notices@.len() >= 1 && (
        last.notices@[0] matches Notice::Unlisted { model } && model@ == trimmed(args.model->0@)),
        last.action matches Action::Launch { handoff } ==> {
            &&& args.integration == Some(handoff.integration)
            &&& handoff.model@ == "llmman.provider/"@ + provider@ + seq!['/'] + trimmed(
                args.model->0@,
            )
            &&& handoff.info.thinking is None && !handoff.info.vision
                && handoff.info.context_length is None
            &&& lowercased(args.integration->0@) != "hermes"@ && daemon.client_key is None
                && entry.client_key is Some ==> handoff.api_key@ == entry.client_key->0@
                && last.notices@.len() == 1
            &&& (lowercased(args.integration->0@) == "hermes"@ || entry.client_key is None)
                && daemon.client_key is None ==> handoff.api_key@ == daemon.placeholder@
            &&& daemon.client_key is Some ==> handoff.api_key@ == daemon.client_key->0@
                && last.notices@.len() == 1
            &&& last.notices@.len() <= 2
            &&& last.notices@.len() == 2 ==> (last.notices@[1] matches Notice::Say { line } && line@
                == "[llmman] warning: no API key for "@ + entry.name@
                + " here; using the key llmman serve has"@)
        },
{
    if args.model is Some {
        let name = trimmed(args.model->0@);
        assert("llmman.provider/"@ + provider@ + seq!['/'] + name =~= remote_ref(provider@, name));
    }
}

/// A launch of a pair: the local half is started, pulled and paired under
/// the name it resolved to, the hosted half under the provider and the
/// model that were given for it, and what is known of the local half is
/// what the agent is handed with the pair.
pub proof fn law_a_launch_of_a_pair(
    args: LaunchArgs,
    model: String,
    info: ModelInfo,
    overflow: Overflow,
    entry: ProviderEntry,
    reference: String,
    first: Daemon,
    started: Outcome,
    second: Daemon,
    pulled: Outcome,
    third: Daemon,
    asked: Outcome,
    daemon: Daemon,
    paired: Outcome,
    fifth: Daemon,
    last: Outcome,
)
    requires
        model@.len() > 0,
        is_next(
            args,
            first,
            State::Resolving { overflow: Some(overflow) },
            Event::Resolved { model },
            started,
        ),
        is_next(args, second, started.state, Event::ServerReady, pulled),
        is_next(args, third, pulled.state, Event::Pulled { info }, asked),
        asked.action !is Fail,
        is_next(args, daemon, asked.state, Event::Provider { entry }, paired),
        paired.action !is Fail,
        is_next(args, fifth, paired.state, Event::Paired { reference }, last),
    ensures
        started.action matches Action::EnsureServer { model: preloaded } && preloaded@ == model@,
        pulled.action matches Action::Pull { model: wanted } && wanted@ == model@,
        asked.action matches Action::LookUp { provider } && provider@ == overflow.provider@,
        paired.action matches Action::Pair { local, remote } && local@ == model@ && remote@
            == "llmman.provider/"@ + overflow.provider@ + seq!['/'] + trimmed(overflow.model@),
        paired.notices@.len() >= 1 && (paired.notices@[0] matches Notice::Unlisted {
            model: held,
        } && held@ == trimmed(overflow.model@)),
        last.action matches Action::Launch { handoff } && {
            &&& args.integration == Some(handoff.integration)
            &&& handoff.model@ == reference@
            &&& handoff.info == info
            &&& lowercased(args.integration->0@) != "hermes"@ && daemon.client_key is None
                && entry.client_key is Some ==> handoff.api_key@ == entry.client_key->0@
            &&& (lowercased(args.integration->0@) == "hermes"@ || entry.client_key is None)
                && daemon.client_key is None ==> handoff.api_key@ == daemon.placeholder@
            &&& daemon.client_key is Some ==> handoff.api_key@ == daemon.client_key->0@
        },
{
    let name = trimmed(overflow.model@);
    assert("llmman.provider/"@ + overflow.provider@ + seq!['/'] + name =~= remote_ref(
        overflow.provider@,
        name,
    ));
}

/// A pair is refused its hosted half once the local one is there, exactly
/// where the agent is refused a provider, and for the same reason.
pub proof fn law_a_pair_is_refused_like_a_provider(
    args: LaunchArgs,
    daemon: Daemon,
    model: String,
    info: ModelInfo,
    overflow: Overflow,
    out: Outcome,
)
    requires
        is_next(
            args,
            daemon,
            State::Pulling { model, overflow: Some(overflow) },
            Event::Pulled { info },
            out,
        ),
    ensures
        out.action is Fail <==> provider_refusal(lowercased(args.integration->0@), daemon) is Some,
        out.action matches Action::Fail { message } ==> Some(message@) == provider_refusal(
            lowercased(args.integration->0@),
            daemon,
        ),
        out.action !is Fail ==> out.action is LookUp,
{
}

/// Which event answers which state: each the one its work brings, and only
/// the first in a launch that names no agent. Nothing answers a launch that
/// is over.
pub proof fn law_which_event_answers_a_state(args: LaunchArgs, state: State, event: Event)
    ensures
        state is Done ==> !answers(args, state, event),
        state is Begin ==> (answers(args, state, event) <==> event is Flags),
        !(state is Begin) && args.integration is None ==> !answers(args, state, event),
        args.integration is Some ==> {
            &&& state is Resolving ==> (answers(args, state, event) <==> event is Resolved)
            &&& state is ForProvider || state is Starting ==> (answers(args, state, event)
                <==> event is ServerReady)
            &&& state is Pulling ==> (answers(args, state, event) <==> event is Pulled)
            &&& state is LookingUp ==> (answers(args, state, event) <==> event is Provider)
            &&& state is Pairing ==> (answers(args, state, event) <==> event is Paired)
        },
{
}

} // verus!

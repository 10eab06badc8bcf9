//! Models served by a provider: how they are named, which agents can use
//! them, and with which key.

use crate::text::{
    first_slash, lemma_first_slash, lowercased, same, split_at_slash, starts_with, str_pairs,
    string_of, strip_prefix, text_of, trim_text, trimmed, without_prefix,
};
use vstd::prelude::*;
use vstd::string::*;

verus! {

// ---------------------------------------------------------------------------
// References
// ---------------------------------------------------------------------------

/// What a reference to a provider's model begins with. It stops the daemon
/// resolving the rest as a registry reference.
pub const REMOTE_PREFIX: &'static str = "llmman.provider/";

/// The reference to a provider's model.
pub open spec fn remote_ref(provider: Seq<char>, model: Seq<char>) -> Seq<char> {
    REMOTE_PREFIX@ + provider.push('/') + model
}

/// The provider and the model of a reference: what stands before and behind
/// the first `/` after the prefix.
pub open spec fn remote_parts(reference: Seq<char>) -> Option<(Seq<char>, Seq<char>)> {
    match without_prefix(reference, REMOTE_PREFIX@) {
        Some(rest) => {
            let n = first_slash(rest);
            if n < rest.len() {
                Some((rest.take(n), rest.skip(n + 1)))
            } else {
                None
            }
        },
        None => None,
    }
}

/// The reference the daemon routes a provider's model on.
pub fn format_remote_ref(provider: &str, model: &str) -> (r: String)
    ensures
        r@ == remote_ref(provider@, model@),
{
    let mut out = REMOTE_PREFIX.to_owned();
    out.append(provider);
    out.push('/');
    out.append(model);
    assert(out@ =~= remote_ref(provider@, model@));
    out
}

/// Whether a reference is to a provider's model.
pub open spec fn is_remote(reference: Seq<char>) -> bool {
    REMOTE_PREFIX@.is_prefix_of(reference)
}

/// Whether a reference is to a provider's model.
pub fn is_remote_ref(reference: &str) -> (r: bool)
    ensures
        r == is_remote(reference@),
{
    starts_with(reference, REMOTE_PREFIX)
}

/// The provider and the model of a reference, none if it is not to a
/// provider's model.
pub fn split_remote_ref(reference: &str) -> (r: Option<(&str, &str)>)
    ensures
        match remote_parts(reference@) {
            Some((provider, model)) => r matches Some(parts) && parts.0@ == provider && parts.1@
                == model,
            None => r is None,
        },
{
    match strip_prefix(reference, REMOTE_PREFIX) {
        Some(rest) => split_at_slash(rest),
        None => None,
    }
}

// ---------------------------------------------------------------------------
// Agents that cannot use a provider
// ---------------------------------------------------------------------------

/// The agents `--provider` cannot drive, and why: a combination llmman
/// cannot actually drive is refused, not offered and then broken at the
/// first request.
pub open spec fn unsupported() -> Seq<(Seq<char>, Seq<char>)> {
    seq![
        ("cline"@, "it selects its own model rather than taking one from llmman"@),
        ("kimi"@, "it selects its own model rather than taking one from llmman"@),
        ("copilot"@, "it has no way to send a provider API key"@),
        ("copilot-cli"@, "it has no way to send a provider API key"@),
        ("gemini"@, "llmman cannot confirm it would send the key here rather than to Google"@),
        ("openclaw"@, "it only takes a model during first-run onboarding"@),
        (
            "grok"@,
            "its model catalog cannot represent llmman's provider or hybrid routing reference"@,
        ),
    ]
}

/// The agents `--provider` cannot drive, and why.
pub fn provider_unsupported() -> (r: Vec<(&'static str, &'static str)>)
    ensures
        str_pairs(r@) == unsupported(),
{
    let mut list: Vec<(&'static str, &'static str)> = Vec::new();
    list.push(("cline", "it selects its own model rather than taking one from llmman"));
    list.push(("kimi", "it selects its own model rather than taking one from llmman"));
    list.push(("copilot", "it has no way to send a provider API key"));
    list.push(("copilot-cli", "it has no way to send a provider API key"));
    list.push(
        ("gemini", "llmman cannot confirm it would send the key here rather than to Google"),
    );
    list.push(("openclaw", "it only takes a model during first-run onboarding"));
    list.push(
        (
            "grok",
            "its model catalog cannot represent llmman's provider or hybrid routing reference",
        ),
    );
    assert(str_pairs(list@) =~= unsupported());
    list
}

/// The first value listed under a name.
pub open spec fn listed_under(
    list: Seq<(Seq<char>, Seq<char>)>,
    name: Seq<char>,
) -> Option<Seq<char>>
    decreases list.len(),
{
    if list.len() == 0 {
        None
    } else if list[0].0 == name {
        Some(list[0].1)
    } else {
        listed_under(list.drop_first(), name)
    }
}

/// Why `--provider` cannot drive an agent, none if it can.
pub fn unsupported_reason(name: &str) -> (r: Option<&'static str>)
    ensures
        text_of(r) == listed_under(unsupported(), name@),
{
    let list = provider_unsupported();
    let ghost all = unsupported();
    assert(all.skip(0) == all);
    for i in 0..list.len()
        invariant
            all == unsupported(),
            str_pairs(list@) == all,
            listed_under(all, name@) == listed_under(all.skip(i as int), name@),
    {
        assert(all[i as int] == (list@[i as int].0@, list@[i as int].1@));
        assert(all.skip(i as int)[0] == all[i as int]);
        assert(all.skip(i as int).drop_first() == all.skip(i + 1));
        if same(list[i].0, name) {
            return Some(list[i].1);
        }
    }
    assert(all.skip(all.len() as int) == Seq::<(Seq<char>, Seq<char>)>::empty());
    None
}

/// The agents llmman configures through a file on disk, which therefore
/// cannot carry the key: writing a real one would persist a credential.
/// They rely on the daemon having the key itself.
pub open spec fn needs_daemon_key(name: Seq<char>) -> bool {
    name == "hermes"@
}

/// Whether an agent relies on the daemon having the key.
pub fn provider_needs_daemon_key(name: &str) -> (r: bool)
    ensures
        r == needs_daemon_key(name@),
{
    same(name, "hermes")
}

/// What is known of the daemon, and of this shell's part in it.
#[derive(Debug)]
pub struct Daemon {
    /// The daemon's address.
    pub server: String,
    /// Where the daemon listens.
    pub bind_addr: String,
    /// The way to it is local, or encrypted.
    pub connects_securely: bool,
    /// Nobody else can reach it.
    pub reachable_only_locally: bool,
    /// The key this shell has for the daemon. There is one where the daemon
    /// authenticates its callers.
    pub client_key: Option<String>,
    /// What tells the daemon that a key is not a credential.
    pub placeholder: String,
}

/// Why an agent cannot be launched for a provider's model.
pub open spec fn provider_refusal(name: Seq<char>, daemon: Daemon) -> Option<Seq<char>> {
    if listed_under(unsupported(), name) is Some {
        Some(
            "--provider does not work with "@ + name + ": "@ + listed_under(
                unsupported(),
                name,
            )->0
                + "\nRun it against a locally served model, or use another integration."@,
        )
    } else if !daemon.connects_securely {
        Some(
            "--provider needs a local llmman serve, or one over TLS: LLMMAN_HOST points at "@
                + daemon.server@
                + ", and the provider key would cross the network in cleartext.\nExport the key where that daemon runs instead."@,
        )
    } else if needs_daemon_key(name) && !daemon.reachable_only_locally
        && daemon.client_key is None {
        Some(
            "--provider does not work with "@ + name + " while llmman serve is bound to "@
                + daemon.bind_addr@ + ": "@ + name
                + " is configured through a file, so it cannot send the key per request, and a daemon reachable from the network will not spend its own.\nBind llmman serve to loopback, or use an integration that carries the key."@,
        )
    } else {
        None
    }
}

/// Refuses to launch an agent for a provider's model where it cannot be
/// driven, where the key would cross the network in cleartext, and where
/// the agent cannot carry the key and the daemon will not spend its own.
pub fn check_provider_supported(integration: &str, daemon: &Daemon) -> (r: Result<(), String>)
    ensures
        match r {
            Ok(_) => provider_refusal(lowercased(integration@), *daemon) is None,
            Err(message) => provider_refusal(lowercased(integration@), *daemon) == Some(message@),
        },
{
    let name = integration.to_lowercase();
    if let Some(why) = unsupported_reason(name.as_str()) {
        let mut out = "--provider does not work with ".to_owned();
        out.append(name.as_str());
        out.append(": ");
        out.append(why);
        out.append("\nRun it against a locally served model, or use another integration.");
        return Err(out);
    }
    if !daemon.connects_securely {
        let mut out =
            "--provider needs a local llmman serve, or one over TLS: LLMMAN_HOST points at ".to_owned();
        out.append(daemon.server.as_str());
        out.append(
            ", and the provider key would cross the network in cleartext.\nExport the key where that daemon runs instead.",
        );
        return Err(out);
    }
    if provider_needs_daemon_key(name.as_str()) && !daemon.reachable_only_locally
        && daemon.client_key.is_none() {
        let mut out = "--provider does not work with ".to_owned();
        out.append(name.as_str());
        out.append(" while llmman serve is bound to ");
        out.append(daemon.bind_addr.as_str());
        out.append(": ");
        out.append(name.as_str());
        out.append(
            " is configured through a file, so it cannot send the key per request, and a daemon reachable from the network will not spend its own.\nBind llmman serve to loopback, or use an integration that carries the key.",
        );
        return Err(out);
    }
    Ok(())
}

// ---------------------------------------------------------------------------
// The model and the key
// ---------------------------------------------------------------------------

/// What an agent authenticates with when no provider key travels.
pub open spec fn daemons_key(daemon: Daemon) -> Seq<char> {
    match daemon.client_key {
        Some(key) => key@,
        None => daemon.placeholder@,
    }
}

/// What an agent authenticates with when no provider key travels: the
/// daemon's key when this shell has one, else the placeholder.
pub fn integration_key(daemon: &Daemon) -> (r: String)
    ensures
        r@ == daemons_key(*daemon),
{
    match &daemon.client_key {
        Some(key) => key.clone(),
        None => daemon.placeholder.clone(),
    }
}

/// What the daemon says of a provider, and what this shell has for it.
#[derive(Debug)]
pub struct ProviderEntry {
    pub name: String,
    /// The daemon has a key, and would spend it for a request without one.
    pub key_usable: bool,
    /// The provider takes no key.
    pub key_optional: bool,
    /// The daemon's key serves a request that could carry one.
    pub daemon_key_usable: bool,
    /// The key this shell has for the provider.
    pub client_key: Option<String>,
    /// How to give a key.
    pub key_hint: String,
    /// Examples of the provider's models.
    pub example_models: String,
}

/// What a launch uses of a provider.
#[derive(Debug)]
pub struct Selection {
    /// The reference the daemon routes on.
    pub reference: String,
    /// The key the agent authenticates with.
    pub key: String,
    /// What is said before the agent takes over.
    pub warning: Option<String>,
}

/// Where the key for a provider's model comes from, or why there is none.
pub enum KeyChoice {
    /// The key of this shell travels with each request.
    Own(Seq<char>),
    /// The daemon spends its own, or needs none; said first if it stands in
    /// for one this shell lacks.
    Daemons { said: bool },
    /// The agent cannot carry a key, and the daemon has none to spend.
    MissingInFile,
    /// The daemon's own key is the only one that travels, and the daemon
    /// has none for the provider.
    MissingBehindDaemon,
    /// There is no key.
    Missing,
}

/// The key for a provider's model. It travels with each request, unless
/// the agent cannot carry it, or the daemon takes it for its own: the
/// daemon's is the only one then.
pub open spec fn key_choice(
    key_travels_per_request: bool,
    entry: ProviderEntry,
    daemon: Daemon,
) -> KeyChoice {
    if !key_travels_per_request {
        if entry.key_usable || entry.key_optional {
            KeyChoice::Daemons { said: false }
        } else {
            KeyChoice::MissingInFile
        }
    } else if daemon.client_key is None && entry.client_key is Some {
        KeyChoice::Own(entry.client_key->0@)
    } else if entry.daemon_key_usable {
        KeyChoice::Daemons { said: daemon.client_key is None }
    } else if entry.key_optional {
        KeyChoice::Daemons { said: false }
    } else if daemon.client_key is Some {
        KeyChoice::MissingBehindDaemon
    } else {
        KeyChoice::Missing
    }
}

/// The model that is asked for, none if it is blank.
pub open spec fn wanted_model(model: Option<Seq<char>>) -> Option<Seq<char>> {
    match model {
        Some(model) => if trimmed(model).len() > 0 {
            Some(trimmed(model))
        } else {
            None
        },
        None => None,
    }
}

/// Why a provider's model cannot be used.
pub open spec fn selection_refusal(
    provider: Seq<char>,
    model: Option<Seq<char>>,
    integration: Seq<char>,
    key_travels_per_request: bool,
    entry: ProviderEntry,
    daemon: Daemon,
) -> Option<Seq<char>> {
    if wanted_model(model) is None {
        Some("--provider "@ + provider + " also needs --model\n\n"@ + entry.example_models@)
    } else {
        match key_choice(key_travels_per_request, entry, daemon) {
            KeyChoice::MissingInFile => Some(
                integration
                    + " is configured through a file, so it cannot send an API key: llmman serve needs a key of its own, and must be bound to loopback (or require an API key) to spend it.\nWhere the daemon runs, "@
                    + entry.key_hint@ + ", then restart it."@,
            ),
            KeyChoice::MissingBehindDaemon => Some(
                "llmman serve requires an API key, so "@ + integration
                    + " sends that one and cannot also carry a key for "@ + entry.name@
                    + ": llmman serve needs a key of its own.\nWhere the daemon runs, "@
                    + entry.key_hint@ + ", then restart it."@,
            ),
            KeyChoice::Missing => Some(
                "no API key for "@ + entry.name@ + " \u{2014} "@ + entry.key_hint@,
            ),
            _ => None,
        }
    }
}

/// What is said of a daemon's key that stands in for this shell's.
pub open spec fn stand_in_warning(name: Seq<char>) -> Seq<char> {
    "[llmman] warning: no API key for "@ + name + " here; using the key llmman serve has"@
}

/// Whether this is what a launch uses of a provider.
pub open spec fn is_selection(
    selection: Selection,
    provider: Seq<char>,
    model: Option<Seq<char>>,
    key_travels_per_request: bool,
    entry: ProviderEntry,
    daemon: Daemon,
) -> bool {
    &&& wanted_model(model) matches Some(model) && selection.reference@ == remote_ref(
        provider,
        model,
    )
    &&& match key_choice(key_travels_per_request, entry, daemon) {
        KeyChoice::Own(key) => selection.key@ == key && selection.warning is None,
        KeyChoice::Daemons { said } => selection.key@ == daemons_key(daemon) && string_of(
            selection.warning,
        ) == if said {
            Some(stand_in_warning(entry.name@))
        } else {
            None
        },
        _ => false,
    }
}

/// Whether this is what a launch gets for asking for a provider's model.
pub open spec fn is_resolved(
    r: Result<Selection, String>,
    provider: Seq<char>,
    model: Option<Seq<char>>,
    integration: Seq<char>,
    key_travels_per_request: bool,
    entry: ProviderEntry,
    daemon: Daemon,
) -> bool {
    let refusal = selection_refusal(
        provider,
        model,
        integration,
        key_travels_per_request,
        entry,
        daemon,
    );
    match r {
        Ok(selection) => refusal is None && is_selection(
            selection,
            provider,
            model,
            key_travels_per_request,
            entry,
            daemon,
        ),
        Err(message) => refusal == Some(message@),
    }
}

/// What to say of a missing key: `head`, the agent or provider, and how to
/// give the daemon one.
fn ask_for_daemon_key(head: String, entry: &ProviderEntry) -> (r: String)
    ensures
        r@ == head@ + entry.key_hint@ + ", then restart it."@,
{
    let mut out = head;
    out.append(entry.key_hint.as_str());
    out.append(", then restart it.");
    out
}

/// The model that is asked for, none if it is blank.
pub fn model_wanted(model: Option<&str>) -> (r: Option<String>)
    ensures
        string_of(r) == wanted_model(text_of(model)),
{
    match model {
        Some(model) => {
            let model = trim_text(model);
            if model.as_str().is_empty() {
                None
            } else {
                Some(model)
            }
        },
        None => None,
    }
}

/// Validates `--provider` and `--model` against what the daemon says of the
/// provider: the reference the daemon routes on, and the key `integration`
/// should authenticate with. Failing here names what is missing in llmman's
/// own output, before the agent takes over the terminal.
///
/// `key_travels_per_request` is false for the agents that are configured
/// through a file. This shell having a key is beside the point for those.
pub fn resolve_provider_model(
    provider: &str,
    model: Option<&str>,
    integration: &str,
    key_travels_per_request: bool,
    entry: &ProviderEntry,
    daemon: &Daemon,
) -> (r: Result<Selection, String>)
    ensures
        is_resolved(
            r,
            provider@,
            text_of(model),
            integration@,
            key_travels_per_request,
            *entry,
            *daemon,
        ),
{
    let model = match model_wanted(model) {
        Some(model) => model,
        None => {
            let mut out = "--provider ".to_owned();
            out.append(provider);
            out.append(" also needs --model\n\n");
            out.append(entry.example_models.as_str());
            return Err(out);
        },
    };
    let reference = format_remote_ref(provider, model.as_str());
    if !key_travels_per_request {
        if entry.key_usable || entry.key_optional {
            return Ok(Selection { reference, key: integration_key(daemon), warning: None });
        }
        let mut out = integration.to_owned();
        out.append(
            " is configured through a file, so it cannot send an API key: llmman serve needs a key of its own, and must be bound to loopback (or require an API key) to spend it.\nWhere the daemon runs, ",
        );
        return Err(ask_for_daemon_key(out, entry));
    }
    let daemon_authenticates = daemon.client_key.is_some();
    if !daemon_authenticates {
        if let Some(key) = &entry.client_key {
            return Ok(Selection { reference, key: key.clone(), warning: None });
        }
    }
    if entry.daemon_key_usable {
        let warning = if daemon_authenticates {
            None
        } else {
            let mut out = "[llmman] warning: no API key for ".to_owned();
            out.append(entry.name.as_str());
            out.append(" here; using the key llmman serve has");
            Some(out)
        };
        return Ok(Selection { reference, key: integration_key(daemon), warning });
    }
    if entry.key_optional {
        return Ok(Selection { reference, key: integration_key(daemon), warning: None });
    }
    if daemon_authenticates {
        let mut out = "llmman serve requires an API key, so ".to_owned();
        out.append(integration);
        out.append(" sends that one and cannot also carry a key for ");
        out.append(entry.name.as_str());
        out.append(": llmman serve needs a key of its own.\nWhere the daemon runs, ");
        return Err(ask_for_daemon_key(out, entry));
    }
    let mut out = "no API key for ".to_owned();
    out.append(entry.name.as_str());
    out.append(" \u{2014} ");
    out.append(entry.key_hint.as_str());
    Err(out)
}

// ---------------------------------------------------------------------------
// Laws
// ---------------------------------------------------------------------------

/// A reference gives back the provider and the model it was made of. An id
/// of a provider has no `/`; a model may.
pub proof fn law_a_reference_names_its_model(provider: Seq<char>, model: Seq<char>)
    requires
        forall|i: int| 0 <= i < provider.len() ==> provider[i] != '/',
    ensures
        remote_parts(remote_ref(provider, model)) == Some((provider, model)),
        REMOTE_PREFIX@.is_prefix_of(remote_ref(provider, model)),
{
    let reference = remote_ref(provider, model);
    let rest = provider.push('/') + model;
    assert(reference =~= REMOTE_PREFIX@ + rest);
    assert(reference.skip(REMOTE_PREFIX@.len() as int) =~= rest);
    assert(reference.subrange(0, REMOTE_PREFIX@.len() as int) =~= REMOTE_PREFIX@);
    lemma_first_slash(rest, provider.len() as int);
    assert(rest.take(provider.len() as int) =~= provider);
    assert(rest.skip(provider.len() as int + 1) =~= model);
}

/// A key of the provider's travels only where the daemon authenticates
/// nobody, and only with an agent that sends it per request: every other
/// launch is handed the daemon's own key or the placeholder.
pub proof fn law_a_provider_key_only_travels_per_request(
    selection: Selection,
    provider: Seq<char>,
    model: Option<Seq<char>>,
    key_travels_per_request: bool,
    entry: ProviderEntry,
    daemon: Daemon,
)
    requires
        is_selection(selection, provider, model, key_travels_per_request, entry, daemon),
    ensures
        !key_travels_per_request || daemon.client_key is Some ==> selection.key@ == daemons_key(
            daemon,
        ),
        daemon.client_key matches Some(key) ==> selection.key@ == key@,
        selection.key@ == daemons_key(daemon) || (entry.client_key matches Some(key)
            && selection.key@ == key@),
{
}

/// An agent that is refused outright is refused whatever the daemon is, and
/// one that is refused for its key alone is not among them.
pub proof fn law_a_refusal_has_one_reason(name: Seq<char>, daemon: Daemon)
    ensures
        listed_under(unsupported(), name) is Some ==> provider_refusal(name, daemon) is Some,
        needs_daemon_key(name) ==> listed_under(unsupported(), name) is None,
        !daemon.connects_securely ==> provider_refusal(name, daemon) is Some,
{
    if needs_daemon_key(name) {
        reveal_strlit("hermes");
        reveal_strlit("cline");
        reveal_strlit("kimi");
        reveal_strlit("copilot");
        reveal_strlit("copilot-cli");
        reveal_strlit("gemini");
        reveal_strlit("openclaw");
        reveal_strlit("grok");
        assert("hermes"@.len() == 6 && "hermes"@[0] == 'h');
        assert("gemini"@.len() == 6 && "gemini"@[0] == 'g');
        assert("cline"@.len() == 5);
        assert("kimi"@.len() == 4);
        assert("copilot"@.len() == 7);
        assert("copilot-cli"@.len() == 11);
        assert("openclaw"@.len() == 8);
        assert("grok"@.len() == 4);
        reveal_with_fuel(listed_under, 8);
    }
}

/// A key this shell has is the one that travels, whatever else is known of
/// the provider: with an agent that sends a key per request, to a daemon
/// that authenticates nobody. Nothing is said then.
pub proof fn law_a_key_of_this_shell_travels(
    r: Result<Selection, String>,
    provider: Seq<char>,
    model: Option<Seq<char>>,
    integration: Seq<char>,
    key_travels_per_request: bool,
    entry: ProviderEntry,
    daemon: Daemon,
)
    requires
        is_resolved(
            r,
            provider,
            model,
            integration,
            key_travels_per_request,
            entry,
            daemon,
        ),
        key_travels_per_request,
        daemon.client_key is None,
        entry.client_key is Some,
        model is Some,
        trimmed(model->0).len() > 0,
    ensures
        r matches Ok(selection) && selection.key@ == entry.client_key->0@ && selection.warning
            is None,
{
}

/// The key that is handed over: this shell's for the provider where it
/// travels, else this shell's for the daemon, else the placeholder.
pub proof fn law_the_key_that_is_handed_over(
    r: Result<Selection, String>,
    provider: Seq<char>,
    model: Option<Seq<char>>,
    integration: Seq<char>,
    key_travels_per_request: bool,
    entry: ProviderEntry,
    daemon: Daemon,
)
    requires
        is_resolved(
            r,
            provider,
            model,
            integration,
            key_travels_per_request,
            entry,
            daemon,
        ),
    ensures
        r matches Ok(selection) ==> {
            let own = key_travels_per_request && daemon.client_key is None && entry.client_key
                is Some;
            &&& own ==> selection.key@ == entry.client_key->0@
            &&& !own && daemon.client_key is Some ==> selection.key@ == daemon.client_key->0@
            &&& !own && daemon.client_key is None ==> selection.key@ == daemon.placeholder@
        },
{
}

/// That this shell has no key is said exactly where it has none that could
/// travel and the daemon's stands in for it, and it names the provider.
pub proof fn law_a_warning_is_of_a_missing_key(
    r: Result<Selection, String>,
    provider: Seq<char>,
    model: Option<Seq<char>>,
    integration: Seq<char>,
    key_travels_per_request: bool,
    entry: ProviderEntry,
    daemon: Daemon,
)
    requires
        is_resolved(
            r,
            provider,
            model,
            integration,
            key_travels_per_request,
            entry,
            daemon,
        ),
    ensures
        r matches Ok(selection) ==> {
            &&& selection.warning is Some <==> key_travels_per_request && entry.client_key is None
                && daemon.client_key is None && entry.daemon_key_usable
            &&& selection.warning matches Some(line) ==> line@
                == "[llmman] warning: no API key for "@ + entry.name@
                + " here; using the key llmman serve has"@
        },
{
}

/// A launch is refused exactly where it names no model, or no key would
/// reach the provider: none that the agent can send, none that the daemon
/// would spend, and the provider wants one.
pub proof fn law_a_refusal_is_for_want_of_a_model_or_a_key(
    r: Result<Selection, String>,
    provider: Seq<char>,
    model: Option<Seq<char>>,
    integration: Seq<char>,
    key_travels_per_request: bool,
    entry: ProviderEntry,
    daemon: Daemon,
)
    requires
        is_resolved(
            r,
            provider,
            model,
            integration,
            key_travels_per_request,
            entry,
            daemon,
        ),
    ensures
        r is Err <==> {
            let named = model is Some && trimmed(model->0).len() > 0;
            let own = daemon.client_key is None && entry.client_key is Some;
            ||| !named
            ||| key_travels_per_request && !own && !entry.daemon_key_usable && !entry.key_optional
            ||| !key_travels_per_request && !entry.key_usable && !entry.key_optional
        },
{
}

/// What a refusal says: which flag is missing and what to choose from, or
/// who lacks the key and how to give one.
pub proof fn law_a_refusal_says_what_is_missing(
    r: Result<Selection, String>,
    provider: Seq<char>,
    model: Option<Seq<char>>,
    integration: Seq<char>,
    key_travels_per_request: bool,
    entry: ProviderEntry,
    daemon: Daemon,
)
    requires
        is_resolved(
            r,
            provider,
            model,
            integration,
            key_travels_per_request,
            entry,
            daemon,
        ),
    ensures
        r matches Err(message) ==> {
            let named = model is Some && trimmed(model->0).len() > 0;
            &&& !named ==> message@ == "--provider "@ + provider + " also needs --model\n\n"@
                + entry.example_models@
            &&& named && !key_travels_per_request ==> message@ == integration
                + " is configured through a file, so it cannot send an API key: llmman serve needs a key of its own, and must be bound to loopback (or require an API key) to spend it.\nWhere the daemon runs, "@
                + entry.key_hint@ + ", then restart it."@
            &&& named && key_travels_per_request && daemon.client_key is Some ==> message@
                == "llmman serve requires an API key, so "@ + integration
                + " sends that one and cannot also carry a key for "@ + entry.name@
                + ": llmman serve needs a key of its own.\nWhere the daemon runs, "@
                + entry.key_hint@ + ", then restart it."@
            &&& named && key_travels_per_request && daemon.client_key is None ==> message@
                == "no API key for "@ + entry.name@ + " \u{2014} "@ + entry.key_hint@
        },
{
}

/// A provider's model goes by its provider and its name, blanks around it
/// apart, behind the prefix that routes it.
pub proof fn law_a_providers_model_goes_by_its_name(
    r: Result<Selection, String>,
    provider: Seq<char>,
    model: Option<Seq<char>>,
    integration: Seq<char>,
    key_travels_per_request: bool,
    entry: ProviderEntry,
    daemon: Daemon,
)
    requires
        is_resolved(
            r,
            provider,
            model,
            integration,
            key_travels_per_request,
            entry,
            daemon,
        ),
    ensures
        r matches Ok(selection) ==> model is Some && selection.reference@
            == "llmman.provider/"@ + provider + seq!['/'] + trimmed(model->0),
        r matches Ok(selection) ==> (forall|i: int|
            0 <= i < provider.len() ==> provider[i] != '/') ==> remote_parts(selection.reference@)
            == Some((provider, trimmed(model->0))),
{
    if r is Ok {
        let name = trimmed(model->0);
        assert("llmman.provider/"@ + provider + seq!['/'] + name =~= remote_ref(provider, name));
        if forall|i: int| 0 <= i < provider.len() ==> provider[i] != '/' {
            law_a_reference_names_its_model(provider, name);
        }
    }
}

/// A reference is split at the first `/` behind the prefix and nowhere
/// else: the parts make it up again, and the first of them has no `/`.
pub proof fn law_the_parts_of_a_reference_make_it_up(reference: Seq<char>)
    ensures
        remote_parts(reference) matches Some(parts) ==> {
            &&& reference == "llmman.provider/"@ + parts.0 + seq!['/'] + parts.1
            &&& forall|i: int| 0 <= i < parts.0.len() ==> parts.0[i] != '/'
        },
        remote_parts(reference) is None ==> forall|provider: Seq<char>, model: Seq<char>|
            reference != #[trigger] ("llmman.provider/"@ + provider + seq!['/'] + model),
{
    if let Some(parts) = remote_parts(reference) {
        let rest = reference.skip(REMOTE_PREFIX@.len() as int);
        lemma_up_to_the_first_slash(rest);
        assert(reference =~= "llmman.provider/"@ + parts.0 + seq!['/'] + parts.1);
    } else {
        assert forall|provider: Seq<char>, model: Seq<char>| reference
            != #[trigger] ("llmman.provider/"@ + provider + seq!['/'] + model) by {
            if reference == "llmman.provider/"@ + provider + seq!['/'] + model {
                let rest = reference.skip(REMOTE_PREFIX@.len() as int);
                assert(reference.subrange(0, REMOTE_PREFIX@.len() as int) =~= REMOTE_PREFIX@);
                assert(rest =~= provider + seq!['/'] + model);
                lemma_up_to_the_first_slash(rest);
                assert(rest[provider.len() as int] == '/');
            }
        }
    }
}

/// Nothing before the first `/` is one, and without one nothing is.
proof fn lemma_up_to_the_first_slash(s: Seq<char>)
    ensures
        0 <= first_slash(s) <= s.len(),
        forall|i: int| 0 <= i < first_slash(s) ==> s[i] != '/',
        first_slash(s) < s.len() ==> s[first_slash(s)] == '/',
    decreases s.len(),
{
    if s.len() > 0 && s[0] != '/' {
        let rest = s.drop_first();
        lemma_up_to_the_first_slash(rest);
        assert forall|i: int| 0 <= i < first_slash(s) implies s[i] != '/' by {
            if i > 0 {
                assert(rest[i - 1] != '/');
            }
        }
    }
}

/// Who is refused a provider: the agents it cannot drive, everyone where
/// the key would cross the network in cleartext, and hermes, which is
/// configured through a file, where others reach the daemon and it
/// authenticates nobody.
pub proof fn law_who_is_refused_a_provider(name: Seq<char>, daemon: Daemon)
    ensures
        listed_under(unsupported(), name) is Some <==> (name == "cline"@ || name == "kimi"@ || name
            == "copilot"@ || name == "copilot-cli"@ || name == "gemini"@ || name == "openclaw"@
            || name == "grok"@),
        provider_refusal(name, daemon) is Some <==> (name == "cline"@ || name == "kimi"@ || name
            == "copilot"@ || name == "copilot-cli"@ || name == "gemini"@ || name == "openclaw"@
            || name == "grok"@ || !daemon.connects_securely || (name == "hermes"@
            && !daemon.reachable_only_locally && daemon.client_key is None)),
{
    reveal_with_fuel(listed_under, 8);
    let all = unsupported();
    assert(all.drop_first().drop_first().drop_first().drop_first().drop_first().drop_first().drop_first()
        =~= Seq::<(Seq<char>, Seq<char>)>::empty());
}

/// What a refusal of a provider says: the agent and why, or where the key
/// would have gone, or where the daemon listens.
pub proof fn law_a_refused_provider_says_why(name: Seq<char>, daemon: Daemon)
    ensures
        provider_refusal(name, daemon) matches Some(message) ==> {
            let reason = listed_under(unsupported(), name);
            &&& reason is Some ==> message == "--provider does not work with "@ + name + ": "@
                + reason->0
                + "\nRun it against a locally served model, or use another integration."@
            &&& reason is None && !daemon.connects_securely ==> message
                == "--provider needs a local llmman serve, or one over TLS: LLMMAN_HOST points at "@
                + daemon.server@
                + ", and the provider key would cross the network in cleartext.\nExport the key where that daemon runs instead."@
            &&& reason is None && daemon.connects_securely ==> message
                == "--provider does not work with "@ + name + " while llmman serve is bound to "@
                + daemon.bind_addr@ + ": "@ + name
                + " is configured through a file, so it cannot send the key per request, and a daemon reachable from the network will not spend its own.\nBind llmman serve to loopback, or use an integration that carries the key."@
        },
        name == "cline"@ || name == "kimi"@ ==> listed_under(unsupported(), name) == Some(
            "it selects its own model rather than taking one from llmman"@,
        ),
        name == "copilot"@ || name == "copilot-cli"@ ==> listed_under(unsupported(), name) == Some(
            "it has no way to send a provider API key"@,
        ),
        name == "gemini"@ ==> listed_under(unsupported(), name) == Some(
            "llmman cannot confirm it would send the key here rather than to Google"@,
        ),
        name == "openclaw"@ ==> listed_under(unsupported(), name) == Some(
            "it only takes a model during first-run onboarding"@,
        ),
        name == "grok"@ ==> listed_under(unsupported(), name) == Some(
            "its model catalog cannot represent llmman's provider or hybrid routing reference"@,
        ),
{
    reveal_with_fuel(listed_under, 8);
    reveal_strlit("cline");
    reveal_strlit("kimi");
    reveal_strlit("copilot");
    reveal_strlit("copilot-cli");
    reveal_strlit("gemini");
    reveal_strlit("openclaw");
    reveal_strlit("grok");
    assert("cline"@.len() == 5);
    assert("kimi"@.len() == 4 && "kimi"@[0] == 'k');
    assert("copilot"@.len() == 7);
    assert("copilot-cli"@.len() == 11);
    assert("gemini"@.len() == 6);
    assert("openclaw"@.len() == 8);
    assert("grok"@.len() == 4 && "grok"@[0] == 'g');
}

/// A model is asked for where it is named and not blank, and then without
/// the blanks around it.
pub proof fn law_a_blank_model_is_none(model: Option<Seq<char>>)
    ensures
        wanted_model(model) is None <==> model is None || trimmed(model->0).len() == 0,
        wanted_model(model) matches Some(name) ==> name == trimmed(model->0),
{
}

/// A reference is to a provider's model exactly where it begins as those
/// llmman writes do, and then it has a provider and a model.
pub proof fn law_which_references_are_to_providers(rest: Seq<char>, reference: Seq<char>)
    ensures
        is_remote("llmman.provider/"@ + rest),
        is_remote(reference) ==> reference.len() >= 16 && reference.take(16)
            == "llmman.provider/"@,
        remote_parts(reference) is Some ==> is_remote(reference),
        is_remote(reference) && reference.skip(16).contains('/') ==> remote_parts(
            reference,
        ) is Some,
{
    reveal_strlit("llmman.provider/");
    let all = "llmman.provider/"@ + rest;
    assert(all.subrange(0, 16) =~= "llmman.provider/"@);
    if is_remote(reference) {
        assert(reference.take(16) =~= reference.subrange(0, 16));
        let tail = reference.skip(16);
        if tail.contains('/') {
            let n = tail.index_of('/');
            assert(tail[n] == '/');
            lemma_a_slash_is_found(tail, n);
        }
    }
}

/// The first `/` stands no further than any other.
proof fn lemma_a_slash_is_found(s: Seq<char>, n: int)
    requires
        0 <= n < s.len(),
        s[n] == '/',
    ensures
        first_slash(s) <= n,
    decreases s.len(),
{
    if s[0] != '/' {
        lemma_a_slash_is_found(s.drop_first(), n - 1);
    }
}

} // verus!

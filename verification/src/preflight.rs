//! What is checked of a launch before anything is started.

use crate::args::{flag_given, has_flag};
use crate::providers::{model_wanted, wanted_model};
use crate::text::{is_among, listed, lowercased, push_text, string_of, text_of, texts, trimmed};
use vstd::prelude::*;
use vstd::string::*;

verus! {

/// The agents that cannot be launched without `--model`: each would send a
/// default of its own to the daemon, or refuse with advice that does not
/// apply.
pub open spec fn required() -> Seq<Seq<char>> {
    seq!["qwen"@, "dsh"@, "agy"@, "goose"@, "grok"@]
}

/// The agents whose launcher yields to a `--model` after `--`. Not dsh,
/// which takes no such flag.
pub open spec fn forwarded() -> Seq<Seq<char>> {
    seq!["qwen"@, "goose"@, "grok"@]
}

/// The agents that cannot be launched without `--model`.
pub fn model_required() -> (r: Vec<String>)
    ensures
        texts(r@) == required(),
{
    let mut out: Vec<String> = Vec::new();
    push_text(&mut out, "qwen");
    push_text(&mut out, "dsh");
    push_text(&mut out, "agy");
    push_text(&mut out, "goose");
    push_text(&mut out, "grok");
    assert(texts(out@) =~= required());
    out
}

/// The agents whose launcher yields to a `--model` after `--`.
pub fn model_flag_forwarded() -> (r: Vec<String>)
    ensures
        texts(r@) == forwarded(),
{
    let mut out: Vec<String> = Vec::new();
    push_text(&mut out, "qwen");
    push_text(&mut out, "goose");
    push_text(&mut out, "grok");
    assert(texts(out@) =~= forwarded());
    out
}

/// Why an agent cannot be launched with what it was given for a model.
pub open spec fn model_refusal(
    name: Seq<char>,
    model: Option<Seq<char>>,
    provider: Option<Seq<char>>,
) -> Option<Seq<char>> {
    if listed(required(), name) && wanted_model(model) is None {
        Some(
            name + " needs a model: llmman launch "@ + name + (match provider {
                Some(provider) => " --provider "@ + provider,
                None => Seq::empty(),
            }) + " --model <model>"@,
        )
    } else {
        None
    }
}

/// What is said of a model of the caller's own that wins over the one
/// llmman resolves.
pub open spec fn model_warning(
    name: Seq<char>,
    model: Option<Seq<char>>,
    extra: Seq<Seq<char>>,
) -> Option<Seq<char>> {
    if listed(required(), name) && listed(forwarded(), name) && flag_given(
        extra,
        "--model"@,
        Some("-m"@),
    ) {
        match wanted_model(model) {
            Some(model) => Some(
                "[llmman] "@ + name + ": the --model after -- wins over --model "@ + model
                    + ", the one llmman resolved"@,
            ),
            None => None,
        }
    } else {
        None
    }
}

/// Refuses a launch without a model of an agent that needs one, under
/// `--provider` too. A second `--model` after `--` is the caller's to win
/// for the agents that yield to it, but llmman resolves and preloads the
/// first one, so that gets said: it is the warning returned.
pub fn check_model_flag(
    integration: &str,
    model: Option<&str>,
    provider: Option<&str>,
    extra_args: &[String],
) -> (r: Result<Option<String>, String>)
    ensures
        match r {
            Ok(warning) => model_refusal(
                lowercased(integration@),
                text_of(model),
                text_of(provider),
            ) is None && string_of(warning) == model_warning(
                lowercased(integration@),
                text_of(model),
                texts(extra_args@),
            ),
            Err(message) => model_refusal(
                lowercased(integration@),
                text_of(model),
                text_of(provider),
            ) == Some(message@),
        },
{
    let name = integration.to_lowercase();
    if !is_among(&model_required(), name.as_str()) {
        return Ok(None);
    }
    let model = match model_wanted(model) {
        Some(model) => model,
        None => {
            let mut out = name.clone();
            out.append(" needs a model: llmman launch ");
            out.append(name.as_str());
            if let Some(provider) = provider {
                out.append(" --provider ");
                out.append(provider);
            }
            out.append(" --model <model>");
            assert(out@ =~= name@ + " needs a model: llmman launch "@ + name@ + (match text_of(
                provider,
            ) {
                Some(provider) => " --provider "@ + provider,
                None => Seq::empty(),
            }) + " --model <model>"@);
            return Err(out);
        },
    };
    if is_among(&model_flag_forwarded(), name.as_str()) && has_flag(
        extra_args,
        "--model",
        Some("-m"),
    ) {
        let mut out = "[llmman] ".to_owned();
        out.append(name.as_str());
        out.append(": the --model after -- wins over --model ");
        out.append(model.as_str());
        out.append(", the one llmman resolved");
        return Ok(Some(out));
    }
    Ok(None)
}

// ---------------------------------------------------------------------------
// Laws
// ---------------------------------------------------------------------------

/// An agent that yields to the caller's model is one that needs a model:
/// there is always one of llmman's for it to win over.
pub proof fn law_who_yields_needs_a_model(name: Seq<char>)
    requires
        listed(forwarded(), name),
    ensures
        listed(required(), name),
{
    assert(required()[0] == "qwen"@);
    assert(required()[3] == "goose"@);
    assert(required()[4] == "grok"@);
}

/// A provider does not spare an agent its model: what is refused without
/// one is refused with one too.
pub proof fn law_a_provider_does_not_replace_a_model(
    name: Seq<char>,
    model: Option<Seq<char>>,
    provider: Option<Seq<char>>,
)
    ensures
        (model_refusal(name, model, provider) is Some) == (model_refusal(name, model, None) is Some),
{
}

/// Who is refused without a model: qwen, dsh, agy, goose and grok, and they
/// only where none is named or it is blank. The refusal says what to add.
pub proof fn law_who_is_refused_without_a_model(
    name: Seq<char>,
    model: Option<Seq<char>>,
    provider: Option<Seq<char>>,
)
    ensures
        model_refusal(name, model, provider) is Some <==> (name == "qwen"@ || name == "dsh"@ || name
            == "agy"@ || name == "goose"@ || name == "grok"@) && (model is None || trimmed(
            model->0,
        ).len() == 0),
        model_refusal(name, model, provider) matches Some(message) ==> message == name
            + " needs a model: llmman launch "@ + name + (if provider is Some {
            " --provider "@ + provider->0
        } else {
            Seq::empty()
        }) + " --model <model>"@,
{
    let all = required();
    assert(all[0] == "qwen"@ && all[1] == "dsh"@ && all[2] == "agy"@ && all[3] == "goose"@
        && all[4] == "grok"@);
}

/// Who is told that a model of the caller's wins: qwen, goose and grok,
/// where both llmman and the caller's arguments have one. It names the one
/// that loses.
pub proof fn law_who_is_told_whose_model_wins(
    name: Seq<char>,
    model: Option<Seq<char>>,
    extra: Seq<Seq<char>>,
)
    ensures
        model_warning(name, model, extra) is Some <==> (name == "qwen"@ || name == "goose"@ || name
            == "grok"@) && flag_given(extra, "--model"@, Some("-m"@)) && model is Some && trimmed(
            model->0,
        ).len() > 0,
        model_warning(name, model, extra) matches Some(line) ==> line == "[llmman] "@ + name
            + ": the --model after -- wins over --model "@ + trimmed(model->0)
            + ", the one llmman resolved"@,
{
    let all = required();
    assert(all[0] == "qwen"@ && all[3] == "goose"@ && all[4] == "grok"@);
    let some = forwarded();
    assert(some[0] == "qwen"@ && some[1] == "goose"@ && some[2] == "grok"@);
}

} // verus!

//! Grok Build: its environment, its arguments, and the configuration llmman
//! keeps for it.

use crate::args::{flag_given, has_flag};
use crate::text::{extend_texts, push_text, str_pairs, texts};
use vstd::prelude::*;
use vstd::string::*;

verus! {

/// The variable the model's entry reads its key from. A model's credential
/// outranks both a signed-in session and the global key, without putting
/// the key on disk.
pub const GROK_API_KEY_ENV: &'static str = "LLMMAN_GROK_API_KEY";

// ---------------------------------------------------------------------------
// The environment
// ---------------------------------------------------------------------------

/// What Grok's environment is set to.
pub open spec fn grok_vars(
    model: Seq<char>,
    api_key: Seq<char>,
    base_url: Seq<char>,
    models_url: Seq<char>,
    home: Seq<char>,
) -> Seq<(Seq<char>, Seq<char>)> {
    seq![
        ("GROK_HOME"@, home),
        ("GROK_MODELS_BASE_URL"@, base_url),
        ("GROK_MODELS_LIST_URL"@, models_url),
        ("GROK_DEFAULT_MODEL"@, model),
        ("GROK_WEB_SEARCH_MODEL"@, model),
        ("GROK_SESSION_SUMMARY_MODEL"@, model),
        ("GROK_IMAGE_DESCRIPTION_MODEL"@, model),
        ("GROK_PROMPT_SUGGESTIONS_MODEL"@, model),
        (GROK_API_KEY_ENV@, api_key),
        ("XAI_API_KEY"@, api_key),
    ]
}

/// The environment that points Grok's catalog, its inference and each of
/// its auxiliary models at llmman. The list URL overrides an inherited
/// catalog, and the global key is the one Grok fetches the catalog with.
pub fn grok_env<'a>(
    model: &'a str,
    api_key: &'a str,
    base_url: &'a str,
    models_url: &'a str,
    home: &'a str,
) -> (r: Vec<(&'a str, &'a str)>)
    ensures
        str_pairs(r@) == grok_vars(model@, api_key@, base_url@, models_url@, home@),
{
    let mut env: Vec<(&'a str, &'a str)> = Vec::new();
    env.push(("GROK_HOME", home));
    env.push(("GROK_MODELS_BASE_URL", base_url));
    env.push(("GROK_MODELS_LIST_URL", models_url));
    env.push(("GROK_DEFAULT_MODEL", model));
    env.push(("GROK_WEB_SEARCH_MODEL", model));
    env.push(("GROK_SESSION_SUMMARY_MODEL", model));
    env.push(("GROK_IMAGE_DESCRIPTION_MODEL", model));
    env.push(("GROK_PROMPT_SUGGESTIONS_MODEL", model));
    env.push((GROK_API_KEY_ENV, api_key));
    env.push(("XAI_API_KEY", api_key));
    assert(str_pairs(env@) =~= grok_vars(model@, api_key@, base_url@, models_url@, home@));
    env
}

// ---------------------------------------------------------------------------
// The configuration
// ---------------------------------------------------------------------------

/// The text `toml_edit` writes for a document of one table with one table
/// in it, which has string entries.
pub uninterp spec fn nested_table_text(
    outer: Seq<char>,
    inner: Seq<char>,
    entries: Seq<(Seq<char>, Seq<char>)>,
) -> Seq<char>;

/// `toml_edit::DocumentMut`'s own text depends on the keys and values put
/// into it alone, here the entries set in a table by `Table`'s index, that
/// table inserted in another, and that one in the document. How the text is
/// laid out is left unsaid.
#[verifier::external_body]
fn nested_table(outer: &str, inner: &str, entries: &Vec<(&str, &str)>) -> (r: String)
    ensures
        r@ == nested_table_text(outer@, inner@, str_pairs(entries@)),
{
    let mut entry = toml_edit::Table::new();
    for (key, value) in entries {
        entry[*key] = toml_edit::value(*value);
    }
    let mut table = toml_edit::Table::new();
    table.insert(inner, toml_edit::Item::Table(entry));
    let mut document = toml_edit::DocumentMut::new();
    document.insert(outer, toml_edit::Item::Table(table));
    document.to_string()
}

/// The entry of a model: where it is served, and the variable its key is
/// in. The key itself is no part of it.
pub open spec fn grok_entry(
    model: Seq<char>,
    base_url: Seq<char>,
) -> Seq<(Seq<char>, Seq<char>)> {
    seq![
        ("model"@, model),
        ("base_url"@, base_url),
        ("env_key"@, GROK_API_KEY_ENV@),
        ("api_backend"@, "chat_completions"@),
    ]
}

/// The configuration with the model's entry under `model`.
pub fn grok_config_document(model: &str, base_url: &str) -> (r: String)
    ensures
        r@ == nested_table_text("model"@, model@, grok_entry(model@, base_url@)),
{
    let mut entries: Vec<(&str, &str)> = Vec::new();
    entries.push(("model", model));
    entries.push(("base_url", base_url));
    entries.push(("env_key", GROK_API_KEY_ENV));
    entries.push(("api_backend", "chat_completions"));
    assert(str_pairs(entries@) =~= grok_entry(model@, base_url@));
    nested_table("model", model, &entries)
}

// ---------------------------------------------------------------------------
// The command line
// ---------------------------------------------------------------------------

/// The arguments Grok is run with: the model in front, unless the caller
/// named one.
pub open spec fn grok_line(model: Seq<char>, extra: Seq<Seq<char>>) -> Seq<Seq<char>> {
    if flag_given(extra, "--model"@, Some("-m"@)) {
        extra
    } else {
        seq!["--model"@, model] + extra
    }
}

/// `--model <model>` ahead of the caller's own arguments, dropped when the
/// caller already passed one after `--`.
pub fn grok_args(model: &str, extra_args: &[String]) -> (r: Vec<String>)
    ensures
        texts(r@) == grok_line(model@, texts(extra_args@)),
{
    let mut args: Vec<String> = Vec::new();
    if !has_flag(extra_args, "--model", Some("-m")) {
        push_text(&mut args, "--model");
        push_text(&mut args, model);
    }
    extend_texts(&mut args, extra_args);
    assert(texts(args@) =~= grok_line(model@, texts(extra_args@)));
    args
}

// ---------------------------------------------------------------------------
// Laws
// ---------------------------------------------------------------------------

/// What Grok's configuration says of a model: its name, where it is served,
/// the variable its key is in, and the protocol. No key is in it.
pub proof fn law_what_the_configuration_says(model: Seq<char>, base_url: Seq<char>)
    ensures
        grok_entry(model, base_url) == seq![
            ("model"@, model),
            ("base_url"@, base_url),
            ("env_key"@, "LLMMAN_GROK_API_KEY"@),
            ("api_backend"@, "chat_completions"@),
        ],
{
}

/// The caller's model wins over llmman's on the command line, and without
/// one llmman's stands in front.
pub proof fn law_whose_model_is_on_the_command_line(model: Seq<char>, extra: Seq<Seq<char>>)
    ensures
        flag_given(extra, "--model"@, Some("-m"@)) ==> grok_line(model, extra) == extra,
        !flag_given(extra, "--model"@, Some("-m"@)) ==> grok_line(model, extra) == seq![
            "--model"@,
            model,
        ] + extra,
{
}

} // verus!

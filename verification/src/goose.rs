//! Block goose: the environment it is configured through.

use crate::text::str_pairs;
use vstd::prelude::*;
use vstd::string::*;

verus! {

/// What goose's environment is set to.
pub open spec fn goose_vars(
    model: Seq<char>,
    api_key: Seq<char>,
    host: Seq<char>,
) -> Seq<(Seq<char>, Seq<char>)> {
    let fixed = seq![
        ("GOOSE_PROVIDER"@, "openai"@),
        ("OPENAI_API_KEY"@, api_key),
        ("OPENAI_HOST"@, host),
        ("OPENAI_BASE_PATH"@, "v1/chat/completions"@),
    ];
    if model.len() == 0 {
        fixed
    } else {
        fixed.push(("GOOSE_MODEL"@, model))
    }
}

/// The environment goose is configured through. `OPENAI_HOST` is the bare
/// origin: goose joins it with `OPENAI_BASE_PATH` itself. The model is left
/// out rather than empty, since goose reads "" as a model of that name.
pub fn goose_env<'a>(model: &'a str, api_key: &'a str, host: &'a str) -> (r: Vec<
    (&'a str, &'a str),
>)
    ensures
        str_pairs(r@) == goose_vars(model@, api_key@, host@),
{
    let mut env: Vec<(&'a str, &'a str)> = Vec::new();
    env.push(("GOOSE_PROVIDER", "openai"));
    env.push(("OPENAI_API_KEY", api_key));
    env.push(("OPENAI_HOST", host));
    env.push(("OPENAI_BASE_PATH", "v1/chat/completions"));
    if !model.is_empty() {
        env.push(("GOOSE_MODEL", model));
    }
    assert(str_pairs(env@) =~= goose_vars(model@, api_key@, host@));
    env
}

} // verus!

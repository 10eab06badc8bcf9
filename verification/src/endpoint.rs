//! The daemon as an agent is told of it.

use vstd::prelude::*;
use vstd::string::*;

verus! {

/// The OpenAI-compatible surface of a server.
pub open spec fn v1_of(server: Seq<char>) -> Seq<char> {
    server + "/v1"@
}

/// The base URL of the OpenAI-compatible surface of `server`.
pub fn v1_url(server: &str) -> (r: String)
    ensures
        r@ == v1_of(server@),
{
    let mut url = server.to_owned();
    url.append("/v1");
    url
}

/// The name an agent that needs one is given when no model was asked for.
pub open spec fn model_or_default(model: Seq<char>) -> Seq<char> {
    if model.len() == 0 {
        "default"@
    } else {
        model
    }
}

/// The model, `default` if there is none.
pub fn effective_model(model: &str) -> (r: &str)
    ensures
        r@ == model_or_default(model@),
{
    if model.is_empty() {
        "default"
    } else {
        model
    }
}

// ---------------------------------------------------------------------------
// Laws
// ---------------------------------------------------------------------------

/// The OpenAI-compatible surface is `/v1` below the server, and a model
/// stands for itself unless there is none.
pub proof fn law_what_an_agent_is_told_of_the_daemon(server: Seq<char>, model: Seq<char>)
    ensures
        v1_of(server) == server + "/v1"@,
        model.len() > 0 ==> model_or_default(model) == model,
        model.len() == 0 ==> model_or_default(model) == "default"@,
{
}

} // verus!

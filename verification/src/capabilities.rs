//! What a model can do: think, and take in images.

use crate::json::{text_array, text_list, Doc, Json};
use vstd::prelude::*;

verus! {

/// The thinking controls of a model, as its chat template has them.
#[derive(Debug)]
pub struct ThinkingControls {
    /// Whether the model thinks at all.
    pub thinks: bool,
    /// What a user chooses from, in the order offered: `none`, and then the
    /// levels the template takes, or `thinking` for a template that can
    /// only switch it on.
    pub choices: Vec<String>,
}

/// Whether a model is known to think.
pub open spec fn does_think(thinking: Option<&ThinkingControls>) -> bool {
    match thinking {
        Some(controls) => controls.thinks,
        None => false,
    }
}

/// What a model takes in.
pub open spec fn input_kinds(vision: bool) -> Doc {
    if vision {
        text_list(seq!["text", "image"])
    } else {
        text_list(seq!["text"])
    }
}

/// What a model takes in, as a list of strings.
pub fn input_list(vision: bool) -> (r: Json)
    ensures
        r@ == input_kinds(vision),
{
    if vision {
        let kinds: [&'static str; 2] = ["text", "image"];
        assert(kinds@ =~= seq!["text", "image"]);
        text_array(kinds.as_slice())
    } else {
        let kinds: [&'static str; 1] = ["text"];
        assert(kinds@ =~= seq!["text"]);
        text_array(kinds.as_slice())
    }
}

// ---------------------------------------------------------------------------
// Laws
// ---------------------------------------------------------------------------

/// Every model takes in text, a vision model images too, and no model
/// anything else.
pub proof fn law_what_a_model_takes_in(vision: bool)
    ensures
        input_kinds(vision) == Doc::Array(
            if vision {
                seq![Doc::Text("text"@), Doc::Text("image"@)]
            } else {
                seq![Doc::Text("text"@)]
            },
        ),
{
    let kinds = input_kinds(vision)->Array_0;
    assert(kinds =~= if vision {
        seq![Doc::Text("text"@), Doc::Text("image"@)]
    } else {
        seq![Doc::Text("text"@)]
    });
}

/// A model is known to think exactly where its controls are known and say
/// that it does, whatever there is to choose from.
pub proof fn law_a_model_thinks_where_its_controls_say_so(thinking: Option<&ThinkingControls>)
    ensures
        does_think(thinking) <==> thinking is Some && thinking->0.thinks,
{
}

} // verus!

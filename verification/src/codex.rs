//! OpenAI Codex: its profile, its model catalog, and the table an older
//! llmman left in its `config.toml`.

use crate::capabilities::{input_kinds, input_list, law_what_a_model_takes_in};
use crate::endpoint::{v1_of, v1_url};
use crate::json::{
    count_value, docs, lemma_array_view, number_of, put, text_value, Doc, Json,
};
use crate::lines::{
    are_lines, is_line, lemma_lines_are_lines, lemma_lines_come_back, lemma_lines_of_unlines,
    lemma_trimmed_without_cr, without_crs,
};
use crate::text::{
    contains, join_lines, lines, lines_of, occurs, push_both, push_chars, push_text, same,
    same_chars, string_of, text_of, texts, to_chars, trim, trimmed, unlines, without_cr,
};
use crate::settings::{lemma_written_text, object_in};
use crate::value::{
    compact_json, is_count, json_string, lemma_readable_fits, lemma_reread_exact, max_depth,
    pretty_json, pretty_text, readable,
};
use vstd::prelude::*;
use vstd::string::*;

verus! {

// ---------------------------------------------------------------------------
// The legacy table
// ---------------------------------------------------------------------------

/// The header of the table an older llmman wrote into `config.toml`, which
/// current codex refuses to start with.
pub const LEGACY_TABLE: &'static str = "[profiles.llmman]";

/// Whether a line is the header of the legacy table.
pub open spec fn is_legacy_header(line: Seq<char>) -> bool {
    trimmed(line) == LEGACY_TABLE@
}

/// Whether a line is the header of a table.
pub open spec fn is_header(line: Seq<char>) -> bool {
    trimmed(line).len() > 0 && trimmed(line)[0] == '['
}

/// Whether the last of some lines lies in the legacy table: from its header
/// up to the next one.
pub open spec fn in_legacy(lines: Seq<Seq<char>>) -> bool
    decreases lines.len(),
{
    if lines.len() == 0 {
        false
    } else if is_legacy_header(lines.last()) {
        true
    } else if is_header(lines.last()) {
        false
    } else {
        in_legacy(lines.drop_last())
    }
}

/// The lines that do not lie in the legacy table.
pub open spec fn outside_legacy(lines: Seq<Seq<char>>) -> Seq<Seq<char>>
    decreases lines.len(),
{
    if lines.len() == 0 {
        Seq::empty()
    } else {
        let before = outside_legacy(lines.drop_last());
        if in_legacy(lines) {
            before
        } else {
            before.push(lines.last())
        }
    }
}

/// A configuration without the legacy table, one `\n` behind each line that
/// is left.
pub open spec fn without_legacy(text: Seq<char>) -> Seq<char> {
    unlines(outside_legacy(lines_of(text)))
}

/// Removes a `[profiles.llmman]` table, and everything up to the next
/// header or the end, from the text of `config.toml`. By lines: this only
/// ever undoes llmman's own output.
pub fn strip_legacy_llmman_profile(existing: &str) -> (r: String)
    ensures
        r@ == without_legacy(existing@),
{
    let chars = to_chars(existing);
    let header = to_chars(LEGACY_TABLE);
    let all = lines(chars.as_slice());
    let ghost model = lines_of(existing@);
    let mut out = String::new();
    let mut skipping = false;
    assert(model.take(0) == Seq::<Seq<char>>::empty());
    for i in 0..all.len()
        invariant
            header@ == LEGACY_TABLE@,
            all@.len() == model.len(),
            forall|k: int| 0 <= k < all@.len() ==> (#[trigger] all@[k])@ == model[k],
            skipping == in_legacy(model.take(i as int)),
            out@ == unlines(outside_legacy(model.take(i as int))),
    {
        let line = all[i];
        proof {
            let so_far = model.take(i + 1);
            assert(so_far.drop_last() == model.take(i as int));
            assert(so_far.last() == line@);
        }
        let body = trim(line);
        if same_chars(body, header.as_slice()) {
            skipping = true;
        } else if body.len() > 0 && body[0] == '[' {
            skipping = false;
        }
        if !skipping {
            let ghost before = outside_legacy(model.take(i as int));
            push_chars(&mut out, line);
            out.push('\n');
            assert(before.push(line@).drop_last() == before);
            assert(out@ =~= unlines(before.push(line@)));
        }
    }
    assert(model.take(model.len() as int) == model);
    out
}

// ---------------------------------------------------------------------------
// The model catalog
// ---------------------------------------------------------------------------

/// The catalog's context window with neither a configured nor a trained
/// context.
pub const CODEX_FALLBACK_CONTEXT_WINDOW: u64 = 128_000;

/// What codex compacts against: a positive configured context length, which
/// is the one the daemon serves, else the model's trained context, else
/// [`CODEX_FALLBACK_CONTEXT_WINDOW`].
pub open spec fn context_window(env: Option<u32>, trained: Option<u64>) -> u64 {
    match env {
        Some(n) if n > 0 => n as u64,
        _ => match trained {
            Some(n) => n,
            None => CODEX_FALLBACK_CONTEXT_WINDOW,
        },
    }
}

/// What codex compacts against.
pub fn codex_context_window(env: Option<u32>, trained: Option<u64>) -> (r: u64)
    ensures
        r == context_window(env, trained),
{
    if let Some(n) = env {
        if n > 0 {
            return n as u64;
        }
    }
    match trained {
        Some(n) => n,
        None => CODEX_FALLBACK_CONTEXT_WINDOW,
    }
}

/// The entry of a model in the catalog.
pub open spec fn catalog_entry(model: Seq<char>, vision: bool, window: u64) -> Doc {
    let policy = Map::<Seq<char>, Doc>::empty()
        .insert("mode"@, Doc::Text("bytes"@))
        .insert("limit"@, Doc::Number(number_of(10000)));
    Doc::Object(
        Map::<Seq<char>, Doc>::empty()
            .insert("slug"@, Doc::Text(model))
            .insert("display_name"@, Doc::Text(model))
            .insert("context_window"@, Doc::Number(number_of(window)))
            .insert("shell_type"@, Doc::Text("default"@))
            .insert("visibility"@, Doc::Text("list"@))
            .insert("supported_in_api"@, Doc::Bool(true))
            .insert("priority"@, Doc::Number(number_of(0)))
            .insert("truncation_policy"@, Doc::Object(policy))
            .insert("input_modalities"@, input_kinds(vision))
            .insert("base_instructions"@, Doc::Text(""@))
            .insert("support_verbosity"@, Doc::Bool(true))
            .insert("default_verbosity"@, Doc::Text("low"@))
            .insert("supports_parallel_tool_calls"@, Doc::Bool(false))
            .insert("supports_reasoning_summaries"@, Doc::Bool(false))
            .insert("supported_reasoning_levels"@, Doc::Array(Seq::empty()))
            .insert("experimental_supported_tools"@, Doc::Array(Seq::empty())),
    )
}

/// The catalog of one model.
pub open spec fn catalog_doc(model: Seq<char>, vision: bool, window: u64) -> Doc {
    Doc::Object(
        Map::<Seq<char>, Doc>::empty().insert(
            "models"@,
            Doc::Array(seq![catalog_entry(model, vision, window)]),
        ),
    )
}

/// An array without items.
fn empty_array() -> (r: Json)
    ensures
        r@ == Doc::Array(Seq::empty()),
{
    let items: Vec<Json> = Vec::new();
    proof {
        lemma_array_view(items);
        assert(docs(items@) =~= Seq::<Doc>::empty());
    }
    Json::Array(items)
}

/// The catalog of one model, as a document.
fn make_catalog(model: &str, vision: bool, window: u64) -> (r: Json)
    ensures
        r@ == catalog_doc(model@, vision, window),
{
    let mut policy: Vec<(String, Json)> = Vec::new();
    put(&mut policy, "mode", text_value("bytes"));
    put(&mut policy, "limit", count_value(10000));
    let mut entry: Vec<(String, Json)> = Vec::new();
    put(&mut entry, "slug", text_value(model));
    put(&mut entry, "display_name", text_value(model));
    put(&mut entry, "context_window", count_value(window));
    put(&mut entry, "shell_type", text_value("default"));
    put(&mut entry, "visibility", text_value("list"));
    put(&mut entry, "supported_in_api", Json::Bool(true));
    put(&mut entry, "priority", count_value(0));
    put(&mut entry, "truncation_policy", Json::Object(policy));
    put(&mut entry, "input_modalities", input_list(vision));
    put(&mut entry, "base_instructions", text_value(""));
    put(&mut entry, "support_verbosity", Json::Bool(true));
    put(&mut entry, "default_verbosity", text_value("low"));
    put(&mut entry, "supports_parallel_tool_calls", Json::Bool(false));
    put(&mut entry, "supports_reasoning_summaries", Json::Bool(false));
    put(&mut entry, "supported_reasoning_levels", empty_array());
    put(&mut entry, "experimental_supported_tools", empty_array());
    let mut models: Vec<Json> = Vec::new();
    models.push(Json::Object(entry));
    proof {
        lemma_array_view(models);
        assert(docs(models@) =~= seq![catalog_entry(model@, vision, window)]);
    }
    let mut catalog: Vec<(String, Json)> = Vec::new();
    put(&mut catalog, "models", Json::Array(models));
    Json::Object(catalog)
}

/// The `model_catalog_json` for `model`, declaring what it takes in. The
/// other fields are ones codex requires.
pub fn codex_model_catalog(model: &str, vision: bool, context_window: u64) -> (r: String)
    ensures
        r@ == pretty_text(catalog_doc(model@, vision, context_window)).push('\n'),
        object_in(Some(r@), false) == Some(catalog_doc(model@, vision, context_window)),
{
    let mut out = pretty_json(&make_catalog(model, vision, context_window));
    proof {
        let doc = catalog_doc(model@, vision, context_window);
        lemma_written_text(out@);
        lemma_catalog_is_readable(model@, vision, context_window);
        lemma_readable_fits(doc, max_depth());
        lemma_reread_exact(doc, object_in(Some(out@.push('\n')), false)->0, max_depth());
    }
    out.push('\n');
    out
}

/// The catalog is read back as it is.
proof fn lemma_catalog_is_readable(model: Seq<char>, vision: bool, window: u64)
    ensures
        readable(catalog_doc(model, vision, window), max_depth()),
{
    let outer = max_depth();
    let list = (outer - 1) as nat;
    let inner = (outer - 2) as nat;
    let field = (outer - 3) as nat;
    let leaf = (outer - 4) as nat;
    assert(is_count(number_of(10000)) && is_count(number_of(window)) && is_count(number_of(0)));
    let entry = catalog_entry(model, vision, window)->Object_0;
    let policy = Map::<Seq<char>, Doc>::empty()
        .insert("mode"@, Doc::Text("bytes"@))
        .insert("limit"@, Doc::Number(number_of(10000)));
    assert(readable(Doc::Object(policy), field)) by {
        assert forall|k: Seq<char>| #[trigger] policy.contains_key(k) implies readable(
            policy[k],
            leaf,
        ) by {}
    }
    let kinds = input_kinds(vision)->Array_0;
    assert(readable(input_kinds(vision), field)) by {
        assert forall|i: int| 0 <= i < kinds.len() implies readable(#[trigger] kinds[i], leaf) by {}
    }
    assert forall|k: Seq<char>| #[trigger] entry.contains_key(k) implies readable(
        entry[k],
        field,
    ) by {}
    assert(readable(Doc::Object(entry), inner));
    let models = seq![Doc::Object(entry)];
    assert(readable(Doc::Array(models), list)) by {
        assert forall|i: int| 0 <= i < models.len() implies readable(
            #[trigger] models[i],
            inner,
        ) by {}
    }
    let catalog = catalog_doc(model, vision, window)->Object_0;
    assert forall|k: Seq<char>| #[trigger] catalog.contains_key(k) implies readable(
        catalog[k],
        list,
    ) by {}
}

// ---------------------------------------------------------------------------
// The profile
// ---------------------------------------------------------------------------

/// The lines of `llmman.config.toml`. The path of the catalog is written as
/// a JSON string, which is a TOML string too.
pub open spec fn profile_lines(server: Seq<char>, catalog: Option<Seq<char>>) -> Seq<Seq<char>> {
    let head = seq![
        "# Written by `llmman launch codex`; edits are overwritten."@,
        "model_provider = \"llmman\""@,
    ];
    let named = match catalog {
        Some(path) => head.push("model_catalog_json = "@ + json_string(path)),
        None => head,
    };
    named + seq![
        ""@,
        "[model_providers.llmman]"@,
        "name = \"llmman\""@,
        "base_url = \""@ + v1_of(server).push('"'),
        "env_key = \"OPENAI_API_KEY\""@,
        "wire_api = \"responses\""@,
        "supports_websockets = false"@,
    ]
}

/// The contents of `~/.codex/llmman.config.toml`: a provider of llmman's
/// own rather than another address for codex's built-in one, which codex
/// opens a WebSocket to first.
pub fn codex_profile(server: &str, catalog: Option<&str>) -> (r: String)
    ensures
        r@ == unlines(profile_lines(server@, text_of(catalog))),
{
    let mut out: Vec<String> = Vec::new();
    push_text(&mut out, "# Written by `llmman launch codex`; edits are overwritten.");
    push_text(&mut out, "model_provider = \"llmman\"");
    if let Some(path) = catalog {
        let quoted = compact_json(&text_value(path));
        push_both(&mut out, "model_catalog_json = ", quoted.as_str());
    }
    let mut url = v1_url(server);
    url.push('"');
    push_text(&mut out, "");
    push_text(&mut out, "[model_providers.llmman]");
    push_text(&mut out, "name = \"llmman\"");
    push_both(&mut out, "base_url = \"", url.as_str());
    push_text(&mut out, "env_key = \"OPENAI_API_KEY\"");
    push_text(&mut out, "wire_api = \"responses\"");
    push_text(&mut out, "supports_websockets = false");
    assert(texts(out@) =~= profile_lines(server@, text_of(catalog)));
    join_lines(&out)
}

// ---------------------------------------------------------------------------
// The files of a launch
// ---------------------------------------------------------------------------

/// What `config.toml` is rewritten to, none if it stays.
pub open spec fn config_rewritten(config: Option<Seq<char>>) -> Option<Seq<char>> {
    match config {
        Some(text) if occurs(text, LEGACY_TABLE@) => Some(without_legacy(text)),
        _ => None,
    }
}

/// What `config.toml` is rewritten to: it is rewritten only where it still
/// names the legacy table. `config` is what it holds, none if it cannot be
/// read.
pub fn codex_config_rewrite(config: Option<&str>) -> (r: Option<String>)
    ensures
        string_of(r) == config_rewritten(text_of(config)),
{
    match config {
        Some(text) => if contains(text, LEGACY_TABLE) {
            Some(strip_legacy_llmman_profile(text))
        } else {
            None
        },
        None => None,
    }
}

/// Whether a file has to be written.
pub open spec fn is_stale(current: Option<Seq<char>>, contents: Seq<char>) -> bool {
    current != Some(contents)
}

/// Whether a file has to be written: unless it already holds exactly the
/// contents it should.
pub fn needs_write(current: Option<&str>, contents: &str) -> (r: bool)
    ensures
        r == is_stale(text_of(current), contents@),
{
    match current {
        Some(text) => !same(text, contents),
        None => true,
    }
}

// ---------------------------------------------------------------------------
// Laws
// ---------------------------------------------------------------------------

/// Some lines hold no header of the legacy table.
pub open spec fn no_legacy(lines: Seq<Seq<char>>) -> bool {
    forall|i: int| 0 <= i < lines.len() ==> !is_legacy_header(#[trigger] lines[i])
}

proof fn lemma_outside_legacy(lines: Seq<Seq<char>>)
    ensures
        no_legacy(outside_legacy(lines)),
        are_lines(lines) ==> are_lines(outside_legacy(lines)),
        without_crs(lines) ==> without_crs(outside_legacy(lines)),
    decreases lines.len(),
{
    if lines.len() > 0 {
        let front = lines.drop_last();
        lemma_outside_legacy(front);
        assert(forall|i: int| 0 <= i < front.len() ==> #[trigger] front[i] == lines[i]);
        if are_lines(lines) {
            assert(are_lines(front));
            assert(is_line(lines.last()));
        }
        if without_crs(lines) {
            assert(without_crs(front));
            assert(without_cr(lines.last()) == lines.last());
        }
    }
}

proof fn lemma_no_legacy_no_table(lines: Seq<Seq<char>>)
    requires
        no_legacy(lines),
    ensures
        !in_legacy(lines),
        outside_legacy(lines) == lines,
    decreases lines.len(),
{
    if lines.len() > 0 {
        let front = lines.drop_last();
        assert forall|i: int| 0 <= i < front.len() implies !is_legacy_header(
            #[trigger] front[i],
        ) by {
            assert(!is_legacy_header(lines[i]));
        }
        lemma_no_legacy_no_table(front);
        assert(!is_legacy_header(lines.last()));
        assert(front.push(lines.last()) =~= lines);
    } else {
        assert(outside_legacy(lines) =~= lines);
    }
}

/// No header of the legacy table is left for codex to refuse.
pub proof fn law_the_legacy_table_is_gone(text: Seq<char>)
    ensures
        no_legacy(lines_of(without_legacy(text))),
{
    let kept = outside_legacy(lines_of(text));
    lemma_lines_are_lines(text);
    lemma_outside_legacy(lines_of(text));
    lemma_lines_of_unlines(kept, Seq::empty());
    assert(unlines(kept) + Seq::<char>::empty() == unlines(kept));
    let cut = kept.map_values(|l: Seq<char>| without_cr(l));
    assert(lines_of(without_legacy(text)) =~= cut);
    assert forall|i: int| 0 <= i < cut.len() implies !is_legacy_header(#[trigger] cut[i]) by {
        assert(!is_legacy_header(kept[i]));
        lemma_trimmed_without_cr(kept[i]);
    }
}

/// A configuration without the legacy table stays as it is, once each of
/// its lines ends with one `\n`.
pub proof fn law_without_the_legacy_table_nothing_changes(text: Seq<char>)
    requires
        no_legacy(lines_of(text)),
        text == unlines(lines_of(text)),
    ensures
        without_legacy(text) == text,
{
    lemma_no_legacy_no_table(lines_of(text));
}

/// Removing the table twice is removing it once, where no line ends with a
/// `\r` of its own.
pub proof fn law_stripping_the_table_twice_is_stripping_it_once(text: Seq<char>)
    requires
        without_crs(lines_of(text)),
    ensures
        without_legacy(without_legacy(text)) == without_legacy(text),
{
    let kept = outside_legacy(lines_of(text));
    lemma_lines_are_lines(text);
    lemma_outside_legacy(lines_of(text));
    lemma_lines_come_back(kept, Seq::empty());
    lemma_no_legacy_no_table(kept);
}

/// What codex compacts against: a configured length that is not zero wins,
/// then what the model was trained for, then 128000.
pub proof fn law_what_codex_compacts_against(env: Option<u32>, trained: Option<u64>)
    ensures
        env is Some && env->0 > 0 ==> context_window(env, trained) == env->0,
        (env is None || env->0 == 0) && trained is Some ==> context_window(env, trained)
            == trained->0,
        (env is None || env->0 == 0) && trained is None ==> context_window(env, trained) == 128000,
{
}

/// What the catalog says: the model alone, under its own name, with what it
/// takes in and how much of it, and the fields codex requires.
pub proof fn law_what_the_catalog_says(model: Seq<char>, vision: bool, window: u64)
    ensures
        ({
            let entry = catalog_entry(model, vision, window);
            let policy = entry.get("truncation_policy"@)->0;
            &&& catalog_doc(model, vision, window).get("models"@) == Some(Doc::Array(seq![entry]))
            &&& catalog_doc(model, vision, window).members().dom() == set!["models"@]
            &&& entry.get("slug"@) == Some(Doc::Text(model))
            &&& entry.get("display_name"@) == Some(Doc::Text(model))
            &&& entry.get("context_window"@) == Some(Doc::Number(number_of(window)))
            &&& entry.get("input_modalities"@) == Some(
                Doc::Array(
                    if vision {
                        seq![Doc::Text("text"@), Doc::Text("image"@)]
                    } else {
                        seq![Doc::Text("text"@)]
                    },
                ),
            )
            &&& entry.get("shell_type"@) == Some(Doc::Text("default"@))
            &&& entry.get("visibility"@) == Some(Doc::Text("list"@))
            &&& entry.get("supported_in_api"@) == Some(Doc::Bool(true))
            &&& entry.get("priority"@) == Some(Doc::Number(number_of(0)))
            &&& policy.get("mode"@) == Some(Doc::Text("bytes"@))
            &&& policy.get("limit"@) == Some(Doc::Number(number_of(10000)))
            &&& entry.get("base_instructions"@) == Some(Doc::Text(""@))
            &&& entry.get("support_verbosity"@) == Some(Doc::Bool(true))
            &&& entry.get("default_verbosity"@) == Some(Doc::Text("low"@))
            &&& entry.get("supports_parallel_tool_calls"@) == Some(Doc::Bool(false))
            &&& entry.get("supports_reasoning_summaries"@) == Some(Doc::Bool(false))
            &&& entry.get("supported_reasoning_levels"@) == Some(Doc::Array(Seq::empty()))
            &&& entry.get("experimental_supported_tools"@) == Some(Doc::Array(Seq::empty()))
        }),
{
    reveal_strlit("slug");
    reveal_strlit("display_name");
    reveal_strlit("context_window");
    reveal_strlit("shell_type");
    reveal_strlit("visibility");
    reveal_strlit("supported_in_api");
    reveal_strlit("priority");
    reveal_strlit("truncation_policy");
    reveal_strlit("input_modalities");
    reveal_strlit("base_instructions");
    reveal_strlit("support_verbosity");
    reveal_strlit("default_verbosity");
    reveal_strlit("supports_parallel_tool_calls");
    reveal_strlit("supports_reasoning_summaries");
    reveal_strlit("supported_reasoning_levels");
    reveal_strlit("experimental_supported_tools");
    assert("slug"@.len() == 4);
    assert("display_name"@.len() == 12);
    assert("context_window"@.len() == 14);
    assert("shell_type"@.len() == 10);
    assert("visibility"@.len() == 10);
    assert("supported_in_api"@.len() == 16);
    assert("priority"@.len() == 8);
    assert("truncation_policy"@.len() == 17);
    assert("input_modalities"@.len() == 16);
    assert("base_instructions"@.len() == 17);
    assert("support_verbosity"@.len() == 17);
    assert("default_verbosity"@.len() == 17);
    assert("supports_parallel_tool_calls"@.len() == 28);
    assert("supports_reasoning_summaries"@.len() == 28);
    assert("supported_reasoning_levels"@.len() == 26);
    assert("experimental_supported_tools"@.len() == 28);
    assert("shell_type"@[0] == 's' && "visibility"@[0] == 'v');
    assert("supported_in_api"@[0] == 's' && "input_modalities"@[0] == 'i');
    assert("truncation_policy"@[0] == 't' && "base_instructions"@[0] == 'b');
    assert("truncation_policy"@[0] == 't' && "support_verbosity"@[0] == 's');
    assert("truncation_policy"@[0] == 't' && "default_verbosity"@[0] == 'd');
    assert("base_instructions"@[0] == 'b' && "support_verbosity"@[0] == 's');
    assert("base_instructions"@[0] == 'b' && "default_verbosity"@[0] == 'd');
    assert("support_verbosity"@[0] == 's' && "default_verbosity"@[0] == 'd');
    assert("supports_parallel_tool_calls"@[9] == 'p' && "supports_reasoning_summaries"@[9] == 'r');
    assert("supports_parallel_tool_calls"@[0] == 's' && "experimental_supported_tools"@[0] == 'e');
    assert("supports_reasoning_summaries"@[0] == 's' && "experimental_supported_tools"@[0] == 'e');
    reveal_strlit("mode");
    reveal_strlit("limit");
    assert("mode"@.len() == 4);
    assert("limit"@.len() == 5);
    law_what_a_model_takes_in(vision);
    assert(catalog_doc(model, vision, window).members().dom() =~= set!["models"@]);
}

/// What the profile says: llmman's provider, at the daemon's address below
/// `/v1`, with the key in codex's own variable and without a WebSocket; and
/// the catalog, where there is one, ahead of the provider's table.
pub proof fn law_what_the_profile_says(server: Seq<char>, catalog: Option<Seq<char>>)
    ensures
        ({
            let lines = profile_lines(server, catalog);
            let n: int = if catalog is Some {
                3
            } else {
                2
            };
            &&& lines.len() == n + 7
            &&& lines[0] == "# Written by `llmman launch codex`; edits are overwritten."@
            &&& lines[n] == ""@
            &&& lines[1] == "model_provider = \"llmman\""@
            &&& catalog is Some ==> lines[2] == "model_catalog_json = "@ + json_string(catalog->0)
            &&& lines[n + 1] == "[model_providers.llmman]"@
            &&& lines[n + 2] == "name = \"llmman\""@
            &&& lines[n + 3] == "base_url = \""@ + server + "/v1"@ + seq!['"']
            &&& lines[n + 4] == "env_key = \"OPENAI_API_KEY\""@
            &&& lines[n + 5] == "wire_api = \"responses\""@
            &&& lines[n + 6] == "supports_websockets = false"@
        }),
{
    let lines = profile_lines(server, catalog);
    let n: int = if catalog is Some {
        3
    } else {
        2
    };
    assert(lines[n + 3] =~= "base_url = \""@ + server + "/v1"@ + seq!['"']);
}

/// Only the legacy table goes, and all of it: its header, and what stands
/// under it up to the next header. What stands before it and from that
/// header on is treated as it would be without it.
pub proof fn law_only_the_legacy_table_goes(
    before: Seq<Seq<char>>,
    header: Seq<char>,
    body: Seq<Seq<char>>,
    after: Seq<Seq<char>>,
)
    requires
        trimmed(header) == "[profiles.llmman]"@,
        forall|i: int|
            0 <= i < body.len() ==> trimmed(#[trigger] body[i]).len() == 0 || trimmed(body[i])[0]
                != '[',
        after.len() > 0 ==> trimmed(after[0]).len() > 0 && trimmed(after[0])[0] == '[',
    ensures
        outside_legacy(before + seq![header] + body + after) == outside_legacy(before)
            + outside_legacy(after),
{
    lemma_table_goes(before, header, body);
    let head = before + seq![header] + body;
    lemma_headers_apart(head, after);
}

/// Lines under the header lie in the table.
proof fn lemma_table_goes(before: Seq<Seq<char>>, header: Seq<char>, body: Seq<Seq<char>>)
    requires
        trimmed(header) == "[profiles.llmman]"@,
        forall|i: int|
            0 <= i < body.len() ==> trimmed(#[trigger] body[i]).len() == 0 || trimmed(body[i])[0]
                != '[',
    ensures
        in_legacy(before + seq![header] + body),
        outside_legacy(before + seq![header] + body) == outside_legacy(before),
    decreases body.len(),
{
    let all = before + seq![header] + body;
    if body.len() == 0 {
        assert(all =~= before.push(header));
        assert(all.drop_last() =~= before);
    } else {
        let front = body.drop_last();
        assert forall|i: int| 0 <= i < front.len() implies trimmed(#[trigger] front[i]).len() == 0
            || trimmed(front[i])[0] != '[' by {
            assert(front[i] == body[i]);
        }
        lemma_table_goes(before, header, front);
        assert(all.drop_last() =~= before + seq![header] + front);
        let last = body[body.len() - 1];
        assert(all.last() == last);
        reveal_strlit("[profiles.llmman]");
        assert("[profiles.llmman]"@.len() == 17 && "[profiles.llmman]"@[0] == '[');
    }
}

/// Lines that begin with a header lie where they would on their own.
proof fn lemma_headers_apart(a: Seq<Seq<char>>, b: Seq<Seq<char>>)
    requires
        b.len() > 0 ==> is_header(b[0]),
    ensures
        outside_legacy(a + b) == outside_legacy(a) + outside_legacy(b),
        b.len() > 0 ==> in_legacy(a + b) == in_legacy(b),
    decreases b.len(),
{
    if b.len() == 0 {
        assert(a + b =~= a);
        assert(outside_legacy(a) + outside_legacy(b) =~= outside_legacy(a));
    } else {
        let front = b.drop_last();
        assert((a + b).drop_last() =~= a + front);
        assert((a + b).last() == b.last());
        if front.len() > 0 {
            assert(front[0] == b[0]);
        }
        lemma_headers_apart(a, front);
        assert(outside_legacy(a + b) =~= outside_legacy(a) + outside_legacy(b));
    }
}

/// The configuration is rewritten exactly where it still names the legacy
/// table, by the rest of its lines, and a file that holds what it should is
/// not written again.
pub proof fn law_when_codex_files_are_rewritten(config: Option<Seq<char>>)
    ensures
        config_rewritten(config) is Some <==> config is Some && occurs(
            config->0,
            "[profiles.llmman]"@,
        ),
        config_rewritten(config) matches Some(text) ==> text == unlines(
            outside_legacy(lines_of(config->0)),
        ),
{
}

/// A file is written where it is missing or says anything else than it
/// should, and not where it says just that.
pub proof fn law_a_file_is_written_where_it_is_stale(text: Seq<char>, contents: Seq<char>)
    ensures
        is_stale(None, contents),
        !is_stale(Some(contents), contents),
        text != contents ==> is_stale(Some(text), contents),
{
}

} // verus!

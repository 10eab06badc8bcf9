//! The pi coding agent: llmman's provider in its `models.json`, and its
//! `settings.json`.

use crate::capabilities::{
    does_think, input_kinds, input_list, law_what_a_model_takes_in, ThinkingControls,
};
use crate::comments::uncommented;
use crate::endpoint::{v1_of, v1_url};
use crate::json::{
    alike, count_value, docs, field, fields, lemma_array_view, members, members_under, number_of,
    object_under, put, text_value, Doc, Json,
};
use crate::settings::{
    change_in, law_what_a_settings_file_holds, object_in, read_object, reads_back, update_file,
    update_of, Change, FileUpdate,
};
use crate::text::{text_of, trimmed};
use crate::value::{
    fits, is_count, lemma_reread_exact, lemma_reread_field, max_depth, parsed_json, readable,
    reread,
};
use vstd::prelude::*;
use vstd::string::*;

verus! {

/// The provider key llmman owns in pi's `models.json`.
pub const PI_PROVIDER: &'static str = "llmman";

/// Marks the model entries llmman wrote.
pub const PI_MARKER: &'static str = "_llmman";

// ---------------------------------------------------------------------------
// The model entry
// ---------------------------------------------------------------------------

/// The entry of a model: what it takes in, whether it thinks, and how much
/// it can hold, if that is known.
pub open spec fn pi_entry(
    model: Seq<char>,
    thinks: bool,
    vision: bool,
    context_length: Option<u64>,
) -> Doc {
    let plain = Map::<Seq<char>, Doc>::empty()
        .insert("id"@, Doc::Text(model))
        .insert("input"@, input_kinds(vision))
        .insert("reasoning"@, Doc::Bool(thinks))
        .insert(PI_MARKER@, Doc::Bool(true));
    Doc::Object(
        match context_length {
            Some(context) => plain.insert("contextWindow"@, Doc::Number(number_of(context))),
            None => plain,
        },
    )
}

/// The model pi is told about: what it can take in, whether it thinks, and
/// how much it can hold.
pub fn pi_model_entry(
    model: &str,
    thinking: Option<&ThinkingControls>,
    vision: bool,
    context_length: Option<u64>,
) -> (r: Json)
    ensures
        r@ == pi_entry(model@, does_think(thinking), vision, context_length),
        r@.get("reasoning"@) == Some(Doc::Bool(thinking is Some && thinking->0.thinks)),
{
    let thinks = match thinking {
        Some(controls) => controls.thinks,
        None => false,
    };
    let mut entry: Vec<(String, Json)> = Vec::new();
    put(&mut entry, "id", text_value(model));
    put(&mut entry, "input", input_list(vision));
    put(&mut entry, "reasoning", Json::Bool(thinks));
    put(&mut entry, PI_MARKER, Json::Bool(true));
    if let Some(context) = context_length {
        put(&mut entry, "contextWindow", count_value(context));
    }
    proof {
        law_what_an_entry_says(model@, thinking, vision, context_length);
    }
    Json::Object(entry)
}

// ---------------------------------------------------------------------------
// models.json
// ---------------------------------------------------------------------------

/// Whether two entries are for the same model.
pub open spec fn same_id(a: Doc, b: Doc) -> bool {
    match (a.get("id"@), b.get("id"@)) {
        (Some(x), Some(y)) => alike(x, y),
        (None, None) => true,
        _ => false,
    }
}

/// The entries for other models than `entry`, in their order.
pub open spec fn other_models(models: Seq<Doc>, entry: Doc) -> Seq<Doc>
    decreases models.len(),
{
    if models.len() == 0 {
        Seq::empty()
    } else {
        let before = other_models(models.drop_last(), entry);
        if same_id(models.last(), entry) {
            before
        } else {
            before.push(models.last())
        }
    }
}

/// The models listed under llmman's provider.
pub open spec fn pi_models_of(doc: Map<Seq<char>, Doc>) -> Seq<Doc> {
    let ours = Doc::Object(members_under(doc, "providers"@)).get(PI_PROVIDER@);
    match ours {
        Some(provider) => match provider.get("models"@) {
            Some(Doc::Array(models)) => models,
            _ => Seq::empty(),
        },
        None => Seq::empty(),
    }
}

/// llmman's provider with the models under it. The key is a literal, which
/// keeps a plain `pi` run outside of a launch usable.
pub open spec fn pi_provider(server: Seq<char>, models: Seq<Doc>) -> Doc {
    let compat = Map::<Seq<char>, Doc>::empty()
        .insert("supportsDeveloperRole"@, Doc::Bool(false))
        .insert("supportsReasoningEffort"@, Doc::Bool(false));
    Doc::Object(
        Map::<Seq<char>, Doc>::empty()
            .insert("baseUrl"@, Doc::Text(v1_of(server)))
            .insert("api"@, Doc::Text("openai-completions"@))
            .insert("apiKey"@, Doc::Text("llmman"@))
            .insert("compat"@, Doc::Object(compat))
            .insert("models"@, Doc::Array(models)),
    )
}

/// The document with llmman's provider rebuilt around an entry.
pub open spec fn pi_merged(existing: Doc, server: Seq<char>, entry: Doc) -> Doc {
    let doc = existing.members();
    let models = other_models(pi_models_of(doc), entry).push(entry);
    Doc::Object(
        doc.insert(
            "providers"@,
            Doc::Object(
                members_under(doc, "providers"@).insert(PI_PROVIDER@, pi_provider(server, models)),
            ),
        ),
    )
}

/// A document fields can be set in: an object, or null, which counts as an
/// empty one.
pub open spec fn takes_fields(doc: Doc) -> bool {
    doc is Object || doc is Null
}

/// A document llmman's provider can be set in: fields can be, and those
/// under `providers` too, where it is there.
pub open spec fn takes_provider(doc: Doc) -> bool {
    &&& takes_fields(doc)
    &&& doc.get("providers"@) matches Some(providers) ==> takes_fields(providers)
}

/// Whether llmman's provider can be set in a document.
pub fn pi_takes_provider(existing: &Json) -> (r: bool)
    ensures
        r == takes_provider(existing@),
{
    let outer = match existing {
        Json::Null => true,
        Json::Object(_) => true,
        _ => false,
    };
    if !outer {
        return false;
    }
    match existing.get("providers") {
        Some(Json::Null) => true,
        Some(providers) => providers.is_object(),
        None => true,
    }
}

/// Whether two entries are for the same model.
fn is_same_model(a: &Json, b: &Json) -> (r: bool)
    ensures
        r == same_id(a@, b@),
{
    match (a.get("id"), b.get("id")) {
        (Some(x), Some(y)) => x.equals(y),
        (None, None) => true,
        _ => false,
    }
}

/// Copies of the entries for other models than `entry`.
fn keep_others(models: &Vec<Json>, entry: &Json) -> (r: Vec<Json>)
    ensures
        docs(r@) == other_models(docs(models@), entry@),
{
    let mut out: Vec<Json> = Vec::new();
    let ghost all = docs(models@);
    assert(all.take(0) == Seq::<Doc>::empty());
    assert(docs(out@) =~= Seq::<Doc>::empty());
    for i in 0..models.len()
        invariant
            all == docs(models@),
            docs(out@) == other_models(all.take(i as int), entry@),
    {
        assert(all.take(i + 1).drop_last() == all.take(i as int));
        assert(all.take(i + 1).last() == models@[i as int]@);
        if !is_same_model(&models[i], entry) {
            let ghost so_far = out@;
            out.push(models[i].clone());
            assert(docs(out@) =~= docs(so_far).push(models@[i as int]@));
        }
    }
    assert(all.take(all.len() as int) == all);
    out
}

/// `existing` with llmman's provider rebuilt around `entry`, keeping every
/// other provider and every other model under this one: launching a second
/// model must not drop the first, whoever wrote it. Only the entry for this
/// same `id` is replaced.
pub fn pi_models_merged(existing: &Json, server: &str, entry: &Json) -> (r: Json)
    requires
        takes_provider(existing@),
    ensures
        r@ == pi_merged(existing@, server@, entry@),
{
    let mut doc = members(existing);
    let ghost doc0 = fields(doc@);
    let mut providers = object_under(&doc, "providers");
    let mut models: Vec<Json> = Vec::new();
    assert(docs(models@) =~= Seq::<Doc>::empty());
    if let Some(ours) = field(&providers, PI_PROVIDER) {
        if let Some(listed) = ours.get("models") {
            if let Some(items) = listed.as_array() {
                models = keep_others(items, entry);
            }
        }
    }
    assert(docs(models@) =~= other_models(pi_models_of(doc0), entry@));
    let ghost kept = models@;
    models.push(entry.clone());
    proof {
        assert(docs(models@) =~= docs(kept).push(entry@));
        lemma_array_view(models);
    }

    let mut compat: Vec<(String, Json)> = Vec::new();
    put(&mut compat, "supportsDeveloperRole", Json::Bool(false));
    put(&mut compat, "supportsReasoningEffort", Json::Bool(false));
    let mut provider: Vec<(String, Json)> = Vec::new();
    put(&mut provider, "baseUrl", Json::Text(v1_url(server)));
    put(&mut provider, "api", text_value("openai-completions"));
    put(&mut provider, "apiKey", text_value("llmman"));
    put(&mut provider, "compat", Json::Object(compat));
    put(&mut provider, "models", Json::Array(models));
    put(&mut providers, PI_PROVIDER, Json::Object(provider));
    put(&mut doc, "providers", Json::Object(providers));
    Json::Object(doc)
}

// ---------------------------------------------------------------------------
// settings.json
// ---------------------------------------------------------------------------

/// The settings with pi's startup provider and model pointed at llmman.
pub open spec fn pi_settings(existing: Doc, model: Seq<char>) -> Doc {
    Doc::Object(
        existing.members()
            .insert("defaultProvider"@, Doc::Text(PI_PROVIDER@))
            .insert("defaultModel"@, Doc::Text(model)),
    )
}

/// `existing` with pi's startup provider and model pointed at this launch,
/// leaving every other setting alone.
pub fn pi_settings_merged(existing: &Json, model: &str) -> (r: Json)
    requires
        takes_fields(existing@),
    ensures
        r@ == pi_settings(existing@, model@),
{
    let mut doc = members(existing);
    put(&mut doc, "defaultProvider", text_value(PI_PROVIDER));
    put(&mut doc, "defaultModel", text_value(model));
    Json::Object(doc)
}

// ---------------------------------------------------------------------------
// The files of a launch
// ---------------------------------------------------------------------------

/// What becomes of `models.json` when a model is launched. None if there is
/// nowhere to put llmman's provider.
pub open spec fn pi_models_change(
    raw: Option<Seq<char>>,
    backup_exists: bool,
    server: Seq<char>,
    entry: Doc,
) -> Option<Change> {
    match object_in(raw, true) {
        None => Some(Change::NotAnObject),
        Some(existing) => if takes_provider(existing) {
            Some(update_of(raw, backup_exists, existing, pi_merged(existing, server, entry)))
        } else {
            None
        },
    }
}

/// What becomes of `settings.json` when a model is launched.
pub open spec fn pi_settings_change(
    raw: Option<Seq<char>>,
    backup_exists: bool,
    model: Seq<char>,
) -> Change {
    match object_in(raw, true) {
        None => Change::NotAnObject,
        Some(existing) => update_of(raw, backup_exists, existing, pi_settings(existing, model)),
    }
}

/// What becomes of `models.json` when a model is launched: it gets the
/// model's entry. None if its `providers` are neither an object nor null,
/// so that there is nowhere to put llmman's.
pub fn pi_models_update(
    raw: Option<&str>,
    backup_exists: bool,
    server: &str,
    entry: &Json,
) -> (r: Option<FileUpdate>)
    ensures
        change_in(r) == pi_models_change(text_of(raw), backup_exists, server@, entry@),
        object_in(text_of(raw), true) matches Some(existing) ==> r matches Some(update) ==> {
            let merged = pi_merged(existing, server@, entry@);
            &&& reads_back(update, merged, true)
            &&& merged == existing ==> update is Keep
        },
{
    match read_object(raw, true) {
        None => Some(FileUpdate::NotAnObject),
        Some(existing) => {
            if !pi_takes_provider(&existing) {
                return None;
            }
            let merged = pi_models_merged(&existing, server, entry);
            Some(update_file(raw, backup_exists, &existing, &merged))
        },
    }
}

/// What becomes of `settings.json` when a model is launched: it names
/// llmman's provider and the model.
pub fn pi_settings_update(raw: Option<&str>, backup_exists: bool, model: &str) -> (r: FileUpdate)
    ensures
        r@ == pi_settings_change(text_of(raw), backup_exists, model@),
        object_in(text_of(raw), true) matches Some(existing) ==> {
            let merged = pi_settings(existing, model@);
            &&& reads_back(r, merged, true)
            &&& merged == existing ==> r is Keep
        },
{
    match read_object(raw, true) {
        None => FileUpdate::NotAnObject,
        Some(existing) => {
            let merged = pi_settings_merged(&existing, model);
            update_file(raw, backup_exists, &existing, &merged)
        },
    }
}

// ---------------------------------------------------------------------------
// Laws
// ---------------------------------------------------------------------------

/// The field names of a provider tell apart.
proof fn lemma_provider_names_differ()
    ensures
        "models"@ != "baseUrl"@,
        "models"@ != "api"@,
        "models"@ != "apiKey"@,
        "models"@ != "compat"@,
        "id"@ != "input"@,
        "id"@ != "reasoning"@,
        "id"@ != PI_MARKER@,
        "id"@ != "contextWindow"@,
        "defaultProvider"@ != "defaultModel"@,
{
    reveal_strlit("models");
    reveal_strlit("baseUrl");
    reveal_strlit("api");
    reveal_strlit("apiKey");
    reveal_strlit("compat");
    reveal_strlit("id");
    reveal_strlit("input");
    reveal_strlit("reasoning");
    reveal_strlit("_llmman");
    reveal_strlit("contextWindow");
    reveal_strlit("defaultProvider");
    reveal_strlit("defaultModel");
    assert("models"@.len() == 6);
    assert("baseUrl"@.len() == 7);
    assert("api"@.len() == 3);
    assert("apiKey"@.len() == 6);
    assert("models"@[0] == 'm');
    assert("apiKey"@[0] == 'a');
    assert("compat"@[0] == 'c');
    assert("id"@.len() == 2);
    assert("input"@.len() == 5);
    assert("reasoning"@.len() == 9);
    assert("_llmman"@.len() == 7);
    assert("contextWindow"@.len() == 13);
    assert("defaultProvider"@.len() == 15);
    assert("defaultModel"@.len() == 12);
}

/// A model's entry is known by its name.
pub proof fn lemma_entry_id(model: Seq<char>, thinks: bool, vision: bool, context: Option<u64>)
    ensures
        pi_entry(model, thinks, vision, context).get("id"@) == Some(Doc::Text(model)),
{
    lemma_provider_names_differ();
}

/// The models of a merged document.
proof fn lemma_models_after_merge(existing: Doc, server: Seq<char>, entry: Doc)
    ensures
        pi_models_of(pi_merged(existing, server, entry).members()) == other_models(
            pi_models_of(existing.members()),
            entry,
        ).push(entry),
{
    lemma_provider_names_differ();
    let doc = existing.members();
    let models = other_models(pi_models_of(doc), entry).push(entry);
    let merged = pi_merged(existing, server, entry).members();
    assert(members_under(merged, "providers"@)[PI_PROVIDER@] == pi_provider(server, models));
    assert(pi_provider(server, models).get("models"@) == Some(Doc::Array(models)));
}

/// Leaving a model's entries out twice is leaving them out once.
proof fn lemma_others_again(models: Seq<Doc>, a: Doc, b: Doc)
    requires
        forall|x: Doc| #[trigger] same_id(x, a) == same_id(x, b),
    ensures
        other_models(other_models(models, a), b) == other_models(models, b),
        other_models(models, a) == other_models(models, b),
    decreases models.len(),
{
    if models.len() > 0 {
        lemma_others_again(models.drop_last(), a, b);
        let before = other_models(models.drop_last(), a);
        let last = models.last();
        assert(same_id(last, a) == same_id(last, b));
        if !same_id(last, a) {
            assert(before.push(last).drop_last() =~= before);
        }
    } else {
        assert(other_models(models, a) =~= other_models(models, b));
    }
}

/// An entry merged over one of the same id takes its place.
proof fn lemma_merged_over(
    existing: Doc,
    first_server: Seq<char>,
    first: Doc,
    server: Seq<char>,
    entry: Doc,
)
    requires
        takes_provider(existing),
        first.get("id"@) == entry.get("id"@),
        same_id(entry, entry),
    ensures
        pi_merged(pi_merged(existing, first_server, first), server, entry) == pi_merged(
            existing,
            server,
            entry,
        ),
        takes_provider(pi_merged(existing, first_server, first)),
{
    let doc = existing.members();
    let once = pi_merged(existing, first_server, first);
    lemma_models_after_merge(existing, first_server, first);
    let kept = other_models(pi_models_of(doc), first);
    assert forall|x: Doc| #[trigger] same_id(x, first) == same_id(x, entry) by {}
    lemma_others_again(pi_models_of(doc), first, entry);
    assert(same_id(first, entry));
    assert(kept.push(first).drop_last() =~= kept);
    assert(other_models(kept.push(first), entry) == other_models(pi_models_of(doc), entry));
    let models = other_models(pi_models_of(doc), entry).push(entry);
    let twice = pi_merged(once, server, entry);
    assert(members_under(once.members(), "providers"@) =~= members_under(
        doc,
        "providers"@,
    ).insert(PI_PROVIDER@, pi_provider(first_server, kept.push(first))));
    assert(members_under(once.members(), "providers"@).insert(
        PI_PROVIDER@,
        pi_provider(server, models),
    ) =~= members_under(doc, "providers"@).insert(PI_PROVIDER@, pi_provider(server, models)));
    assert(twice.members() =~= pi_merged(existing, server, entry).members());
}

/// The last launch of a model wins: its entry replaces the one an earlier
/// launch of the same model wrote, and nothing is doubled.
pub proof fn law_the_last_launch_of_a_model_wins(
    existing: Doc,
    model: Seq<char>,
    first_server: Seq<char>,
    first_thinks: bool,
    first_vision: bool,
    first_context: Option<u64>,
    server: Seq<char>,
    thinks: bool,
    vision: bool,
    context: Option<u64>,
)
    requires
        takes_provider(existing),
    ensures
        pi_merged(
            pi_merged(
                existing,
                first_server,
                pi_entry(model, first_thinks, first_vision, first_context),
            ),
            server,
            pi_entry(model, thinks, vision, context),
        ) == pi_merged(existing, server, pi_entry(model, thinks, vision, context)),
        takes_provider(
            pi_merged(
                existing,
                first_server,
                pi_entry(model, first_thinks, first_vision, first_context),
            ),
        ),
{
    let first = pi_entry(model, first_thinks, first_vision, first_context);
    let entry = pi_entry(model, thinks, vision, context);
    lemma_entry_id(model, first_thinks, first_vision, first_context);
    lemma_entry_id(model, thinks, vision, context);
    lemma_merged_over(existing, first_server, first, server, entry);
}

/// Merging an entry into a document that has it already changes nothing,
/// whatever the entry holds, as long as its id equals itself.
pub proof fn law_merging_an_entry_twice_is_merging_it_once(
    existing: Doc,
    server: Seq<char>,
    entry: Doc,
)
    requires
        takes_provider(existing),
        same_id(entry, entry),
    ensures
        pi_merged(pi_merged(existing, server, entry), server, entry) == pi_merged(
            existing,
            server,
            entry,
        ),
{
    lemma_merged_over(existing, server, entry, server, entry);
}

/// Launching a second model does not drop the first, whoever wrote it: the
/// models of other names stay, in their order, in front of the one that is
/// launched.
pub proof fn law_other_models_stay(existing: Doc, server: Seq<char>, entry: Doc)
    ensures
        ({
            let before = pi_models_of(existing.members());
            let after = pi_models_of(pi_merged(existing, server, entry).members());
            &&& after == other_models(before, entry).push(entry)
            &&& forall|i: int|
                0 <= i < before.len() && !same_id(#[trigger] before[i], entry) ==> other_models(
                    before,
                    entry,
                ).contains(before[i])
        }),
{
    lemma_models_after_merge(existing, server, entry);
    let before = pi_models_of(existing.members());
    assert forall|i: int|
        0 <= i < before.len() && !same_id(#[trigger] before[i], entry) implies other_models(
        before,
        entry,
    ).contains(before[i]) by {
        lemma_kept(before, entry, i);
    }
}

proof fn lemma_kept(models: Seq<Doc>, entry: Doc, i: int)
    requires
        0 <= i < models.len(),
        !same_id(models[i], entry),
    ensures
        other_models(models, entry).contains(models[i]),
    decreases models.len(),
{
    let before = other_models(models.drop_last(), entry);
    if i < models.len() - 1 {
        assert(models.drop_last()[i] == models[i]);
        lemma_kept(models.drop_last(), entry, i);
        let k = choose|k: int| 0 <= k < before.len() && before[k] == models[i];
        assert(before[k] == models[i]);
        if !same_id(models.last(), entry) {
            assert(before.push(models.last())[k] == models[i]);
        }
    } else {
        let all = before.push(models.last());
        assert(all[all.len() - 1] == models[i]);
    }
}

/// Only llmman's provider is touched: every other field, and every other
/// provider, is what it was.
pub proof fn law_other_providers_stay(existing: Doc, server: Seq<char>, entry: Doc, key: Seq<char>)
    ensures
        key != "providers"@ ==> pi_merged(existing, server, entry).get(key) == Doc::Object(
            existing.members(),
        ).get(key),
        key != PI_PROVIDER@ ==> Doc::Object(
            members_under(pi_merged(existing, server, entry).members(), "providers"@),
        ).get(key) == Doc::Object(members_under(existing.members(), "providers"@)).get(key),
{
}

/// Pointing pi at a model leaves every other setting alone, and the last
/// model wins.
pub proof fn law_other_settings_stay(
    existing: Doc,
    first: Seq<char>,
    model: Seq<char>,
    key: Seq<char>,
)
    ensures
        key != "defaultProvider"@ && key != "defaultModel"@ ==> pi_settings(existing, model).get(
            key,
        ) == Doc::Object(existing.members()).get(key),
        pi_settings(pi_settings(existing, first), model) == pi_settings(existing, model),
{
    lemma_provider_names_differ();
    assert(pi_settings(pi_settings(existing, first), model).members() =~= pi_settings(
        existing,
        model,
    ).members());
}

/// A file a launch has written is never rewritten by the next launch like
/// it: what it is read back as is what that launch would write, whatever
/// numbers it holds. It is read back unless it nests too deeply.
pub proof fn law_a_written_file_needs_no_rewrite(
    update: FileUpdate,
    existing: Doc,
    server: Seq<char>,
    model: Seq<char>,
    thinks: bool,
    vision: bool,
    context: Option<u64>,
)
    requires
        takes_provider(existing),
        update is Write,
        reads_back(
            update,
            pi_merged(existing, server, pi_entry(model, thinks, vision, context)),
            true,
        ),
    ensures
        object_in(Some(update->contents@), true) matches Some(written) ==> takes_provider(written)
            && pi_merged(written, server, pi_entry(model, thinks, vision, context)) == written,
        object_in(Some(update->contents@), true) is Some <==> fits(
            pi_merged(existing, server, pi_entry(model, thinks, vision, context)),
            max_depth(),
        ),
{
    if let Some(written) = object_in(Some(update->contents@), true) {
        lemma_reread_is_merged(existing, server, model, thinks, vision, context, written);
    }
}

/// The settings a launch has written are never rewritten by the next launch
/// like it.
pub proof fn law_written_settings_need_no_rewrite(
    update: FileUpdate,
    existing: Doc,
    model: Seq<char>,
)
    requires
        update is Write,
        reads_back(update, pi_settings(existing, model), true),
    ensures
        object_in(Some(update->contents@), true) matches Some(written) ==> pi_settings(
            written,
            model,
        ) == written,
        object_in(Some(update->contents@), true) is Some <==> fits(
            pi_settings(existing, model),
            max_depth(),
        ),
{
    if let Some(written) = object_in(Some(update->contents@), true) {
        lemma_provider_names_differ();
        let m = pi_settings(existing, model).members();
        let w = written->Object_0;
        lemma_reread_field(pi_settings(existing, model), written, "defaultProvider"@);
        lemma_reread_field(pi_settings(existing, model), written, "defaultModel"@);
        assert(m["defaultProvider"@] == Doc::Text(PI_PROVIDER@));
        assert(m["defaultModel"@] == Doc::Text(model));
        assert(w.dom().contains("defaultProvider"@) && w.dom().contains("defaultModel"@));
        assert(pi_settings(written, model).members() =~= w);
    }
}

/// A model's entry holds no number but a count.
proof fn lemma_entry_is_readable(
    model: Seq<char>,
    thinks: bool,
    vision: bool,
    context: Option<u64>,
)
    ensures
        readable(pi_entry(model, thinks, vision, context), 2),
{
    let kinds = input_kinds(vision);
    assert(readable(kinds, 1)) by {
        let items = kinds->Array_0;
        assert forall|i: int| 0 <= i < items.len() implies readable(#[trigger] items[i], 0) by {}
    }
    if let Some(count) = context {
        assert(is_count(number_of(count)));
    }
    let entry = pi_entry(model, thinks, vision, context).members();
    assert forall|k: Seq<char>| #[trigger] entry.contains_key(k) implies readable(
        entry[k],
        1,
    ) by {}
}

/// What is read back of an entry is of the same model.
proof fn lemma_reread_id(a: Doc, b: Doc, entry: Doc, model: Seq<char>)
    requires
        reread(a, b),
        entry.get("id"@) == Some(Doc::Text(model)),
    ensures
        same_id(a, entry) == same_id(b, entry),
{
    lemma_reread_field(a, b, "id"@);
}

/// Models none of which goes by the entry's name all stay.
proof fn lemma_all_others(models: Seq<Doc>, entry: Doc)
    requires
        forall|i: int| 0 <= i < models.len() ==> !same_id(#[trigger] models[i], entry),
    ensures
        other_models(models, entry) == models,
    decreases models.len(),
{
    if models.len() > 0 {
        let front = models.drop_last();
        assert forall|i: int| 0 <= i < front.len() implies !same_id(#[trigger] front[i], entry) by {
            assert(!same_id(models[i], entry));
        }
        lemma_all_others(front, entry);
        assert(!same_id(models[models.len() - 1], entry));
        assert(front.push(models.last()) =~= models);
    } else {
        assert(other_models(models, entry) =~= models);
    }
}

/// The models of other names are of other names.
proof fn lemma_others_are_others(models: Seq<Doc>, entry: Doc)
    ensures
        forall|i: int|
            0 <= i < other_models(models, entry).len() ==> !same_id(
                #[trigger] other_models(models, entry)[i],
                entry,
            ),
    decreases models.len(),
{
    if models.len() > 0 {
        let before = other_models(models.drop_last(), entry);
        let all = other_models(models, entry);
        lemma_others_are_others(models.drop_last(), entry);
        assert forall|i: int| 0 <= i < all.len() implies !same_id(#[trigger] all[i], entry) by {
            if i < before.len() {
                assert(all[i] == before[i]);
            }
        }
    }
}

/// What a merged document is read back as has everything a merge sets.
proof fn lemma_reread_is_merged(
    existing: Doc,
    server: Seq<char>,
    model: Seq<char>,
    thinks: bool,
    vision: bool,
    context: Option<u64>,
    written: Doc,
)
    requires
        reread(pi_merged(existing, server, pi_entry(model, thinks, vision, context)), written),
    ensures
        takes_provider(written),
        pi_merged(written, server, pi_entry(model, thinks, vision, context)) == written,
{
    lemma_provider_names_differ();
    let entry = pi_entry(model, thinks, vision, context);
    lemma_entry_id(model, thinks, vision, context);
    lemma_entry_is_readable(model, thinks, vision, context);
    let kept = other_models(pi_models_of(existing.members()), entry);
    lemma_others_are_others(pi_models_of(existing.members()), entry);
    let list = kept.push(entry);
    let m = pi_merged(existing, server, entry).members();
    let w = written->Object_0;
    assert(m.contains_key("providers"@));
    assert(w.dom().contains("providers"@));
    assert(reread(m["providers"@], w["providers"@]));
    let p = m["providers"@]->Object_0;
    let q = w["providers"@]->Object_0;
    assert(p.contains_key(PI_PROVIDER@));
    assert(q.dom().contains(PI_PROVIDER@));
    assert(reread(p[PI_PROVIDER@], q[PI_PROVIDER@]));
    let ours = pi_provider(server, list)->Object_0;
    let theirs = q[PI_PROVIDER@]->Object_0;
    assert(ours.contains_key("models"@));
    assert(reread(ours["models"@], theirs["models"@]));
    let read = theirs["models"@]->Array_0;
    let n = kept.len() as int;
    assert(reread(list[n], read[n]));
    lemma_reread_exact(entry, read[n], 2);
    let front = read.drop_last();
    assert forall|i: int| 0 <= i < front.len() implies !same_id(#[trigger] front[i], entry) by {
        assert(reread(list[i], read[i]));
        assert(list[i] == kept[i]);
        lemma_reread_id(list[i], read[i], entry, model);
    }
    lemma_all_others(front, entry);
    assert(same_id(read[n], entry));
    assert(read =~= front.push(entry));
    assert(theirs.dom().contains("models"@));
    assert(members_under(w, "providers"@) == q);
    assert(pi_models_of(w) == read);
    assert(other_models(read, entry).push(entry) == read);

    // The rest of the provider.
    let compat = ours["compat"@]->Object_0;
    assert(ours.contains_key("baseUrl"@) && ours.contains_key("api"@) && ours.contains_key(
        "apiKey"@,
    ) && ours.contains_key("compat"@));
    assert(reread(ours["compat"@], theirs["compat"@]));
    assert(readable(ours["compat"@], 1)) by {
        assert forall|k: Seq<char>| #[trigger] compat.contains_key(k) implies readable(
            compat[k],
            0,
        ) by {}
    }
    lemma_reread_exact(ours["compat"@], theirs["compat"@], 1);
    let again = pi_provider(server, read)->Object_0;
    assert(again.dom() =~= ours.dom());
    assert forall|k: Seq<char>| #[trigger] again.contains_key(k) implies again[k] == theirs[k] by {
        assert(ours.contains_key(k));
        assert(reread(ours[k], theirs[k]));
    }
    assert(again =~= theirs);
    assert(q.insert(PI_PROVIDER@, Doc::Object(theirs)) =~= q);
    assert(w.insert("providers"@, Doc::Object(q)) =~= w);
}

/// What a model's entry says, in terms of the model: its name, what it
/// takes in, whether its controls say that it thinks, and how much it can
/// hold, if that is known. It is marked as llmman's, and says nothing else.
pub proof fn law_what_an_entry_says(
    model: Seq<char>,
    thinking: Option<&ThinkingControls>,
    vision: bool,
    context_length: Option<u64>,
)
    ensures
        ({
            let entry = pi_entry(model, does_think(thinking), vision, context_length);
            &&& entry.get("id"@) == Some(Doc::Text(model))
            &&& entry.get("input"@) == Some(
                Doc::Array(
                    if vision {
                        seq![Doc::Text("text"@), Doc::Text("image"@)]
                    } else {
                        seq![Doc::Text("text"@)]
                    },
                ),
            )
            &&& entry.get("reasoning"@) == Some(
                Doc::Bool(thinking is Some && thinking->0.thinks),
            )
            &&& entry.get("_llmman"@) == Some(Doc::Bool(true))
            &&& entry.get("contextWindow"@) == if context_length is Some {
                Some(Doc::Number(number_of(context_length->0)))
            } else {
                None
            }
            &&& forall|k: Seq<char>| #[trigger]
                entry.members().contains_key(k) ==> k == "id"@ || k == "input"@ || k
                    == "reasoning"@ || k == "_llmman"@ || k == "contextWindow"@
        }),
{
    reveal_strlit("id");
    reveal_strlit("input");
    reveal_strlit("reasoning");
    reveal_strlit("_llmman");
    reveal_strlit("contextWindow");
    assert("id"@.len() == 2);
    assert("input"@.len() == 5);
    assert("reasoning"@.len() == 9);
    assert("_llmman"@.len() == 7);
    assert("contextWindow"@.len() == 13);
    law_what_a_model_takes_in(vision);
}

/// What a launch sets in `models.json`: llmman's provider at the daemon's
/// address below `/v1`, with a key that is no credential, and the entry as
/// the last of its models and the only one of its name.
pub proof fn law_what_a_launch_sets_in_the_models(existing: Doc, server: Seq<char>, entry: Doc)
    ensures
        ({
            let merged = pi_merged(existing, server, entry);
            let ours = merged.get("providers"@)->0.get("llmman"@)->0;
            let models = ours.get("models"@)->0->Array_0;
            let compat = ours.get("compat"@)->0;
            &&& merged.get("providers"@) is Some
            &&& merged.get("providers"@)->0.get("llmman"@) is Some
            &&& ours.get("baseUrl"@) == Some(Doc::Text(server + "/v1"@))
            &&& ours.get("api"@) == Some(Doc::Text("openai-completions"@))
            &&& ours.get("apiKey"@) == Some(Doc::Text("llmman"@))
            &&& compat.get("supportsDeveloperRole"@) == Some(Doc::Bool(false))
            &&& compat.get("supportsReasoningEffort"@) == Some(Doc::Bool(false))
            &&& ours.get("models"@) matches Some(Doc::Array(_))
            &&& models.len() > 0 && models.last() == entry
            &&& forall|i: int| 0 <= i < models.len() - 1 ==> !same_id(#[trigger] models[i], entry)
        }),
{
    reveal_strlit("baseUrl");
    reveal_strlit("api");
    reveal_strlit("apiKey");
    reveal_strlit("compat");
    reveal_strlit("models");
    reveal_strlit("supportsDeveloperRole");
    reveal_strlit("supportsReasoningEffort");
    assert("baseUrl"@.len() == 7);
    assert("api"@.len() == 3);
    assert("apiKey"@.len() == 6);
    assert("compat"@.len() == 6);
    assert("models"@.len() == 6);
    assert("supportsDeveloperRole"@.len() == 21);
    assert("supportsReasoningEffort"@.len() == 23);
    assert("apiKey"@[0] == 'a' && "compat"@[0] == 'c');
    assert("apiKey"@[0] == 'a' && "models"@[0] == 'm');
    assert("compat"@[0] == 'c' && "models"@[0] == 'm');
    let before = pi_models_of(existing.members());
    lemma_others_are_others(before, entry);
    let kept = other_models(before, entry);
    let models = kept.push(entry);
    assert forall|i: int| 0 <= i < models.len() - 1 implies !same_id(#[trigger] models[i], entry) by {
        assert(models[i] == kept[i]);
    }
}

/// Two entries are of one model where their ids say the same: entries of
/// names are told apart by the names alone, and those without an id are not
/// told apart.
pub proof fn law_entries_are_told_apart_by_their_ids(a: Doc, b: Doc, x: Seq<char>, y: Seq<char>)
    requires
        a.get("id"@) == Some(Doc::Text(x)),
    ensures
        b.get("id"@) == Some(Doc::Text(y)) ==> (same_id(a, b) <==> x == y),
        b.get("id"@) is None ==> !same_id(a, b) && !same_id(b, a) && same_id(b, b),
        b.get("id"@) matches Some(id) && id !is Text ==> !same_id(a, b) && !same_id(b, a),
{
}

/// What a launch sets in `settings.json`: llmman's provider and the model.
pub proof fn law_what_a_launch_sets_in_the_settings(existing: Doc, model: Seq<char>)
    ensures
        pi_settings(existing, model).get("defaultProvider"@) == Some(Doc::Text("llmman"@)),
        pi_settings(existing, model).get("defaultModel"@) == Some(Doc::Text(model)),
{
    lemma_provider_names_differ();
}

/// What becomes of pi's files, by what is in them: an object is merged
/// with, and anything else left alone. Comments do not matter, nor does a
/// byte order mark in front. Where `providers` is there and is neither an
/// object nor null, there is nowhere to put llmman's provider.
pub proof fn law_what_becomes_of_pis_files(
    text: Seq<char>,
    marked: bool,
    backup_exists: bool,
    server: Seq<char>,
    entry: Doc,
    model: Seq<char>,
)
    requires
        trimmed(text).len() > 0,
        text.len() == 0 || text[0] != '\u{feff}',
    ensures
        ({
            let raw = if marked {
                seq!['\u{feff}'] + text
            } else {
                text
            };
            let models = pi_models_change(Some(raw), backup_exists, server, entry);
            let settings = pi_settings_change(Some(raw), backup_exists, model);
            match parsed_json(uncommented(trimmed(text))) {
                Some(Doc::Object(m)) => {
                    let existing = Doc::Object(m);
                    let providers = existing.get("providers"@);
                    let blocked = providers is Some && !(providers->0 is Object) && !(
                    providers->0 is Null);
                    &&& blocked <==> models is None
                    &&& !blocked ==> models == Some(
                        update_of(
                            Some(raw),
                            backup_exists,
                            existing,
                            pi_merged(existing, server, entry),
                        ),
                    )
                    &&& settings == update_of(
                        Some(raw),
                        backup_exists,
                        existing,
                        pi_settings(existing, model),
                    )
                },
                _ => models == Some(Change::NotAnObject) && settings is NotAnObject,
            }
        }),
{
    law_what_a_settings_file_holds(text, true);
}

/// Files that are missing, or blank, are merged with as if they were empty.
pub proof fn law_missing_files_are_written(
    raw: Option<Seq<char>>,
    backup_exists: bool,
    server: Seq<char>,
    entry: Doc,
    model: Seq<char>,
)
    requires
        raw is Some ==> trimmed(raw->0).len() == 0 && (raw->0.len() == 0 || raw->0[0]
            != '\u{feff}'),
    ensures
        ({
            let empty = Doc::Object(Map::<Seq<char>, Doc>::empty());
            &&& pi_models_change(raw, backup_exists, server, entry) == Some(
                update_of(raw, backup_exists, empty, pi_merged(empty, server, entry)),
            )
            &&& pi_settings_change(raw, backup_exists, model) == update_of(
                raw,
                backup_exists,
                empty,
                pi_settings(empty, model),
            )
        }),
{
    if let Some(text) = raw {
        law_what_a_settings_file_holds(text, true);
    }
}

} // verus!

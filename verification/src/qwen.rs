//! Qwen Code: its arguments, and llmman's entry in its `settings.json`.

use crate::args::{flag_given, forwarded_model, has_flag, model_forwarded, spells, spells_either};
use crate::comments::uncommented;
use crate::json::{
    count_value, docs, field, fields, lemma_array_view, members, members_under, number_of,
    object_under, put, text_value, Doc, Json,
};
use crate::settings::{
    object_in, read_object, reads_back, update_file, update_of, Change, FileUpdate,
};
use crate::text::{
    extend_texts, push_text, same, same_chars, text_of, texts, to_chars, trimmed,
};
use crate::value::{
    fits, lemma_reread_exact, lemma_reread_field, max_depth, parsed_json, readable, reread,
};
use vstd::prelude::*;
use vstd::slice::slice_subrange;
use vstd::string::*;

verus! {

/// The variable llmman's entry names as its key, and what marks the entry
/// as llmman's: a user can rename it in `/model`, but not re-key it.
pub const QWEN_ENV_KEY: &'static str = "LLMMAN_API_KEY";

// ---------------------------------------------------------------------------
// The settings document
// ---------------------------------------------------------------------------

/// `s` without the slashes at its end.
pub open spec fn without_trailing_slashes(s: Seq<char>) -> Seq<char>
    decreases s.len(),
{
    if s.len() > 0 && s.last() == '/' {
        without_trailing_slashes(s.drop_last())
    } else {
        s
    }
}

/// `chars` without the slashes at its end.
fn trim_slashes(chars: &[char]) -> (r: &[char])
    ensures
        r@ == without_trailing_slashes(chars@),
{
    let mut n: usize = chars.len();
    assert(chars@.take(n as int) == chars@);
    while n > 0 && chars[n - 1] == '/'
        invariant
            n <= chars@.len(),
            without_trailing_slashes(chars@) == without_trailing_slashes(chars@.take(n as int)),
        decreases n,
    {
        assert(chars@.take(n as int).drop_last() == chars@.take(n - 1));
        n = n - 1;
    }
    let rest = slice_subrange(chars, 0, n);
    assert(rest@ == chars@.take(n as int));
    rest
}

/// An entry llmman wrote: keyed by `QWEN_ENV_KEY`, at this daemon's
/// address. The id is the model name and the display name is the user's to
/// change, so neither marks an owner.
pub open spec fn entry_is_ours(entry: Doc, base_url: Seq<char>) -> bool {
    &&& entry.get("envKey"@) == Some(Doc::Text(QWEN_ENV_KEY@))
    &&& entry.get("baseUrl"@) matches Some(Doc::Text(url)) && without_trailing_slashes(url)
        == without_trailing_slashes(base_url)
}

/// Whether llmman wrote an entry for the daemon at `base_url`.
pub fn qwen_entry_is_ours(entry: &Json, base_url: &str) -> (r: bool)
    ensures
        r == entry_is_ours(entry@, base_url@),
{
    let keyed = match entry.get("envKey") {
        Some(key) => match key.as_str() {
            Some(key) => same(key, QWEN_ENV_KEY),
            None => false,
        },
        None => false,
    };
    if !keyed {
        return false;
    }
    match entry.get("baseUrl") {
        Some(url) => match url.as_str() {
            Some(url) => {
                let theirs = to_chars(url);
                let ours = to_chars(base_url);
                same_chars(trim_slashes(theirs.as_slice()), trim_slashes(ours.as_slice()))
            },
            None => false,
        },
        None => false,
    }
}

/// llmman's entry for a model. A vision model's entry declares image input,
/// which Qwen Code reads only off the provider entry.
pub open spec fn qwen_entry(model: Seq<char>, base_url: Seq<char>, vision: bool) -> Doc {
    let plain = Map::<Seq<char>, Doc>::empty()
        .insert("id"@, Doc::Text(model))
        .insert("name"@, Doc::Text(model + " (llmman)"@))
        .insert("baseUrl"@, Doc::Text(base_url))
        .insert("envKey"@, Doc::Text(QWEN_ENV_KEY@));
    if vision {
        let image = Map::<Seq<char>, Doc>::empty().insert("image"@, Doc::Bool(true));
        let modalities = Map::<Seq<char>, Doc>::empty().insert("modalities"@, Doc::Object(image));
        Doc::Object(plain.insert("generationConfig"@, Doc::Object(modalities)))
    } else {
        Doc::Object(plain)
    }
}

/// The entries that are not llmman's, in their order.
pub open spec fn foreign_entries(entries: Seq<Doc>, base_url: Seq<char>) -> Seq<Doc>
    decreases entries.len(),
{
    if entries.len() == 0 {
        Seq::empty()
    } else {
        let before = foreign_entries(entries.drop_last(), base_url);
        if entry_is_ours(entries.last(), base_url) {
            before
        } else {
            before.push(entries.last())
        }
    }
}

/// Whether the `openai` providers are a `{ protocol, models }` wrapper
/// around the list of entries.
pub open spec fn is_wrapped(openai: Option<Doc>) -> bool {
    openai matches Some(doc) && doc.get("models"@) matches Some(Doc::Array(_))
}

/// The entries of the `openai` providers: the list itself, or the one in a
/// wrapper, or none.
pub open spec fn openai_entries(openai: Option<Doc>) -> Seq<Doc> {
    match openai {
        Some(Doc::Array(items)) => items,
        Some(doc) => match doc.get("models"@) {
            Some(Doc::Array(items)) => items,
            _ => Seq::empty(),
        },
        None => Seq::empty(),
    }
}

/// The `openai` providers of a settings document.
pub open spec fn openai_of(doc: Map<Seq<char>, Doc>) -> Option<Doc> {
    Doc::Object(members_under(doc, "modelProviders"@)).get("openai"@)
}

/// `modelProviders` with llmman's entry first in `openai`, and the entries
/// of others behind it.
pub open spec fn providers_merged(
    doc: Map<Seq<char>, Doc>,
    model: Seq<char>,
    base_url: Seq<char>,
    vision: bool,
) -> Doc {
    Doc::Object(
        members_under(doc, "modelProviders"@).insert(
            "openai"@,
            Doc::Array(
                seq![qwen_entry(model, base_url, vision)] + foreign_entries(
                    openai_entries(openai_of(doc)),
                    base_url,
                ),
            ),
        ),
    )
}

/// `security` with the OpenAI-compatible mode selected at the daemon.
pub open spec fn security_merged(doc: Map<Seq<char>, Doc>, base_url: Seq<char>) -> Doc {
    let security = members_under(doc, "security"@);
    Doc::Object(
        security.insert(
            "auth"@,
            Doc::Object(
                members_under(security, "auth"@)
                    .insert("selectedType"@, Doc::Text("openai"@))
                    .insert("baseUrl"@, Doc::Text(base_url)),
            ),
        ),
    )
}

/// `model` naming the model and the daemon.
pub open spec fn model_merged(
    doc: Map<Seq<char>, Doc>,
    model: Seq<char>,
    base_url: Seq<char>,
) -> Doc {
    Doc::Object(
        members_under(doc, "model"@)
            .insert("name"@, Doc::Text(model))
            .insert("baseUrl"@, Doc::Text(base_url)),
    )
}

/// The settings with llmman's entry merged in. A wrapped list of providers
/// is unwrapped, with the version that goes with the plain list.
pub open spec fn qwen_merged(
    existing: Doc,
    model: Seq<char>,
    base_url: Seq<char>,
    vision: bool,
) -> Doc {
    let doc = existing.members();
    let listed = doc.insert("modelProviders"@, providers_merged(doc, model, base_url, vision));
    let versioned = if is_wrapped(openai_of(doc)) {
        listed.insert("$version"@, Doc::Number(number_of(4)))
    } else {
        listed
    };
    let secured = versioned.insert("security"@, security_merged(versioned, base_url));
    Doc::Object(secured.insert("model"@, model_merged(secured, model, base_url)))
}

/// llmman's entry for a model.
fn make_entry(model: &str, base_url: &str, vision: bool) -> (r: Json)
    ensures
        r@ == qwen_entry(model@, base_url@, vision),
{
    let mut name = model.to_owned();
    name.append(" (llmman)");
    let mut entry: Vec<(String, Json)> = Vec::new();
    put(&mut entry, "id", text_value(model));
    put(&mut entry, "name", Json::Text(name));
    put(&mut entry, "baseUrl", text_value(base_url));
    put(&mut entry, "envKey", text_value(QWEN_ENV_KEY));
    if vision {
        let mut image: Vec<(String, Json)> = Vec::new();
        put(&mut image, "image", Json::Bool(true));
        let mut modalities: Vec<(String, Json)> = Vec::new();
        put(&mut modalities, "modalities", Json::Object(image));
        put(&mut entry, "generationConfig", Json::Object(modalities));
    }
    Json::Object(entry)
}

/// Copies of the entries that are not llmman's, put behind `out`.
fn keep_foreign(out: &mut Vec<Json>, entries: &Vec<Json>, base_url: &str)
    ensures
        docs(final(out)@) == docs(old(out)@) + foreign_entries(docs(entries@), base_url@),
{
    let ghost before = docs(out@);
    let ghost all = docs(entries@);
    for i in 0..entries.len()
        invariant
            all == docs(entries@),
            docs(out@) == before + foreign_entries(all.take(i as int), base_url@),
    {
        assert(all.take(i + 1).drop_last() == all.take(i as int));
        assert(all.take(i + 1).last() == entries@[i as int]@);
        if !qwen_entry_is_ours(&entries[i], base_url) {
            let ghost so_far = out@;
            out.push(entries[i].clone());
            assert(docs(out@) == docs(so_far).push(entries@[i as int]@));
        }
    }
    assert(all.take(all.len() as int) == all);
}

/// `existing` with llmman's entry merged in: the entry first in
/// `modelProviders.openai`, an earlier one of llmman's replaced, the rest
/// kept and a `{ protocol, models }` wrapper unwrapped with `$version` set
/// to 4; `security.auth`; `model.name` and `model.baseUrl`. What is of
/// another type on the way there is replaced, and a document that is not an
/// object counts as empty.
pub fn qwen_settings_merged(existing: &Json, model: &str, base_url: &str, vision: bool) -> (r: Json)
    ensures
        r@ == qwen_merged(existing@, model@, base_url@, vision),
{
    let mut doc = members(existing);
    let ghost doc0 = fields(doc@);

    let mut providers = object_under(&doc, "modelProviders");
    let mut list: Vec<Json> = Vec::new();
    list.push(make_entry(model, base_url, vision));
    let ghost ours = qwen_entry(model@, base_url@, vision);
    assert(docs(list@) == seq![ours]);
    let mut unwrapped = false;
    match field(&providers, "openai") {
        Some(openai) => {
            if let Some(models) = openai.get("models") {
                if models.as_array().is_some() {
                    unwrapped = true;
                }
            }
            match openai.as_array() {
                Some(entries) => keep_foreign(&mut list, entries, base_url),
                None => {
                    if let Some(models) = openai.get("models") {
                        if let Some(entries) = models.as_array() {
                            keep_foreign(&mut list, entries, base_url);
                        }
                    }
                },
            }
        },
        None => {},
    }
    proof {
        assert(unwrapped == is_wrapped(openai_of(doc0)));
        assert(docs(list@) =~= seq![ours] + foreign_entries(
            openai_entries(openai_of(doc0)),
            base_url@,
        ));
        lemma_array_view(list);
    }
    put(&mut providers, "openai", Json::Array(list));
    put(&mut doc, "modelProviders", Json::Object(providers));
    if unwrapped {
        put(&mut doc, "$version", count_value(4));
    }

    let mut security = object_under(&doc, "security");
    let mut auth = object_under(&security, "auth");
    put(&mut auth, "selectedType", text_value("openai"));
    put(&mut auth, "baseUrl", text_value(base_url));
    put(&mut security, "auth", Json::Object(auth));
    put(&mut doc, "security", Json::Object(security));

    let mut chosen = object_under(&doc, "model");
    put(&mut chosen, "name", text_value(model));
    put(&mut chosen, "baseUrl", text_value(base_url));
    put(&mut doc, "model", Json::Object(chosen));
    Json::Object(doc)
}

/// What becomes of `settings.json` when a model is launched.
pub open spec fn qwen_change(
    raw: Option<Seq<char>>,
    backup_exists: bool,
    model: Seq<char>,
    base_url: Seq<char>,
    vision: bool,
) -> Change {
    match object_in(raw, false) {
        None => Change::NotAnObject,
        Some(existing) => update_of(
            raw,
            backup_exists,
            existing,
            qwen_merged(existing, model, base_url, vision),
        ),
    }
}

/// What becomes of `settings.json` when a model is launched: llmman's entry
/// is merged in.
pub fn qwen_settings_update(
    raw: Option<&str>,
    backup_exists: bool,
    model: &str,
    base_url: &str,
    vision: bool,
) -> (r: FileUpdate)
    ensures
        r@ == qwen_change(text_of(raw), backup_exists, model@, base_url@, vision),
        object_in(text_of(raw), false) matches Some(existing) ==> {
            let merged = qwen_merged(existing, model@, base_url@, vision);
            &&& reads_back(r, merged, false)
            &&& merged == existing ==> r is Keep
        },
{
    match read_object(raw, false) {
        None => FileUpdate::NotAnObject,
        Some(existing) => {
            let merged = qwen_settings_merged(&existing, model, base_url, vision);
            update_file(raw, backup_exists, &existing, &merged)
        },
    }
}

// ---------------------------------------------------------------------------
// The command line
// ---------------------------------------------------------------------------

/// The arguments Qwen Code is run with: llmman's own in front, each left
/// out where the caller spelled it.
pub open spec fn qwen_command(model: Seq<char>, extra: Seq<Seq<char>>) -> Seq<Seq<char>> {
    let auth = if flag_given(extra, "--auth-type"@, Some("--authType"@)) {
        Seq::empty()
    } else {
        seq!["--auth-type"@, "openai"@]
    };
    let named = if flag_given(extra, "--model"@, Some("-m"@)) {
        Seq::empty()
    } else {
        seq!["--model"@, model]
    };
    auth + named + extra
}

/// `--auth-type openai --model <model>` ahead of the caller's own
/// arguments, each dropped when the caller already passed it after `--`:
/// Qwen Code crashes on either flag repeated, and a caller who spelled out
/// an auth type meant it.
pub fn qwen_args(model: &str, extra_args: &[String]) -> (r: Vec<String>)
    ensures
        texts(r@) == qwen_command(model@, texts(extra_args@)),
{
    let mut args: Vec<String> = Vec::new();
    if !has_flag(extra_args, "--auth-type", Some("--authType")) {
        push_text(&mut args, "--auth-type");
        push_text(&mut args, "openai");
    }
    if !has_flag(extra_args, "--model", Some("-m")) {
        push_text(&mut args, "--model");
        push_text(&mut args, model);
    }
    extend_texts(&mut args, extra_args);
    assert(texts(args@) =~= qwen_command(model@, texts(extra_args@)));
    args
}

/// The model Qwen Code will use, and whether to declare its image input.
pub open spec fn qwen_choice(
    model: Seq<char>,
    vision: bool,
    extra: Seq<Seq<char>>,
    resolved: Option<Seq<char>>,
) -> (Seq<char>, bool) {
    match model_forwarded(extra) {
        Some(forwarded) => (forwarded, vision && resolved == Some(model)),
        None => (model, vision),
    }
}

/// The model Qwen Code will use, a `--model` after `--` wins, and whether
/// to declare its image input, which `vision` answers for `model` alone.
/// `model` arrives resolved and the forwarded name as typed, so they are
/// compared resolved: `resolved` is what the forwarded name resolves to,
/// none if it resolves to nothing.
pub fn qwen_model_and_vision<'a>(
    model: &'a str,
    vision: bool,
    extra_args: &'a [String],
    resolved: Option<&str>,
) -> (r: (&'a str, bool))
    ensures
        (r.0@, r.1) == qwen_choice(model@, vision, texts(extra_args@), text_of(resolved)),
{
    match forwarded_model(extra_args) {
        Some(forwarded) => {
            let alike = match resolved {
                Some(resolved) => same(resolved, model),
                None => false,
            };
            (forwarded, vision && alike)
        },
        None => (model, vision),
    }
}

// ---------------------------------------------------------------------------
// Laws
// ---------------------------------------------------------------------------

/// The fields of a settings document that the merge writes to have names
/// of their own.
proof fn lemma_names_differ()
    ensures
        "modelProviders"@ != "$version"@,
        "modelProviders"@ != "security"@,
        "modelProviders"@ != "model"@,
        "$version"@ != "security"@,
        "$version"@ != "model"@,
        "security"@ != "model"@,
        "baseUrl"@ != "envKey"@,
        "baseUrl"@ != "generationConfig"@,
        "baseUrl"@ != "selectedType"@,
        "baseUrl"@ != "name"@,
        "envKey"@ != "generationConfig"@,
{
    reveal_strlit("modelProviders");
    reveal_strlit("$version");
    reveal_strlit("security");
    reveal_strlit("model");
    reveal_strlit("baseUrl");
    reveal_strlit("envKey");
    reveal_strlit("generationConfig");
    reveal_strlit("selectedType");
    reveal_strlit("name");
    assert("modelProviders"@.len() == 14);
    assert("$version"@.len() == 8);
    assert("security"@.len() == 8);
    assert("model"@.len() == 5);
    assert("baseUrl"@.len() == 7);
    assert("envKey"@.len() == 6);
    assert("generationConfig"@.len() == 16);
    assert("selectedType"@.len() == 12);
    assert("name"@.len() == 4);
    assert("$version"@[0] != "security"@[0]);
}

/// llmman knows the entry it writes.
pub proof fn law_our_entry_is_ours(model: Seq<char>, base_url: Seq<char>, vision: bool)
    ensures
        entry_is_ours(qwen_entry(model, base_url, vision), base_url),
{
    lemma_names_differ();
}

/// Keeping what is not llmman's keeps all of it the second time.
proof fn lemma_foreign_again(entries: Seq<Doc>, base_url: Seq<char>)
    ensures
        foreign_entries(foreign_entries(entries, base_url), base_url) == foreign_entries(
            entries,
            base_url,
        ),
    decreases entries.len(),
{
    if entries.len() > 0 {
        lemma_foreign_again(entries.drop_last(), base_url);
        let before = foreign_entries(entries.drop_last(), base_url);
        if !entry_is_ours(entries.last(), base_url) {
            assert(before.push(entries.last()).drop_last() == before);
        }
    }
}

/// An entry of llmman's in front of a list is the one that goes.
proof fn lemma_foreign_behind_ours(ours: Doc, entries: Seq<Doc>, base_url: Seq<char>)
    requires
        entry_is_ours(ours, base_url),
    ensures
        foreign_entries(seq![ours] + entries, base_url) == foreign_entries(entries, base_url),
    decreases entries.len(),
{
    let all = seq![ours] + entries;
    if entries.len() == 0 {
        assert(all == seq![ours]);
        assert(all.drop_last() =~= Seq::<Doc>::empty());
        assert(foreign_entries(all.drop_last(), base_url) == Seq::<Doc>::empty());
    } else {
        assert(all.drop_last() == seq![ours] + entries.drop_last());
        lemma_foreign_behind_ours(ours, entries.drop_last(), base_url);
    }
}

/// What is listed after a merge: the entries of others are those that were
/// there before it.
proof fn lemma_listed_after_merge(
    existing: Doc,
    model: Seq<char>,
    base_url: Seq<char>,
    vision: bool,
)
    ensures
        ({
            let doc = existing.members();
            let after = qwen_merged(existing, model, base_url, vision).members();
            &&& members_under(after, "modelProviders"@) == members_under(
                doc,
                "modelProviders"@,
            ).insert(
                "openai"@,
                Doc::Array(
                    seq![qwen_entry(model, base_url, vision)] + foreign_entries(
                        openai_entries(openai_of(doc)),
                        base_url,
                    ),
                ),
            )
            &&& !is_wrapped(openai_of(after))
            &&& foreign_entries(openai_entries(openai_of(after)), base_url) == foreign_entries(
                openai_entries(openai_of(doc)),
                base_url,
            )
        }),
{
    lemma_names_differ();
    let doc = existing.members();
    let after = qwen_merged(existing, model, base_url, vision).members();
    let foreign = foreign_entries(openai_entries(openai_of(doc)), base_url);
    let ours = qwen_entry(model, base_url, vision);
    assert(after["modelProviders"@] == providers_merged(doc, model, base_url, vision));
    assert(openai_of(after) == Some(Doc::Array(seq![ours] + foreign)));
    law_our_entry_is_ours(model, base_url, vision);
    lemma_foreign_behind_ours(ours, foreign, base_url);
    lemma_foreign_again(openai_entries(openai_of(doc)), base_url);
}

/// The last launch wins and leaves nothing of the one before it: merging
/// for one model and then, at the same daemon, for another gives what the
/// second merge alone gives.
pub proof fn law_the_last_merge_wins(
    existing: Doc,
    first: Seq<char>,
    first_vision: bool,
    second: Seq<char>,
    second_vision: bool,
    base_url: Seq<char>,
)
    ensures
        qwen_merged(
            qwen_merged(existing, first, base_url, first_vision),
            second,
            base_url,
            second_vision,
        ) == qwen_merged(existing, second, base_url, second_vision),
{
    lemma_names_differ();
    lemma_listed_after_merge(existing, first, base_url, first_vision);
    let doc = existing.members();
    let once = qwen_merged(existing, first, base_url, first_vision);
    let mid = once.members();
    let twice = qwen_merged(once, second, base_url, second_vision).members();
    let direct = qwen_merged(existing, second, base_url, second_vision).members();

    assert(providers_merged(mid, second, base_url, second_vision) == providers_merged(
        doc,
        second,
        base_url,
        second_vision,
    )) by {
        let a = providers_merged(mid, second, base_url, second_vision)->Object_0;
        let b = providers_merged(doc, second, base_url, second_vision)->Object_0;
        assert(a =~= b);
    }
    assert(twice["modelProviders"@] == direct["modelProviders"@]);
    assert(twice["security"@] == direct["security"@]) by {
        let a = twice["security"@]->Object_0;
        let b = direct["security"@]->Object_0;
        assert(members_under(a, "auth"@) =~= members_under(b, "auth"@));
        assert(a =~= b);
    }
    assert(twice["model"@] == direct["model"@]) by {
        let a = twice["model"@]->Object_0;
        let b = direct["model"@]->Object_0;
        assert(a =~= b);
    }
    assert(twice =~= direct);
}

/// Merging a second time for the same model changes nothing, so a file
/// that is right is left alone.
pub proof fn law_merging_twice_is_merging_once(
    existing: Doc,
    model: Seq<char>,
    base_url: Seq<char>,
    vision: bool,
)
    ensures
        qwen_merged(qwen_merged(existing, model, base_url, vision), model, base_url, vision)
            == qwen_merged(existing, model, base_url, vision),
{
    law_the_last_merge_wins(existing, model, vision, model, vision, base_url);
}

/// Everything that is not llmman's stays: each other setting as it was,
/// each other provider list, and in `openai` each entry of others, in its
/// order, behind llmman's.
pub proof fn law_what_is_not_ours_stays(
    existing: Doc,
    model: Seq<char>,
    base_url: Seq<char>,
    vision: bool,
)
    ensures
        ({
            let doc = existing.members();
            let after = qwen_merged(existing, model, base_url, vision).members();
            let written = set!["modelProviders"@, "$version"@, "security"@, "model"@];
            let auth = members_under(members_under(doc, "security"@), "auth"@);
            let auth_after = members_under(members_under(after, "security"@), "auth"@);
            &&& forall|k: Seq<char>|
                !written.contains(k) ==> (#[trigger] after.contains_key(k) <==> doc.contains_key(
                    k,
                )) && (doc.contains_key(k) ==> after[k] == doc[k])
            &&& forall|k: Seq<char>|
                k != "openai"@ && #[trigger] members_under(doc, "modelProviders"@).contains_key(k)
                    ==> members_under(after, "modelProviders"@).contains_key(k) && members_under(
                    after,
                    "modelProviders"@,
                )[k] == members_under(doc, "modelProviders"@)[k]
            &&& openai_entries(openai_of(after)) == seq![qwen_entry(model, base_url, vision)]
                + foreign_entries(openai_entries(openai_of(doc)), base_url)
            &&& forall|k: Seq<char>|
                k != "selectedType"@ && k != "baseUrl"@ && #[trigger] auth.contains_key(k)
                    ==> auth_after.contains_key(k) && auth_after[k] == auth[k]
            &&& forall|k: Seq<char>|
                k != "name"@ && k != "baseUrl"@ && #[trigger] members_under(
                    doc,
                    "model"@,
                ).contains_key(k) ==> members_under(after, "model"@).contains_key(k)
                    && members_under(after, "model"@)[k] == members_under(doc, "model"@)[k]
            &&& !is_wrapped(openai_of(doc)) ==> (after.contains_key("$version"@)
                <==> doc.contains_key("$version"@)) && (doc.contains_key("$version"@)
                ==> after["$version"@] == doc["$version"@])
        }),
{
    lemma_names_differ();
    lemma_listed_after_merge(existing, model, base_url, vision);
}

/// A file a launch has written is never rewritten by the next launch like
/// it: what it is read back as is what that launch would write, whatever
/// numbers it holds. It is read back unless it nests too deeply.
pub proof fn law_written_settings_need_no_rewrite(
    update: FileUpdate,
    existing: Doc,
    model: Seq<char>,
    base_url: Seq<char>,
    vision: bool,
)
    requires
        update is Write,
        reads_back(update, qwen_merged(existing, model, base_url, vision), false),
    ensures
        object_in(Some(update->contents@), false) matches Some(written) ==> qwen_merged(
            written,
            model,
            base_url,
            vision,
        ) == written,
        object_in(Some(update->contents@), false) is Some <==> fits(
            qwen_merged(existing, model, base_url, vision),
            max_depth(),
        ),
{
    if let Some(written) = object_in(Some(update->contents@), false) {
        lemma_reread_is_merged(existing, model, base_url, vision, written);
    }
}

/// llmman's entry holds no numbers.
proof fn lemma_entry_is_readable(model: Seq<char>, base_url: Seq<char>, vision: bool)
    ensures
        readable(qwen_entry(model, base_url, vision), 3),
{
    let image = Map::<Seq<char>, Doc>::empty().insert("image"@, Doc::Bool(true));
    let modalities = Map::<Seq<char>, Doc>::empty().insert("modalities"@, Doc::Object(image));
    assert(readable(Doc::Object(image), 1)) by {
        assert forall|k: Seq<char>| #[trigger] image.contains_key(k) implies readable(
            image[k],
            0,
        ) by {}
    }
    assert(readable(Doc::Object(modalities), 2)) by {
        assert forall|k: Seq<char>| #[trigger] modalities.contains_key(k) implies readable(
            modalities[k],
            1,
        ) by {}
    }
    let entry = qwen_entry(model, base_url, vision).members();
    assert forall|k: Seq<char>| #[trigger] entry.contains_key(k) implies readable(
        entry[k],
        2,
    ) by {}
}

/// What is read back of an entry is as much llmman's as the entry is.
proof fn lemma_reread_entry(entry: Doc, other: Doc, base_url: Seq<char>)
    requires
        reread(entry, other),
    ensures
        entry_is_ours(entry, base_url) == entry_is_ours(other, base_url),
{
    lemma_reread_field(entry, other, "envKey"@);
    lemma_reread_field(entry, other, "baseUrl"@);
}

/// Entries none of which is llmman's all stay.
proof fn lemma_all_foreign(entries: Seq<Doc>, base_url: Seq<char>)
    requires
        forall|i: int| 0 <= i < entries.len() ==> !entry_is_ours(#[trigger] entries[i], base_url),
    ensures
        foreign_entries(entries, base_url) == entries,
    decreases entries.len(),
{
    if entries.len() > 0 {
        let front = entries.drop_last();
        assert forall|i: int| 0 <= i < front.len() implies !entry_is_ours(
            #[trigger] front[i],
            base_url,
        ) by {
            assert(!entry_is_ours(entries[i], base_url));
        }
        lemma_all_foreign(front, base_url);
        assert(!entry_is_ours(entries[entries.len() - 1], base_url));
        assert(front.push(entries.last()) =~= entries);
    } else {
        assert(foreign_entries(entries, base_url) =~= entries);
    }
}

/// The entries that are not llmman's are not.
proof fn lemma_foreign_are_foreign(entries: Seq<Doc>, base_url: Seq<char>)
    ensures
        forall|i: int|
            0 <= i < foreign_entries(entries, base_url).len() ==> !entry_is_ours(
                #[trigger] foreign_entries(entries, base_url)[i],
                base_url,
            ),
    decreases entries.len(),
{
    if entries.len() > 0 {
        let before = foreign_entries(entries.drop_last(), base_url);
        let all = foreign_entries(entries, base_url);
        lemma_foreign_are_foreign(entries.drop_last(), base_url);
        assert forall|i: int| 0 <= i < all.len() implies !entry_is_ours(
            #[trigger] all[i],
            base_url,
        ) by {
            if i < before.len() {
                assert(all[i] == before[i]);
            }
        }
    }
}

/// What merged settings are read back as has everything a merge sets.
proof fn lemma_reread_is_merged(
    existing: Doc,
    model: Seq<char>,
    base_url: Seq<char>,
    vision: bool,
    written: Doc,
)
    requires
        reread(qwen_merged(existing, model, base_url, vision), written),
    ensures
        qwen_merged(written, model, base_url, vision) == written,
{
    lemma_names_differ();
    lemma_listed_after_merge(existing, model, base_url, vision);
    law_our_entry_is_ours(model, base_url, vision);
    let ours = qwen_entry(model, base_url, vision);
    let m = qwen_merged(existing, model, base_url, vision).members();
    let w = written->Object_0;
    let foreign = foreign_entries(openai_entries(openai_of(existing.members())), base_url);
    lemma_foreign_are_foreign(openai_entries(openai_of(existing.members())), base_url);

    // The providers.
    assert(m.contains_key("modelProviders"@));
    let p = m["modelProviders"@]->Object_0;
    let q = w["modelProviders"@]->Object_0;
    assert(reread(m["modelProviders"@], w["modelProviders"@]));
    assert(p.contains_key("openai"@));
    let list = seq![ours] + foreign;
    assert(p["openai"@] == Doc::Array(list));
    assert(reread(p["openai"@], q["openai"@]));
    let read = q["openai"@]->Array_0;
    assert(reread(list[0], read[0]));
    lemma_entry_is_readable(model, base_url, vision);
    lemma_reread_exact(ours, read[0], 3);
    let rest = read.skip(1);
    assert forall|i: int| 0 <= i < rest.len() implies !entry_is_ours(
        #[trigger] rest[i],
        base_url,
    ) by {
        assert(reread(list[i + 1], read[i + 1]));
        assert(list[i + 1] == foreign[i]);
        lemma_reread_entry(list[i + 1], read[i + 1], base_url);
    }
    assert(read =~= seq![ours] + rest);
    lemma_foreign_behind_ours(ours, rest, base_url);
    lemma_all_foreign(rest, base_url);
    assert(q.dom().contains("openai"@));
    assert(w.dom().contains("modelProviders"@));
    assert(members_under(w, "modelProviders"@) == q);
    assert(openai_of(w) == Some(Doc::Array(read)));
    assert(q.insert("openai"@, Doc::Array(read)) =~= q);
    assert(providers_merged(w, model, base_url, vision) == Doc::Object(q));
    assert(w.insert("modelProviders"@, Doc::Object(q)) =~= w);

    // The authentication.
    assert(m.contains_key("security"@));
    assert(reread(m["security"@], w["security"@]));
    let s = m["security"@]->Object_0;
    let t = w["security"@]->Object_0;
    assert(s.contains_key("auth"@));
    assert(reread(s["auth"@], t["auth"@]));
    let a = s["auth"@]->Object_0;
    let b = t["auth"@]->Object_0;
    lemma_reread_field(s["auth"@], t["auth"@], "selectedType"@);
    lemma_reread_field(s["auth"@], t["auth"@], "baseUrl"@);
    assert(a["selectedType"@] == Doc::Text("openai"@));
    assert(a["baseUrl"@] == Doc::Text(base_url));
    assert(b["selectedType"@] == Doc::Text("openai"@));
    assert(b["baseUrl"@] == Doc::Text(base_url));
    assert(b.dom().contains("selectedType"@) && b.dom().contains("baseUrl"@));
    assert(t.dom().contains("auth"@));
    assert(w.dom().contains("security"@));
    assert(b.insert("selectedType"@, Doc::Text("openai"@)).insert(
        "baseUrl"@,
        Doc::Text(base_url),
    ) =~= b);
    assert(t.insert("auth"@, Doc::Object(b)) =~= t);
    assert(security_merged(w, base_url) == Doc::Object(t));
    assert(w.insert("security"@, Doc::Object(t)) =~= w);

    // The model.
    assert(m.contains_key("model"@));
    assert(reread(m["model"@], w["model"@]));
    let c = m["model"@]->Object_0;
    let d = w["model"@]->Object_0;
    lemma_reread_field(m["model"@], w["model"@], "name"@);
    lemma_reread_field(m["model"@], w["model"@], "baseUrl"@);
    assert(c["name"@] == Doc::Text(model));
    assert(c["baseUrl"@] == Doc::Text(base_url));
    assert(d["name"@] == Doc::Text(model));
    assert(d["baseUrl"@] == Doc::Text(base_url));
    assert(d.dom().contains("name"@) && d.dom().contains("baseUrl"@));
    assert(w.dom().contains("model"@));
    assert(d.insert("name"@, Doc::Text(model)).insert("baseUrl"@, Doc::Text(base_url)) =~= d);
    assert(model_merged(w, model, base_url) == Doc::Object(d));
    assert(w.insert("model"@, Doc::Object(d)) =~= w);
}

/// How many of some arguments spell a flag.
pub open spec fn times_spelled(
    args: Seq<Seq<char>>,
    long: Seq<char>,
    short: Option<Seq<char>>,
) -> nat
    decreases args.len(),
{
    if args.len() == 0 {
        0
    } else {
        times_spelled(args.drop_first(), long, short) + if spells_either(args[0], long, short) {
            1nat
        } else {
            0nat
        }
    }
}

/// Neither flag is ever repeated by llmman: the caller's spellings are the
/// only ones, or there is exactly llmman's. The model's own name is taken
/// not to spell a flag.
pub proof fn law_no_flag_is_repeated(model: Seq<char>, extra: Seq<Seq<char>>)
    requires
        !spells_either(model, "--model"@, Some("-m"@)),
        !spells_either(model, "--auth-type"@, Some("--authType"@)),
    ensures
        times_spelled(qwen_command(model, extra), "--model"@, Some("-m"@)) == if flag_given(
            extra,
            "--model"@,
            Some("-m"@),
        ) {
            times_spelled(extra, "--model"@, Some("-m"@))
        } else {
            1
        },
        times_spelled(qwen_command(model, extra), "--auth-type"@, Some("--authType"@))
            == if flag_given(extra, "--auth-type"@, Some("--authType"@)) {
            times_spelled(extra, "--auth-type"@, Some("--authType"@))
        } else {
            1
        },
{
    lemma_own_words();
    let all = qwen_command(model, extra);
    let auth = flag_given(extra, "--auth-type"@, Some("--authType"@));
    let named = flag_given(extra, "--model"@, Some("-m"@));
    if !auth {
        lemma_not_given(extra, "--auth-type"@, Some("--authType"@));
    }
    if !named {
        lemma_not_given(extra, "--model"@, Some("-m"@));
    }
    let rest = if named {
        extra
    } else {
        seq!["--model"@, model] + extra
    };
    if !named {
        assert(rest.drop_first().drop_first() =~= extra);
        assert(rest.drop_first()[0] == model);
        assert(rest[0] == "--model"@);
        assert(times_spelled(rest, "--model"@, Some("-m"@)) == 1) by {
            reveal_with_fuel(times_spelled, 3);
        }
        assert(times_spelled(rest, "--auth-type"@, Some("--authType"@)) == times_spelled(
            extra,
            "--auth-type"@,
            Some("--authType"@),
        )) by {
            reveal_with_fuel(times_spelled, 3);
        }
    }
    if auth {
        assert(all =~= rest);
    } else {
        assert(all.drop_first().drop_first() =~= rest);
        assert(all.drop_first()[0] == "openai"@);
        assert(all[0] == "--auth-type"@);
        reveal_with_fuel(times_spelled, 3);
    }
}

proof fn lemma_not_given(args: Seq<Seq<char>>, long: Seq<char>, short: Option<Seq<char>>)
    requires
        !flag_given(args, long, short),
    ensures
        times_spelled(args, long, short) == 0,
    decreases args.len(),
{
    if args.len() > 0 {
        let rest = args.drop_first();
        assert(!spells_either(args[0], long, short));
        assert forall|i: int| 0 <= i < rest.len() implies !spells_either(
            #[trigger] rest[i],
            long,
            short,
        ) by {
            assert(rest[i] == args[i + 1]);
        }
        lemma_not_given(rest, long, short);
    }
}

/// The words llmman puts in front spell what they should and nothing else.
proof fn lemma_own_words()
    ensures
        spells_either("--model"@, "--model"@, Some("-m"@)),
        !spells_either("--auth-type"@, "--model"@, Some("-m"@)),
        !spells_either("openai"@, "--model"@, Some("-m"@)),
        spells_either("--auth-type"@, "--auth-type"@, Some("--authType"@)),
        !spells_either("--model"@, "--auth-type"@, Some("--authType"@)),
        !spells_either("openai"@, "--auth-type"@, Some("--authType"@)),
{
    reveal_strlit("--model");
    reveal_strlit("-m");
    reveal_strlit("--auth-type");
    reveal_strlit("--authType");
    reveal_strlit("openai");
    assert("--model"@.len() == 7 && "--model"@[2] == 'm' && "--model"@[1] == '-');
    assert("-m"@.len() == 2 && "-m"@[1] == 'm');
    assert("--auth-type"@.len() == 11 && "--auth-type"@[2] == 'a' && "--auth-type"@[1] == '-');
    assert("--authType"@.len() == 10 && "--authType"@[2] == 'a');
    assert("openai"@.len() == 6 && "openai"@[0] == 'o');
    assert("--auth-type"@[6] == '-' && "--authType"@[6] == 'T');
    lemma_other_word("--auth-type"@, "--model"@, 2);
    lemma_other_word("--auth-type"@, "-m"@, 1);
    lemma_other_word("openai"@, "-m"@, 1);
    lemma_other_word("--model"@, "--auth-type"@, 2);
    lemma_other_word("--model"@, "--authType"@, 2);
}

/// A word that differs from a flag inside of it does not spell it.
proof fn lemma_other_word(arg: Seq<char>, flag: Seq<char>, i: int)
    requires
        0 <= i < flag.len(),
        i < arg.len(),
        arg[i] != flag[i],
    ensures
        !spells(arg, flag),
{
    let joined = flag.push('=');
    assert(joined[i] == flag[i]);
    if joined.is_prefix_of(arg) {
        assert(arg.subrange(0, joined.len() as int)[i] == arg[i]);
    }
}

/// What llmman's entry says: the model, under a name that shows whose it
/// is, the daemon's address, and the variable that holds the key. A vision
/// model's declares image input; another says nothing of it.
pub proof fn law_what_our_entry_says(model: Seq<char>, base_url: Seq<char>, vision: bool)
    ensures
        ({
            let entry = qwen_entry(model, base_url, vision);
            let image = Doc::Object(
                Map::<Seq<char>, Doc>::empty().insert("image"@, Doc::Bool(true)),
            );
            &&& entry.get("id"@) == Some(Doc::Text(model))
            &&& entry.get("name"@) == Some(Doc::Text(model + " (llmman)"@))
            &&& entry.get("baseUrl"@) == Some(Doc::Text(base_url))
            &&& entry.get("envKey"@) == Some(Doc::Text("LLMMAN_API_KEY"@))
            &&& entry.get("generationConfig"@) == if vision {
                Some(Doc::Object(Map::<Seq<char>, Doc>::empty().insert("modalities"@, image)))
            } else {
                None
            }
            &&& forall|k: Seq<char>| #[trigger]
                entry.members().contains_key(k) ==> k == "id"@ || k == "name"@ || k == "baseUrl"@
                    || k == "envKey"@ || k == "generationConfig"@
        }),
{
    reveal_strlit("id");
    reveal_strlit("name");
    reveal_strlit("baseUrl");
    reveal_strlit("envKey");
    reveal_strlit("generationConfig");
    assert("id"@.len() == 2);
    assert("name"@.len() == 4);
    assert("baseUrl"@.len() == 7);
    assert("envKey"@.len() == 6);
    assert("generationConfig"@.len() == 16);
}

/// What a launch sets in the settings: llmman's entry first in `openai`,
/// the OpenAI-compatible mode at the daemon, and the model. A wrapped list
/// is unwrapped, with the version that goes with it.
pub proof fn law_what_a_launch_sets(
    existing: Doc,
    model: Seq<char>,
    base_url: Seq<char>,
    vision: bool,
)
    ensures
        ({
            let after = qwen_merged(existing, model, base_url, vision);
            let listed = after.get("modelProviders"@)->0.get("openai"@)->0->Array_0;
            let auth = after.get("security"@)->0.get("auth"@)->0;
            let chosen = after.get("model"@)->0;
            &&& after.get("modelProviders"@)->0.get("openai"@) matches Some(Doc::Array(_))
            &&& listed.len() > 0 && listed[0] == qwen_entry(model, base_url, vision)
            &&& forall|i: int|
                1 <= i < listed.len() ==> !entry_is_ours(#[trigger] listed[i], base_url)
            &&& auth.get("selectedType"@) == Some(Doc::Text("openai"@))
            &&& auth.get("baseUrl"@) == Some(Doc::Text(base_url))
            &&& chosen.get("name"@) == Some(Doc::Text(model))
            &&& chosen.get("baseUrl"@) == Some(Doc::Text(base_url))
            &&& is_wrapped(openai_of(existing.members())) ==> after.get("$version"@) == Some(
                Doc::Number(number_of(4)),
            )
        }),
{
    lemma_names_differ();
    let doc = existing.members();
    let foreign = foreign_entries(openai_entries(openai_of(doc)), base_url);
    lemma_foreign_are_foreign(openai_entries(openai_of(doc)), base_url);
    let listed = seq![qwen_entry(model, base_url, vision)] + foreign;
    assert forall|i: int| 1 <= i < listed.len() implies !entry_is_ours(
        #[trigger] listed[i],
        base_url,
    ) by {
        assert(listed[i] == foreign[i - 1]);
    }
    let after = qwen_merged(existing, model, base_url, vision);
    assert(after.get("modelProviders"@) == Some(providers_merged(doc, model, base_url, vision)));
}

/// An entry is llmman's where it is keyed by llmman's variable and stands
/// at this daemon's address, slashes at the end of either apart.
pub proof fn law_which_entries_are_ours(
    entry: Doc,
    key: Seq<char>,
    url: Seq<char>,
    base_url: Seq<char>,
)
    ensures
        entry.get("envKey"@) == Some(Doc::Text(key)) && entry.get("baseUrl"@) == Some(
            Doc::Text(url),
        ) ==> (entry_is_ours(entry, base_url) <==> key == "LLMMAN_API_KEY"@
            && without_trailing_slashes(url) == without_trailing_slashes(base_url)),
        !(entry.get("envKey"@) matches Some(Doc::Text(_))) ==> !entry_is_ours(entry, base_url),
        !(entry.get("baseUrl"@) matches Some(Doc::Text(_))) ==> !entry_is_ours(entry, base_url),
        without_trailing_slashes(url).len() <= url.len(),
        without_trailing_slashes(url) == url.take(without_trailing_slashes(url).len() as int),
        without_trailing_slashes(url).len() > 0 ==> without_trailing_slashes(url).last() != '/',
        forall|i: int| without_trailing_slashes(url).len() <= i < url.len() ==> url[i] == '/',
{
    lemma_trailing_slashes(url);
}

/// Only slashes at the end go, and all of them.
proof fn lemma_trailing_slashes(s: Seq<char>)
    ensures
        without_trailing_slashes(s).len() <= s.len(),
        without_trailing_slashes(s) == s.take(without_trailing_slashes(s).len() as int),
        without_trailing_slashes(s).len() > 0 ==> without_trailing_slashes(s).last() != '/',
        forall|i: int| without_trailing_slashes(s).len() <= i < s.len() ==> s[i] == '/',
    decreases s.len(),
{
    if s.len() > 0 && s.last() == '/' {
        let front = s.drop_last();
        lemma_trailing_slashes(front);
        let n = without_trailing_slashes(s).len() as int;
        assert(front.take(n) =~= s.take(n));
        assert forall|i: int| n <= i < s.len() implies s[i] == '/' by {
            if i < front.len() {
                assert(front[i] == '/');
            }
        }
    } else {
        assert(s.take(s.len() as int) =~= s);
    }
}

/// The entries of others stay, each of them, in their order: they are what
/// is left of the list without llmman's.
pub proof fn law_entries_of_others_stay(entries: Seq<Doc>, base_url: Seq<char>)
    ensures
        foreign_entries(entries, base_url) == entries.filter(
            |e: Doc| !entry_is_ours(e, base_url),
        ),
    decreases entries.len(),
{
    reveal(Seq::filter);
    if entries.len() > 0 {
        law_entries_of_others_stay(entries.drop_last(), base_url);
    } else {
        assert(foreign_entries(entries, base_url) =~= entries.filter(
            |e: Doc| !entry_is_ours(e, base_url),
        ));
    }
}

/// The entries are the list itself, or the one in a wrapper; a wrapper is
/// anything with a list of models.
pub proof fn law_where_entries_are_found(items: Seq<Doc>, doc: Doc)
    ensures
        openai_entries(None) == Seq::<Doc>::empty(),
        openai_entries(Some(Doc::Array(items))) == items,
        !is_wrapped(Some(Doc::Array(items))) && !is_wrapped(None),
        doc.get("models"@) == Some(Doc::Array(items)) ==> openai_entries(Some(doc)) == items
            && is_wrapped(Some(doc)),
        !(doc.get("models"@) matches Some(Doc::Array(_))) ==> !is_wrapped(Some(doc)),
        !(doc.get("models"@) matches Some(Doc::Array(_))) && doc !is Array ==> openai_entries(
            Some(doc),
        ) == Seq::<Doc>::empty(),
{
}

/// The caller's model wins, and its vision is not known unless it is the
/// model that was asked for.
pub proof fn law_whose_model_is_used(
    model: Seq<char>,
    vision: bool,
    extra: Seq<Seq<char>>,
    resolved: Option<Seq<char>>,
)
    ensures
        model_forwarded(extra) is None ==> qwen_choice(model, vision, extra, resolved) == (
            model,
            vision,
        ),
        model_forwarded(extra) matches Some(theirs) ==> qwen_choice(model, vision, extra, resolved)
            == (theirs, vision && resolved is Some && resolved->0 == model),
{
}

/// What becomes of Qwen Code's settings, by what is in them: an object is
/// merged with, comments apart, and anything else left alone, what begins
/// with a byte order mark too.
pub proof fn law_what_becomes_of_qwens_settings(
    text: Seq<char>,
    backup_exists: bool,
    model: Seq<char>,
    base_url: Seq<char>,
    vision: bool,
)
    requires
        trimmed(text).len() > 0,
    ensures
        ({
            let change = qwen_change(Some(text), backup_exists, model, base_url, vision);
            match parsed_json(uncommented(trimmed(text))) {
                Some(Doc::Object(m)) => change == update_of(
                    Some(text),
                    backup_exists,
                    Doc::Object(m),
                    qwen_merged(Doc::Object(m), model, base_url, vision),
                ),
                _ => change is NotAnObject,
            }
        }),
{
}

/// Settings that are missing, or blank, are merged with as if they were
/// empty.
pub proof fn law_missing_settings_are_written(
    raw: Option<Seq<char>>,
    backup_exists: bool,
    model: Seq<char>,
    base_url: Seq<char>,
    vision: bool,
)
    requires
        raw is Some ==> trimmed(raw->0).len() == 0,
    ensures
        ({
            let empty = Doc::Object(Map::<Seq<char>, Doc>::empty());
            qwen_change(raw, backup_exists, model, base_url, vision) == update_of(
                raw,
                backup_exists,
                empty,
                qwen_merged(empty, model, base_url, vision),
            )
        }),
{
}

} // verus!

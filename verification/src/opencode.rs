//! OpenCode: the configuration it is handed in its environment.

use crate::capabilities::{
    input_kinds, input_list, law_what_a_model_takes_in, ThinkingControls,
};
use crate::endpoint::{v1_of, v1_url};
use crate::json::{put, text_value, Doc, Json};
use crate::text::{push_text, same, string_pairs, texts};
use crate::value::{
    compact_json, fits, json_string, lemma_readable_fits, lemma_reread_exact, lemma_reread_field,
    lemma_reread_unique, lemma_tree_field, max_depth, members_text, object_text, readable,
    reads_trees, reread, tree_doc, tree_fields, tree_fits, tree_text, tree_texts, written, Tree,
};
use vstd::prelude::*;
use vstd::string::*;

verus! {

// ---------------------------------------------------------------------------
// Variants
// ---------------------------------------------------------------------------

/// The choices offered when the model's template could not be read, as that
/// of a provider's model: thinking off, then the levels every wire accepts.
pub open spec fn portable_levels() -> Seq<Seq<char>> {
    seq!["none"@, "low"@, "medium"@, "high"@]
}

/// The choices offered when the model's template could not be read.
pub fn portable_thinking_levels() -> (r: Vec<String>)
    ensures
        texts(r@) == portable_levels(),
{
    let mut out: Vec<String> = Vec::new();
    push_text(&mut out, "none");
    push_text(&mut out, "low");
    push_text(&mut out, "medium");
    push_text(&mut out, "high");
    assert(texts(out@) =~= portable_levels());
    out
}

/// The request options that select a choice.
pub open spec fn variant_options(choice: Seq<char>) -> Doc {
    if choice == "thinking"@ {
        let switch = Map::<Seq<char>, Doc>::empty().insert("enable_thinking"@, Doc::Bool(true));
        Doc::Object(
            Map::<Seq<char>, Doc>::empty().insert("chat_template_kwargs"@, Doc::Object(switch)),
        )
    } else {
        Doc::Object(Map::<Seq<char>, Doc>::empty().insert("reasoningEffort"@, Doc::Text(choice)))
    }
}

/// What the fields of a list say, in their order.
pub open spec fn pairs(list: Seq<(String, Json)>) -> Seq<(Seq<char>, Doc)> {
    list.map_values(|e: (String, Json)| (e.0@, e.1@))
}

/// The variants of a model, each choice with the options that select it.
pub open spec fn variants_of(choices: Seq<Seq<char>>) -> Seq<(Seq<char>, Doc)> {
    choices.map_values(|c: Seq<char>| (c, variant_options(c)))
}

/// The choices a model offers.
pub open spec fn choices_of(thinking: Option<&ThinkingControls>) -> Seq<Seq<char>> {
    match thinking {
        Some(controls) => texts(controls.choices@),
        None => portable_levels(),
    }
}

/// The request options that select `choice`.
fn options_for(choice: &str) -> (r: Json)
    ensures
        r@ == variant_options(choice@),
{
    let mut options: Vec<(String, Json)> = Vec::new();
    if same(choice, "thinking") {
        let mut switch: Vec<(String, Json)> = Vec::new();
        put(&mut switch, "enable_thinking", Json::Bool(true));
        put(&mut options, "chat_template_kwargs", Json::Object(switch));
    } else {
        put(&mut options, "reasoningEffort", text_value(choice));
    }
    Json::Object(options)
}

/// The variants of some choices.
fn variants_for(choices: &Vec<String>) -> (r: Vec<(String, Json)>)
    ensures
        pairs(r@) == variants_of(texts(choices@)),
{
    let mut out: Vec<(String, Json)> = Vec::new();
    for i in 0..choices.len()
        invariant
            out@.len() == i,
            forall|k: int|
                0 <= k < i ==> (#[trigger] out@[k]).0@ == choices@[k]@ && out@[k].1@
                    == variant_options(choices@[k]@),
    {
        out.push((choices[i].clone(), options_for(choices[i].as_str())));
    }
    assert(pairs(out@) =~= variants_of(texts(choices@)));
    out
}

/// opencode's `variants` for the model, in the order it cycles through
/// them: the template's own choices, or the portable ones without a
/// template. A model that does not think gets none.
pub fn opencode_variants(thinking: Option<&ThinkingControls>) -> (r: Vec<(String, Json)>)
    ensures
        pairs(r@) == variants_of(choices_of(thinking)),
        forall|i: int|
            0 <= i < r@.len() && (#[trigger] r@[i]).0@ != "thinking"@ ==> r@[i].1@ == Doc::Object(
                Map::<Seq<char>, Doc>::empty().insert("reasoningEffort"@, Doc::Text(r@[i].0@)),
            ),
{
    proof {
        let choices = choices_of(thinking);
        assert forall|r: Seq<(String, Json)>, i: int|
            pairs(r) == variants_of(choices) && 0 <= i < r.len() && (#[trigger] r[i]).0@
                != "thinking"@ implies r[i].1@ == Doc::Object(
            Map::<Seq<char>, Doc>::empty().insert("reasoningEffort"@, Doc::Text(r[i].0@)),
        ) by {
            assert(pairs(r).len() == r.len());
            assert(variants_of(choices).len() == choices.len());
            assert(pairs(r)[i] == (r[i].0@, r[i].1@));
            assert(variants_of(choices)[i] == (choices[i], variant_options(choices[i])));
        }
    }
    match thinking {
        Some(controls) => variants_for(&controls.choices),
        None => variants_for(&portable_thinking_levels()),
    }
}

// ---------------------------------------------------------------------------
// Writing objects
// ---------------------------------------------------------------------------

/// An object as text, its fields in the order given.
fn write_object(members: &Vec<(String, String)>) -> (r: String)
    ensures
        r@ == object_text(string_pairs(members@)),
{
    let mut out = String::new();
    out.push('{');
    let ghost all = string_pairs(members@);
    assert(all.take(0) =~= Seq::<(Seq<char>, Seq<char>)>::empty());
    for i in 0..members.len()
        invariant
            all == string_pairs(members@),
            out@ == seq!['{'] + members_text(all.take(i as int)),
    {
        let ghost so_far = all.take(i as int);
        let ghost next = all.take(i + 1);
        assert(next.drop_last() =~= so_far);
        assert(next.last() == (members@[i as int].0@, members@[i as int].1@));
        if i > 0 {
            out.push(',');
        }
        let key = compact_json(&text_value(members[i].0.as_str()));
        out.append(key.as_str());
        out.push(':');
        out.append(members[i].1.as_str());
        assert(out@ =~= seq!['{'] + members_text(next));
    }
    assert(all.take(all.len() as int) =~= all);
    out.push('}');
    out
}

/// Puts a field behind the others.
fn add_member(members: &mut Vec<(String, String)>, key: &str, value: String)
    ensures
        string_pairs(final(members)@) == string_pairs(old(members)@).push((key@, value@)),
{
    members.push((key.to_owned(), value));
    assert(string_pairs(members@) =~= string_pairs(old(members)@).push((key@, value@)));
}

/// A string as JSON text.
fn quote(s: &str) -> (r: String)
    ensures
        r@ == json_string(s@),
{
    compact_json(&text_value(s))
}

// ---------------------------------------------------------------------------
// The configuration
// ---------------------------------------------------------------------------

/// Variants as fields.
pub open spec fn variant_members(variants: Seq<(Seq<char>, Doc)>) -> Seq<(Seq<char>, Seq<char>)> {
    variants.map_values(|v: (Seq<char>, Doc)| (v.0, written(v.1)))
}

/// What a vision model takes in and gives out.
pub open spec fn modalities() -> Doc {
    Doc::Object(
        Map::<Seq<char>, Doc>::empty()
            .insert("input"@, input_kinds(true))
            .insert("output"@, input_kinds(false)),
    )
}

/// What a vision model takes in and gives out, as text.
pub open spec fn modalities_text() -> Seq<char> {
    object_text(
        seq![("input"@, written(input_kinds(true))), ("output"@, written(input_kinds(false)))],
    )
}

/// A model of the configuration. No variants leaves the key out, and a
/// text-only model declares nothing.
pub open spec fn model_text(
    model: Seq<char>,
    variants: Seq<(Seq<char>, Doc)>,
    vision: bool,
) -> Seq<char> {
    let named = seq![("name"@, json_string(model))];
    let varied = if variants.len() == 0 {
        named
    } else {
        named.push(("variants"@, object_text(variant_members(variants))))
    };
    object_text(
        if vision {
            varied.push(("modalities"@, modalities_text())).push(
                ("attachment"@, written(Doc::Bool(true))),
            )
        } else {
            varied
        },
    )
}

/// llmman as a provider of the configuration.
pub open spec fn provider_text(
    server: Seq<char>,
    model: Seq<char>,
    api_key: Seq<char>,
    variants: Seq<(Seq<char>, Doc)>,
    vision: bool,
) -> Seq<char> {
    object_text(
        seq![
            ("npm"@, json_string("@ai-sdk/openai-compatible"@)),
            ("name"@, json_string("Ollama"@)),
            (
                "options"@,
                object_text(
                    seq![
                        ("baseURL"@, json_string(v1_of(server))),
                        ("apiKey"@, json_string(api_key)),
                    ],
                ),
            ),
            ("models"@, object_text(seq![(model, model_text(model, variants, vision))])),
        ],
    )
}

/// The configuration.
pub open spec fn config_text(
    server: Seq<char>,
    model: Seq<char>,
    api_key: Seq<char>,
    variants: Seq<(Seq<char>, Doc)>,
    vision: bool,
) -> Seq<char> {
    object_text(
        seq![
            ("$schema"@, json_string("https://opencode.ai/config.json"@)),
            (
                "provider"@,
                object_text(
                    seq![("ollama"@, provider_text(server, model, api_key, variants, vision))],
                ),
            ),
            ("model"@, json_string("ollama/"@ + model)),
        ],
    )
}

/// A model of the configuration.
fn write_model(model: &str, variants: &Vec<(String, Json)>, vision: bool) -> (r: String)
    ensures
        r@ == model_text(model@, pairs(variants@), vision),
{
    let mut members: Vec<(String, String)> = Vec::new();
    add_member(&mut members, "name", quote(model));
    assert(string_pairs(members@) =~= seq![("name"@, json_string(model@))]);
    if variants.len() > 0 {
        let mut listed: Vec<(String, String)> = Vec::new();
        let ghost all = variant_members(pairs(variants@));
        for i in 0..variants.len()
            invariant
                all == variant_members(pairs(variants@)),
                string_pairs(listed@) == all.take(i as int),
        {
            assert(all[i as int] == (variants@[i as int].0@, written(
                variants@[i as int].1@,
            )));
            add_member(&mut listed, variants[i].0.as_str(), compact_json(&variants[i].1));
            assert(all.take(i + 1) =~= all.take(i as int).push(all[i as int]));
        }
        assert(all.take(all.len() as int) =~= all);
        add_member(&mut members, "variants", write_object(&listed));
    }
    if vision {
        let mut kinds: Vec<(String, String)> = Vec::new();
        add_member(&mut kinds, "input", compact_json(&input_list(true)));
        add_member(&mut kinds, "output", compact_json(&input_list(false)));
        assert(string_pairs(kinds@) =~= seq![
            ("input"@, written(input_kinds(true))),
            ("output"@, written(input_kinds(false))),
        ]);
        add_member(&mut members, "modalities", write_object(&kinds));
        add_member(&mut members, "attachment", compact_json(&Json::Bool(true)));
    }
    assert(pairs(variants@).len() == variants@.len());
    write_object(&members)
}

/// The `OPENCODE_CONFIG_CONTENT` for `model` at `server`. The fields are
/// written in the order they are given here: opencode cycles through the
/// variants in the order listed. No variants leaves the key out.
pub fn opencode_config(
    server: &str,
    model: &str,
    api_key: &str,
    variants: &Vec<(String, Json)>,
    vision: bool,
) -> (r: String)
    ensures
        r@ == config_text(server@, model@, api_key@, pairs(variants@), vision),
{
    let url = v1_url(server);
    let mut options: Vec<(String, String)> = Vec::new();
    add_member(&mut options, "baseURL", quote(url.as_str()));
    add_member(&mut options, "apiKey", quote(api_key));
    assert(string_pairs(options@) =~= seq![
        ("baseURL"@, json_string(v1_of(server@))),
        ("apiKey"@, json_string(api_key@)),
    ]);

    let ghost listed = pairs(variants@);
    let mut models: Vec<(String, String)> = Vec::new();
    add_member(&mut models, model, write_model(model, variants, vision));
    assert(string_pairs(models@) =~= seq![(model@, model_text(model@, listed, vision))]);

    let mut provider: Vec<(String, String)> = Vec::new();
    add_member(&mut provider, "npm", quote("@ai-sdk/openai-compatible"));
    add_member(&mut provider, "name", quote("Ollama"));
    add_member(&mut provider, "options", write_object(&options));
    add_member(&mut provider, "models", write_object(&models));
    let ghost ours = provider_text(server@, model@, api_key@, listed, vision);
    let mut providers: Vec<(String, String)> = Vec::new();
    add_member(&mut providers, "ollama", write_object(&provider));
    assert(string_pairs(provider@) =~= seq![
        ("npm"@, json_string("@ai-sdk/openai-compatible"@)),
        ("name"@, json_string("Ollama"@)),
        ("options"@, object_text(string_pairs(options@))),
        ("models"@, object_text(string_pairs(models@))),
    ]);
    assert(string_pairs(providers@) =~= seq![("ollama"@, ours)]);

    let mut name = "ollama/".to_owned();
    name.append(model);
    let mut config: Vec<(String, String)> = Vec::new();
    add_member(&mut config, "$schema", quote("https://opencode.ai/config.json"));
    add_member(&mut config, "provider", write_object(&providers));
    add_member(&mut config, "model", quote(name.as_str()));
    assert(string_pairs(config@) =~= seq![
        ("$schema"@, json_string("https://opencode.ai/config.json"@)),
        ("provider"@, object_text(string_pairs(providers@))),
        ("model"@, json_string("ollama/"@ + model@)),
    ]);
    write_object(&config)
}

// ---------------------------------------------------------------------------
// What the configuration says
// ---------------------------------------------------------------------------

/// Fields by key, the last of a key counting.
pub open spec fn fields_of(list: Seq<(Seq<char>, Doc)>) -> Map<Seq<char>, Doc>
    decreases list.len(),
{
    if list.len() == 0 {
        Map::empty()
    } else {
        fields_of(list.drop_last()).insert(list.last().0, list.last().1)
    }
}

/// What a model of the configuration says.
pub open spec fn model_doc(
    model: Seq<char>,
    variants: Seq<(Seq<char>, Doc)>,
    vision: bool,
) -> Doc {
    let named = Map::<Seq<char>, Doc>::empty().insert("name"@, Doc::Text(model));
    let varied = if variants.len() == 0 {
        named
    } else {
        named.insert("variants"@, Doc::Object(fields_of(variants)))
    };
    Doc::Object(
        if vision {
            varied.insert("modalities"@, modalities()).insert("attachment"@, Doc::Bool(true))
        } else {
            varied
        },
    )
}

/// What the provider of the configuration says: the model is its only one.
pub open spec fn provider_doc(
    server: Seq<char>,
    model: Seq<char>,
    api_key: Seq<char>,
    variants: Seq<(Seq<char>, Doc)>,
    vision: bool,
) -> Doc {
    let options = Map::<Seq<char>, Doc>::empty()
        .insert("baseURL"@, Doc::Text(v1_of(server)))
        .insert("apiKey"@, Doc::Text(api_key));
    let models = Map::<Seq<char>, Doc>::empty().insert(model, model_doc(model, variants, vision));
    Doc::Object(
        Map::<Seq<char>, Doc>::empty()
            .insert("npm"@, Doc::Text("@ai-sdk/openai-compatible"@))
            .insert("name"@, Doc::Text("Ollama"@))
            .insert("options"@, Doc::Object(options))
            .insert("models"@, Doc::Object(models)),
    )
}

/// What the configuration says.
pub open spec fn config_doc(
    server: Seq<char>,
    model: Seq<char>,
    api_key: Seq<char>,
    variants: Seq<(Seq<char>, Doc)>,
    vision: bool,
) -> Doc {
    let providers = Map::<Seq<char>, Doc>::empty().insert(
        "ollama"@,
        provider_doc(server, model, api_key, variants, vision),
    );
    Doc::Object(
        Map::<Seq<char>, Doc>::empty()
            .insert("$schema"@, Doc::Text("https://opencode.ai/config.json"@))
            .insert("provider"@, Doc::Object(providers))
            .insert("model"@, Doc::Text("ollama/"@ + model)),
    )
}

/// How deep the options of a variant may nest.
pub open spec fn options_depth() -> nat {
    (max_depth() - 6) as nat
}

/// Variants whose options nest no deeper than `depth`.
pub open spec fn variants_fit(variants: Seq<(Seq<char>, Doc)>, depth: nat) -> bool {
    forall|i: int| 0 <= i < variants.len() ==> fits((#[trigger] variants[i]).1, depth)
}

/// A document with a field set.
pub open spec fn with_field(doc: Doc, key: Seq<char>, value: Doc) -> Doc {
    Doc::Object(doc.members().insert(key, value))
}

/// A field of a document.
pub open spec fn field_of(doc: Doc, key: Seq<char>) -> Doc {
    doc.get(key)->0
}

/// The models of a configuration.
pub open spec fn models_in(config: Doc) -> Doc {
    field_of(field_of(field_of(config, "provider"@), "ollama"@), "models"@)
}

/// A configuration with the entry of a model set.
pub open spec fn with_entry(config: Doc, model: Seq<char>, entry: Doc) -> Doc {
    let providers = field_of(config, "provider"@);
    let provider = field_of(providers, "ollama"@);
    let models = with_field(models_in(config), model, entry);
    with_field(
        config,
        "provider"@,
        with_field(providers, "ollama"@, with_field(provider, "models"@, models)),
    )
}

/// The entry of a model without what a vision model declares.
pub open spec fn without_image_input(entry: Doc) -> Doc {
    Doc::Object(entry.members().remove("modalities"@).remove("attachment"@))
}

// ---------------------------------------------------------------------------
// Laws
// ---------------------------------------------------------------------------

/// The configuration is JSON and says what it was made of, whatever the
/// names in it hold: `read` is what reading its text gives. Only options
/// that nest too deeply are not read, and only numbers in them that are not
/// whole may come back changed.
pub proof fn law_the_configuration_reads_back(
    server: Seq<char>,
    model: Seq<char>,
    api_key: Seq<char>,
    variants: Seq<(Seq<char>, Doc)>,
    vision: bool,
    read: Option<Doc>,
)
    requires
        reads_trees(config_text(server, model, api_key, variants, vision), read),
    ensures
        read is Some <==> variants_fit(variants, options_depth()),
        read matches Some(doc) ==> reread(
            config_doc(server, model, api_key, variants, vision),
            doc,
        ),
{
    let tree = config_tree(server, model, api_key, variants, vision);
    lemma_config_tree(server, model, api_key, variants, vision);
    assert(tree_text(tree) == config_text(server, model, api_key, variants, vision));
}

/// The configuration of a model with the variants of its choices is read
/// back as itself.
pub proof fn law_the_configuration_of_a_model_reads_back(
    server: Seq<char>,
    model: Seq<char>,
    api_key: Seq<char>,
    choices: Seq<Seq<char>>,
    vision: bool,
    read: Option<Doc>,
)
    requires
        reads_trees(config_text(server, model, api_key, variants_of(choices), vision), read),
    ensures
        read == Some(config_doc(server, model, api_key, variants_of(choices), vision)),
{
    let variants = variants_of(choices);
    assert forall|i: int| 0 <= i < variants.len() implies readable(
        (#[trigger] variants[i]).1,
        options_depth(),
    ) by {
        lemma_options_are_readable(choices[i], options_depth());
    }
    assert forall|i: int| 0 <= i < variants.len() implies fits(
        (#[trigger] variants[i]).1,
        options_depth(),
    ) by {
        assert(readable(variants[i].1, options_depth()));
        lemma_readable_fits(variants[i].1, options_depth());
    }
    law_the_configuration_reads_back(server, model, api_key, variants, vision, read);
    lemma_config_is_readable(server, model, api_key, variants, vision);
    lemma_reread_exact(
        config_doc(server, model, api_key, variants, vision),
        read->0,
        max_depth(),
    );
}

/// The configuration names the model, and lists it alone; a vision model
/// declares image input, a text-only model nothing, and they differ in that
/// only.
pub proof fn law_image_input_is_all_that_vision_adds(
    server: Seq<char>,
    model: Seq<char>,
    api_key: Seq<char>,
    variants: Seq<(Seq<char>, Doc)>,
    vision: bool,
)
    ensures
        ({
            let config = config_doc(server, model, api_key, variants, vision);
            let entry = model_doc(model, variants, vision);
            &&& config.get("model"@) == Some(Doc::Text("ollama/"@ + model))
            &&& models_in(config) == Doc::Object(
                Map::<Seq<char>, Doc>::empty().insert(model, entry),
            )
            &&& entry.get("name"@) == Some(Doc::Text(model))
            &&& entry.get("modalities"@) == if vision {
                Some(modalities())
            } else {
                None
            }
            &&& entry.get("attachment"@) == if vision {
                Some(Doc::Bool(true))
            } else {
                None
            }
            &&& without_image_input(entry) == model_doc(model, variants, false)
            &&& with_entry(config, model, without_image_input(entry)) == config_doc(
                server,
                model,
                api_key,
                variants,
                false,
            )
        }),
{
    lemma_config_names_differ();
    let entry = model_doc(model, variants, vision);
    let plain = model_doc(model, variants, false);
    assert(without_image_input(entry).members() =~= plain.members());
    let config = config_doc(server, model, api_key, variants, vision);
    let other = config_doc(server, model, api_key, variants, false);
    let changed = with_entry(config, model, plain);
    let providers = field_of(config, "provider"@);
    let provider = field_of(providers, "ollama"@);
    assert(provider == provider_doc(server, model, api_key, variants, vision));
    assert(with_field(models_in(config), model, plain).members() =~= models_in(other).members());
    assert(with_field(provider, "models"@, models_in(other)).members() =~= provider_doc(
        server,
        model,
        api_key,
        variants,
        false,
    ).members());
    assert(field_of(changed, "provider"@).members() =~= field_of(other, "provider"@).members());
    assert(changed.members() =~= other.members());
}

/// What is read of two configurations that differ in vision alone: either
/// both are read or neither is; both name the model and list it alone, the
/// one declares image input and the other nothing, and without that
/// declaration they are the same.
pub proof fn law_configurations_read_differ_in_image_input_only(
    server: Seq<char>,
    model: Seq<char>,
    api_key: Seq<char>,
    variants: Seq<(Seq<char>, Doc)>,
    seeing: Option<Doc>,
    plain: Option<Doc>,
)
    requires
        reads_trees(config_text(server, model, api_key, variants, true), seeing),
        reads_trees(config_text(server, model, api_key, variants, false), plain),
    ensures
        seeing is Some <==> variants_fit(variants, options_depth()),
        plain is Some <==> variants_fit(variants, options_depth()),
        seeing matches Some(a) ==> plain matches Some(b) ==> {
            &&& a.get("model"@) == Some(Doc::Text("ollama/"@ + model))
            &&& b.get("model"@) == Some(Doc::Text("ollama/"@ + model))
            &&& models_in(a).members().dom() == set![model]
            &&& models_in(b).members().dom() == set![model]
            &&& field_of(models_in(a), model).get("modalities"@) == Some(modalities())
            &&& field_of(models_in(a), model).get("attachment"@) == Some(Doc::Bool(true))
            &&& field_of(models_in(b), model).get("modalities"@) is None
            &&& field_of(models_in(b), model).get("attachment"@) is None
            &&& with_entry(a, model, without_image_input(field_of(models_in(a), model))) == b
        },
{
    law_the_configuration_reads_back(server, model, api_key, variants, true, seeing);
    law_the_configuration_reads_back(server, model, api_key, variants, false, plain);
    if variants_fit(variants, options_depth()) {
        let a = seeing->0;
        let b = plain->0;
        lemma_entry_read(server, model, api_key, variants, true, a);
        lemma_entry_read(server, model, api_key, variants, false, b);
        lemma_plain_entry_read(server, model, api_key, variants, a, b);
    }
}

/// The field names of the configuration tell apart.
proof fn lemma_config_names_differ()
    ensures
        "model"@ != "provider"@,
        "name"@ != "variants"@,
        "name"@ != "modalities"@,
        "name"@ != "attachment"@,
        "variants"@ != "modalities"@,
        "variants"@ != "attachment"@,
        "modalities"@ != "attachment"@,
{
    reveal_strlit("model");
    reveal_strlit("provider");
    reveal_strlit("name");
    reveal_strlit("variants");
    reveal_strlit("modalities");
    reveal_strlit("attachment");
    assert("model"@.len() == 5);
    assert("provider"@.len() == 8);
    assert("name"@.len() == 4);
    assert("variants"@.len() == 8);
    assert("modalities"@.len() == 10 && "modalities"@[0] == 'm');
    assert("attachment"@.len() == 10 && "attachment"@[0] == 'a');
}

/// What is read of a configuration: the model, its entry alone, and what
/// that declares.
proof fn lemma_entry_read(
    server: Seq<char>,
    model: Seq<char>,
    api_key: Seq<char>,
    variants: Seq<(Seq<char>, Doc)>,
    vision: bool,
    read: Doc,
)
    requires
        reread(config_doc(server, model, api_key, variants, vision), read),
    ensures
        read is Object,
        field_of(read, "provider"@) is Object,
        field_of(field_of(read, "provider"@), "ollama"@) is Object,
        models_in(read) is Object,
        reread(
            field_of(config_doc(server, model, api_key, variants, vision), "provider"@),
            field_of(read, "provider"@),
        ),
        reread(
            provider_doc(server, model, api_key, variants, vision),
            field_of(field_of(read, "provider"@), "ollama"@),
        ),
        reread(
            models_in(config_doc(server, model, api_key, variants, vision)),
            models_in(read),
        ),
        reread(model_doc(model, variants, vision), field_of(models_in(read), model)),
        read.get("model"@) == Some(Doc::Text("ollama/"@ + model)),
        models_in(read).members().dom() == set![model],
        field_of(models_in(read), model).get("modalities"@) == if vision {
            Some(modalities())
        } else {
            None
        },
        field_of(models_in(read), model).get("attachment"@) == if vision {
            Some(Doc::Bool(true))
        } else {
            None
        },
{
    law_image_input_is_all_that_vision_adds(server, model, api_key, variants, vision);
    lemma_config_names_differ();
    let config = config_doc(server, model, api_key, variants, vision);
    let providers = field_of(config, "provider"@);
    let provider = provider_doc(server, model, api_key, variants, vision);
    let entry = model_doc(model, variants, vision);
    lemma_reread_field(config, read, "model"@);
    lemma_reread_field(config, read, "provider"@);
    assert(config.get("provider"@) is Some);
    lemma_reread_field(providers, field_of(read, "provider"@), "ollama"@);
    assert(providers.get("ollama"@) == Some(provider));
    let read_provider = field_of(field_of(read, "provider"@), "ollama"@);
    lemma_reread_field(provider, read_provider, "models"@);
    assert(provider.get("models"@) is Some);
    lemma_reread_field(models_in(config), models_in(read), model);
    assert(models_in(config).members().dom() =~= set![model]);
    let read_entry = field_of(models_in(read), model);
    lemma_reread_field(entry, read_entry, "modalities"@);
    lemma_reread_field(entry, read_entry, "attachment"@);
    if vision {
        lemma_modalities_are_readable(2);
        lemma_reread_exact(modalities(), field_of(read_entry, "modalities"@), 2);
    }
}

/// What is read of a document with a field set is that of the document with
/// what is read of the field set.
proof fn lemma_reread_with_field(
    doc: Doc,
    read: Doc,
    key: Seq<char>,
    value: Doc,
    read_value: Doc,
)
    requires
        doc is Object,
        reread(doc, read),
        reread(value, read_value),
    ensures
        reread(with_field(doc, key, value), with_field(read, key, read_value)),
{
    let x = doc->Object_0;
    let y = read->Object_0;
    let a = x.insert(key, value);
    let b = y.insert(key, read_value);
    assert(a.dom() =~= b.dom());
    assert forall|k: Seq<char>| #[trigger] a.contains_key(k) implies reread(a[k], b[k]) by {
        if k != key {
            assert(x.contains_key(k));
        }
    }
}

/// What is read of a vision model's configuration, without what it
/// declares, is what is read of a text-only model's.
proof fn lemma_plain_entry_read(
    server: Seq<char>,
    model: Seq<char>,
    api_key: Seq<char>,
    variants: Seq<(Seq<char>, Doc)>,
    a: Doc,
    b: Doc,
)
    requires
        reread(config_doc(server, model, api_key, variants, true), a),
        reread(config_doc(server, model, api_key, variants, false), b),
    ensures
        with_entry(a, model, without_image_input(field_of(models_in(a), model))) == b,
{
    lemma_entry_read(server, model, api_key, variants, true, a);
    law_image_input_is_all_that_vision_adds(server, model, api_key, variants, true);
    let config = config_doc(server, model, api_key, variants, true);
    let entry = model_doc(model, variants, true);
    let read_entry = field_of(models_in(a), model);
    let plain = without_image_input(entry);
    let read_plain = without_image_input(read_entry);
    assert(reread(plain, read_plain)) by {
        let x = plain->Object_0;
        let y = read_plain->Object_0;
        assert(x.dom() =~= y.dom());
        assert forall|k: Seq<char>| #[trigger] x.contains_key(k) implies reread(x[k], y[k]) by {
            assert(entry.members().contains_key(k));
        }
    }
    let providers = field_of(config, "provider"@);
    let provider = field_of(providers, "ollama"@);
    let read_providers = field_of(a, "provider"@);
    let read_provider = field_of(read_providers, "ollama"@);
    let models = with_field(models_in(config), model, plain);
    let read_models = with_field(models_in(a), model, read_plain);
    lemma_reread_with_field(models_in(config), models_in(a), model, plain, read_plain);
    lemma_reread_with_field(provider, read_provider, "models"@, models, read_models);
    let changed = with_field(provider, "models"@, models);
    let read_changed = with_field(read_provider, "models"@, read_models);
    lemma_reread_with_field(providers, read_providers, "ollama"@, changed, read_changed);
    lemma_reread_with_field(
        config,
        a,
        "provider"@,
        with_field(providers, "ollama"@, changed),
        with_field(read_providers, "ollama"@, read_changed),
    );
    lemma_reread_unique(
        config_doc(server, model, api_key, variants, false),
        with_entry(a, model, read_plain),
        b,
    );
}

/// The options of a choice are read back.
proof fn lemma_options_are_readable(choice: Seq<char>, depth: nat)
    requires
        depth >= 2,
    ensures
        readable(variant_options(choice), depth),
{
    let switch = Map::<Seq<char>, Doc>::empty().insert("enable_thinking"@, Doc::Bool(true));
    assert(readable(Doc::Object(switch), (depth - 1) as nat)) by {
        assert forall|k: Seq<char>| #[trigger] switch.contains_key(k) implies readable(
            switch[k],
            (depth - 2) as nat,
        ) by {}
    }
    let options = variant_options(choice).members();
    assert forall|k: Seq<char>| #[trigger] options.contains_key(k) implies readable(
        options[k],
        (depth - 1) as nat,
    ) by {}
}

/// What a model takes in is read back.
proof fn lemma_kinds_are_readable(vision: bool, depth: nat)
    requires
        depth >= 1,
    ensures
        readable(input_kinds(vision), depth),
{
    let items = input_kinds(vision)->Array_0;
    assert forall|i: int| 0 <= i < items.len() implies readable(
        #[trigger] items[i],
        (depth - 1) as nat,
    ) by {}
}

/// What a vision model takes in and gives out is read back.
proof fn lemma_modalities_are_readable(depth: nat)
    requires
        depth >= 2,
    ensures
        readable(modalities(), depth),
{
    lemma_kinds_are_readable(true, (depth - 1) as nat);
    lemma_kinds_are_readable(false, (depth - 1) as nat);
    let kinds = modalities().members();
    assert forall|k: Seq<char>| #[trigger] kinds.contains_key(k) implies readable(
        kinds[k],
        (depth - 1) as nat,
    ) by {}
}

/// Variants all of which are read back are read back as an object.
proof fn lemma_fields_are_readable(variants: Seq<(Seq<char>, Doc)>, depth: nat)
    requires
        forall|i: int| 0 <= i < variants.len() ==> readable((#[trigger] variants[i]).1, depth),
    ensures
        fields_of(variants).dom().finite(),
        forall|k: Seq<char>| #[trigger]
            fields_of(variants).contains_key(k) ==> readable(fields_of(variants)[k], depth),
    decreases variants.len(),
{
    if variants.len() > 0 {
        let front = variants.drop_last();
        assert forall|i: int| 0 <= i < front.len() implies readable(
            (#[trigger] front[i]).1,
            depth,
        ) by {
            assert(readable(variants[i].1, depth));
        }
        lemma_fields_are_readable(front, depth);
        assert(readable(variants[variants.len() - 1].1, depth));
        assert forall|k: Seq<char>| #[trigger] fields_of(variants).contains_key(k) implies readable(
            fields_of(variants)[k],
            depth,
        ) by {
            if k != variants.last().0 {
                assert(fields_of(front).contains_key(k));
            }
        }
    }
}

/// A configuration whose variants are read back is.
proof fn lemma_config_is_readable(
    server: Seq<char>,
    model: Seq<char>,
    api_key: Seq<char>,
    variants: Seq<(Seq<char>, Doc)>,
    vision: bool,
)
    requires
        forall|i: int|
            0 <= i < variants.len() ==> readable((#[trigger] variants[i]).1, options_depth()),
    ensures
        readable(config_doc(server, model, api_key, variants, vision), max_depth()),
{
    let base = options_depth();
    lemma_fields_are_readable(variants, base);
    assert(readable(Doc::Object(fields_of(variants)), base + 1));
    lemma_modalities_are_readable(base + 1);
    let entry = model_doc(model, variants, vision).members();
    assert(readable(model_doc(model, variants, vision), base + 2)) by {
        assert forall|k: Seq<char>| #[trigger] entry.contains_key(k) implies readable(
            entry[k],
            base + 1,
        ) by {}
    }
    let models = Map::<Seq<char>, Doc>::empty().insert(model, model_doc(model, variants, vision));
    assert(readable(Doc::Object(models), base + 3)) by {
        assert forall|k: Seq<char>| #[trigger] models.contains_key(k) implies readable(
            models[k],
            base + 2,
        ) by {}
    }
    let options = Map::<Seq<char>, Doc>::empty()
        .insert("baseURL"@, Doc::Text(v1_of(server)))
        .insert("apiKey"@, Doc::Text(api_key));
    assert(readable(Doc::Object(options), base + 3)) by {
        assert forall|k: Seq<char>| #[trigger] options.contains_key(k) implies readable(
            options[k],
            base + 2,
        ) by {}
    }
    let provider = provider_doc(server, model, api_key, variants, vision).members();
    assert(readable(Doc::Object(provider), base + 4)) by {
        assert forall|k: Seq<char>| #[trigger] provider.contains_key(k) implies readable(
            provider[k],
            base + 3,
        ) by {}
    }
    let providers = Map::<Seq<char>, Doc>::empty().insert("ollama"@, Doc::Object(provider));
    assert(readable(Doc::Object(providers), base + 5)) by {
        assert forall|k: Seq<char>| #[trigger] providers.contains_key(k) implies readable(
            providers[k],
            base + 4,
        ) by {}
    }
    let config = config_doc(server, model, api_key, variants, vision).members();
    assert forall|k: Seq<char>| #[trigger] config.contains_key(k) implies readable(
        config[k],
        base + 5,
    ) by {}
}

/// A string written by `serde_json`.
spec fn text_leaf(text: Seq<char>) -> Tree {
    Tree::Leaf(Doc::Text(text))
}

/// The variants, as they are written.
spec fn variant_trees(variants: Seq<(Seq<char>, Doc)>) -> Seq<(Seq<char>, Tree)> {
    variants.map_values(|v: (Seq<char>, Doc)| (v.0, Tree::Leaf(v.1)))
}

/// What a vision model takes in and gives out, as it is written.
spec fn modality_trees() -> Seq<(Seq<char>, Tree)> {
    Seq::<(Seq<char>, Tree)>::empty()
        .push(("input"@, Tree::Leaf(input_kinds(true))))
        .push(("output"@, Tree::Leaf(input_kinds(false))))
}

/// A model, as it is written.
spec fn model_tree(model: Seq<char>, variants: Seq<(Seq<char>, Doc)>, vision: bool) -> Tree {
    let named = seq![("name"@, text_leaf(model))];
    let varied = if variants.len() == 0 {
        named
    } else {
        named.push(("variants"@, Tree::Node(variant_trees(variants))))
    };
    Tree::Node(
        if vision {
            varied.push(("modalities"@, Tree::Node(modality_trees()))).push(
                ("attachment"@, Tree::Leaf(Doc::Bool(true))),
            )
        } else {
            varied
        },
    )
}

/// The provider, as it is written.
spec fn provider_tree(
    server: Seq<char>,
    model: Seq<char>,
    api_key: Seq<char>,
    variants: Seq<(Seq<char>, Doc)>,
    vision: bool,
) -> Tree {
    Tree::Node(
        seq![
            ("npm"@, text_leaf("@ai-sdk/openai-compatible"@)),
            ("name"@, text_leaf("Ollama"@)),
            (
                "options"@,
                Tree::Node(
                    seq![
                        ("baseURL"@, text_leaf(v1_of(server))),
                        ("apiKey"@, text_leaf(api_key)),
                    ],
                ),
            ),
            ("models"@, Tree::Node(seq![(model, model_tree(model, variants, vision))])),
        ],
    )
}

/// The configuration, as it is written.
spec fn config_tree(
    server: Seq<char>,
    model: Seq<char>,
    api_key: Seq<char>,
    variants: Seq<(Seq<char>, Doc)>,
    vision: bool,
) -> Tree {
    Tree::Node(
        seq![
            ("$schema"@, text_leaf("https://opencode.ai/config.json"@)),
            (
                "provider"@,
                Tree::Node(
                    seq![("ollama"@, provider_tree(server, model, api_key, variants, vision))],
                ),
            ),
            ("model"@, text_leaf("ollama/"@ + model)),
        ],
    )
}

/// The variants are written one by one, and say what they list.
proof fn lemma_variant_fields(variants: Seq<(Seq<char>, Doc)>)
    ensures
        tree_texts(variant_trees(variants)) == variant_members(variants),
        tree_fields(variant_trees(variants)) == fields_of(variants),
    decreases variants.len(),
{
    if variants.len() > 0 {
        let first = variants.drop_last();
        let last = variants.last();
        lemma_variant_fields(first);
        lemma_tree_field(variant_trees(first), last.0, Tree::Leaf(last.1));
        assert(variant_trees(variants) =~= variant_trees(first).push((last.0, Tree::Leaf(last.1))));
        assert(variant_members(variants) =~= variant_members(first).push(
            (last.0, written(last.1)),
        ));
    } else {
        assert(variant_members(variants) =~= Seq::empty());
    }
}

/// The variants as an object.
proof fn lemma_variants_tree(variants: Seq<(Seq<char>, Doc)>, depth: nat)
    requires
        depth >= 1,
    ensures
        tree_text(Tree::Node(variant_trees(variants))) == object_text(variant_members(variants)),
        tree_doc(Tree::Node(variant_trees(variants))) == Doc::Object(fields_of(variants)),
        variants_fit(variants, (depth - 1) as nat) <==> tree_fits(
            Tree::Node(variant_trees(variants)),
            depth,
        ),
{
    let members = variant_trees(variants);
    lemma_variant_fields(variants);
    if variants_fit(variants, (depth - 1) as nat) {
        assert forall|i: int| 0 <= i < members.len() implies tree_fits(
            (#[trigger] members[i]).1,
            (depth - 1) as nat,
        ) by {
            assert(fits(variants[i].1, (depth - 1) as nat));
        }
    }
    if tree_fits(Tree::Node(members), depth) {
        assert forall|i: int| 0 <= i < variants.len() implies fits(
            (#[trigger] variants[i]).1,
            (depth - 1) as nat,
        ) by {
            assert(tree_fits(members[i].1, (depth - 1) as nat));
        }
    }
}

/// What a vision model takes in and gives out, as an object.
proof fn lemma_modality_trees(depth: nat)
    requires
        depth >= 2,
    ensures
        tree_text(Tree::Node(modality_trees())) == modalities_text(),
        tree_doc(Tree::Node(modality_trees())) == modalities(),
        tree_fits(Tree::Node(modality_trees()), depth),
{
    let none = Seq::<(Seq<char>, Tree)>::empty();
    let input = Tree::Leaf(input_kinds(true));
    let output = Tree::Leaf(input_kinds(false));
    lemma_tree_field(none, "input"@, input);
    lemma_tree_field(none.push(("input"@, input)), "output"@, output);
    let all = modality_trees();
    assert(tree_texts(all) =~= seq![
        ("input"@, written(input_kinds(true))),
        ("output"@, written(input_kinds(false))),
    ]);
    lemma_kinds_are_readable(true, (depth - 1) as nat);
    lemma_kinds_are_readable(false, (depth - 1) as nat);
    lemma_readable_fits(input_kinds(true), (depth - 1) as nat);
    lemma_readable_fits(input_kinds(false), (depth - 1) as nat);
    assert forall|i: int| 0 <= i < all.len() implies tree_fits(
        (#[trigger] all[i]).1,
        (depth - 1) as nat,
    ) by {
        assert(tree_fits(input, (depth - 1) as nat) && tree_fits(output, (depth - 1) as nat));
    }
}

/// A model's tree is written as the model, and says what it says.
proof fn lemma_model_tree(
    model: Seq<char>,
    variants: Seq<(Seq<char>, Doc)>,
    vision: bool,
    depth: nat,
)
    requires
        depth >= 3,
    ensures
        tree_text(model_tree(model, variants, vision)) == model_text(model, variants, vision),
        tree_doc(model_tree(model, variants, vision)) == model_doc(model, variants, vision),
        variants_fit(variants, (depth - 2) as nat) <==> tree_fits(
            model_tree(model, variants, vision),
            depth,
        ),
{
    let none = Seq::<(Seq<char>, Tree)>::empty();
    let named = none.push(("name"@, text_leaf(model)));
    lemma_tree_field(none, "name"@, text_leaf(model));
    lemma_variants_tree(variants, (depth - 1) as nat);
    lemma_modality_trees((depth - 1) as nat);
    let kinds = Tree::Node(modality_trees());
    let varied = if variants.len() == 0 {
        named
    } else {
        lemma_tree_field(named, "variants"@, Tree::Node(variant_trees(variants)));
        named.push(("variants"@, Tree::Node(variant_trees(variants))))
    };
    let declared = varied.push(("modalities"@, kinds));
    lemma_tree_field(varied, "modalities"@, kinds);
    lemma_tree_field(declared, "attachment"@, Tree::Leaf(Doc::Bool(true)));
    let all = if vision {
        declared.push(("attachment"@, Tree::Leaf(Doc::Bool(true))))
    } else {
        varied
    };
    assert(model_tree(model, variants, vision) == Tree::Node(all));
    if variants_fit(variants, (depth - 2) as nat) {
        assert forall|i: int| 0 <= i < all.len() implies tree_fits(
            (#[trigger] all[i]).1,
            (depth - 1) as nat,
        ) by {
            assert(tree_fits(text_leaf(model), (depth - 1) as nat));
            assert(tree_fits(Tree::Leaf(Doc::Bool(true)), (depth - 1) as nat));
            assert(tree_fits(kinds, (depth - 1) as nat));
            if variants.len() > 0 {
                assert(tree_fits(Tree::Node(variant_trees(variants)), (depth - 1) as nat));
            }
        }
    }
    if tree_fits(Tree::Node(all), depth) && variants.len() > 0 {
        assert(all[1].1 == Tree::Node(variant_trees(variants)));
    }
}

/// The provider's tree is written as the provider, and says what it says.
proof fn lemma_provider_tree(
    server: Seq<char>,
    model: Seq<char>,
    api_key: Seq<char>,
    variants: Seq<(Seq<char>, Doc)>,
    vision: bool,
    depth: nat,
)
    requires
        depth >= 5,
    ensures
        tree_text(provider_tree(server, model, api_key, variants, vision)) == provider_text(
            server,
            model,
            api_key,
            variants,
            vision,
        ),
        tree_doc(provider_tree(server, model, api_key, variants, vision)) == provider_doc(
            server,
            model,
            api_key,
            variants,
            vision,
        ),
        variants_fit(variants, (depth - 4) as nat) <==> tree_fits(
            provider_tree(server, model, api_key, variants, vision),
            depth,
        ),
{
    let none = Seq::<(Seq<char>, Tree)>::empty();
    let inner = (depth - 1) as nat;
    let leaf = (depth - 2) as nat;

    let url = none.push(("baseURL"@, text_leaf(v1_of(server))));
    let options = url.push(("apiKey"@, text_leaf(api_key)));
    lemma_tree_field(none, "baseURL"@, text_leaf(v1_of(server)));
    lemma_tree_field(url, "apiKey"@, text_leaf(api_key));
    assert(tree_fits(Tree::Node(options), inner)) by {
        assert forall|i: int| 0 <= i < options.len() implies tree_fits(
            (#[trigger] options[i]).1,
            leaf,
        ) by {}
    }

    let entry = model_tree(model, variants, vision);
    let models = none.push((model, entry));
    lemma_tree_field(none, model, entry);
    lemma_model_tree(model, variants, vision, leaf);

    let npm = none.push(("npm"@, text_leaf("@ai-sdk/openai-compatible"@)));
    let titled = npm.push(("name"@, text_leaf("Ollama"@)));
    let optioned = titled.push(("options"@, Tree::Node(options)));
    let all = optioned.push(("models"@, Tree::Node(models)));
    lemma_tree_field(none, "npm"@, text_leaf("@ai-sdk/openai-compatible"@));
    lemma_tree_field(npm, "name"@, text_leaf("Ollama"@));
    lemma_tree_field(titled, "options"@, Tree::Node(options));
    lemma_tree_field(optioned, "models"@, Tree::Node(models));
    assert(options =~= seq![
        ("baseURL"@, text_leaf(v1_of(server))),
        ("apiKey"@, text_leaf(api_key)),
    ]);
    assert(tree_texts(options) =~= seq![
        ("baseURL"@, json_string(v1_of(server))),
        ("apiKey"@, json_string(api_key)),
    ]);
    assert(all =~= seq![
        ("npm"@, text_leaf("@ai-sdk/openai-compatible"@)),
        ("name"@, text_leaf("Ollama"@)),
        ("options"@, Tree::Node(options)),
        ("models"@, Tree::Node(models)),
    ]);
    assert(tree_texts(all) =~= seq![
        ("npm"@, json_string("@ai-sdk/openai-compatible"@)),
        ("name"@, json_string("Ollama"@)),
        ("options"@, object_text(tree_texts(options))),
        ("models"@, object_text(tree_texts(models))),
    ]);
    if variants_fit(variants, (depth - 4) as nat) {
        assert(tree_fits(Tree::Node(models), inner)) by {
            assert forall|i: int| 0 <= i < models.len() implies tree_fits(
                (#[trigger] models[i]).1,
                leaf,
            ) by {}
        }
        assert forall|i: int| 0 <= i < all.len() implies tree_fits(
            (#[trigger] all[i]).1,
            inner,
        ) by {
            assert(tree_fits(text_leaf("Ollama"@), inner));
            assert(tree_fits(text_leaf("@ai-sdk/openai-compatible"@), inner));
        }
    }
    if tree_fits(Tree::Node(all), depth) {
        assert(all[3].1 == Tree::Node(models));
        assert(tree_fits(Tree::Node(models), inner));
        assert(models[0].1 == entry);
        assert(tree_fits(entry, leaf));
    }
}

/// The configuration's tree is written as the configuration, and says what
/// it says.
proof fn lemma_config_tree(
    server: Seq<char>,
    model: Seq<char>,
    api_key: Seq<char>,
    variants: Seq<(Seq<char>, Doc)>,
    vision: bool,
)
    ensures
        tree_text(config_tree(server, model, api_key, variants, vision)) == config_text(
            server,
            model,
            api_key,
            variants,
            vision,
        ),
        tree_doc(config_tree(server, model, api_key, variants, vision)) == config_doc(
            server,
            model,
            api_key,
            variants,
            vision,
        ),
        variants_fit(variants, options_depth()) <==> tree_fits(
            config_tree(server, model, api_key, variants, vision),
            max_depth(),
        ),
{
    let none = Seq::<(Seq<char>, Tree)>::empty();
    let inner = (max_depth() - 1) as nat;
    let deep = (max_depth() - 2) as nat;
    let provider = provider_tree(server, model, api_key, variants, vision);
    lemma_provider_tree(server, model, api_key, variants, vision, deep);
    let providers = none.push(("ollama"@, provider));
    lemma_tree_field(none, "ollama"@, provider);

    let schema = none.push(("$schema"@, text_leaf("https://opencode.ai/config.json"@)));
    let provided = schema.push(("provider"@, Tree::Node(providers)));
    let all = provided.push(("model"@, text_leaf("ollama/"@ + model)));
    lemma_tree_field(none, "$schema"@, text_leaf("https://opencode.ai/config.json"@));
    lemma_tree_field(schema, "provider"@, Tree::Node(providers));
    lemma_tree_field(provided, "model"@, text_leaf("ollama/"@ + model));
    assert(all =~= seq![
        ("$schema"@, text_leaf("https://opencode.ai/config.json"@)),
        ("provider"@, Tree::Node(providers)),
        ("model"@, text_leaf("ollama/"@ + model)),
    ]);
    assert(tree_texts(all) =~= seq![
        ("$schema"@, json_string("https://opencode.ai/config.json"@)),
        ("provider"@, object_text(tree_texts(providers))),
        ("model"@, json_string("ollama/"@ + model)),
    ]);
    if variants_fit(variants, options_depth()) {
        assert(tree_fits(Tree::Node(providers), inner)) by {
            assert forall|i: int| 0 <= i < providers.len() implies tree_fits(
                (#[trigger] providers[i]).1,
                deep,
            ) by {}
        }
        assert forall|i: int| 0 <= i < all.len() implies tree_fits(
            (#[trigger] all[i]).1,
            inner,
        ) by {
            assert(tree_fits(text_leaf("https://opencode.ai/config.json"@), inner));
            assert(tree_fits(text_leaf("ollama/"@ + model), inner));
        }
    }
    if tree_fits(Tree::Node(all), max_depth()) {
        assert(all[1].1 == Tree::Node(providers));
        assert(tree_fits(Tree::Node(providers), inner));
        assert(providers[0].1 == provider);
        assert(tree_fits(provider, deep));
    }
}

/// Each choice is a variant, in the order offered, under its own name.
/// `thinking` switches the template's own thinking on; every other choice
/// asks for the effort it names and for nothing else, so that two levels
/// never ask for the same.
pub proof fn law_every_level_selects_itself(
    thinking: Option<&ThinkingControls>,
    r: Seq<(String, Json)>,
    i: int,
)
    requires
        pairs(r) == variants_of(choices_of(thinking)),
    ensures
        r.len() == if thinking is Some {
            thinking->0.choices@.len()
        } else {
            4
        },
        thinking is Some && 0 <= i < r.len() ==> r[i].0@ == thinking->0.choices@[i]@,
        thinking is None ==> r[0].0@ == "none"@ && r[1].0@ == "low"@ && r[2].0@ == "medium"@
            && r[3].0@ == "high"@,
        0 <= i < r.len() && r[i].0@ != "thinking"@ ==> r[i].1@ == Doc::Object(
            Map::<Seq<char>, Doc>::empty().insert("reasoningEffort"@, Doc::Text(r[i].0@)),
        ),
        0 <= i < r.len() && r[i].0@ == "thinking"@ ==> r[i].1@ == Doc::Object(
            Map::<Seq<char>, Doc>::empty().insert(
                "chat_template_kwargs"@,
                Doc::Object(
                    Map::<Seq<char>, Doc>::empty().insert("enable_thinking"@, Doc::Bool(true)),
                ),
            ),
        ),
        forall|k: int|
            0 <= i < r.len() && 0 <= k < r.len() && r[i].0@ != "thinking"@ && (
            #[trigger] r[k]).0@ != "thinking"@ && r[i].0@ != r[k].0@ ==> r[i].1@ != r[k].1@,
{
    let all = pairs(r);
    let choices = choices_of(thinking);
    assert(all.len() == r.len() && all.len() == choices.len());
    assert forall|k: int| 0 <= k < r.len() implies (#[trigger] r[k]).0@ == choices[k] && r[k].1@
        == variant_options(choices[k]) by {
        assert(all[k] == (r[k].0@, r[k].1@));
    }
    if thinking is None {
        assert(choices[0] == "none"@ && choices[1] == "low"@ && choices[2] == "medium"@
            && choices[3] == "high"@);
    }
    assert forall|k: int|
        0 <= i < r.len() && 0 <= k < r.len() && r[i].0@ != "thinking"@ && (#[trigger] r[k]).0@
            != "thinking"@ && r[i].0@ != r[k].0@ implies r[i].1@ != r[k].1@ by {
        assert(r[i].1@.get("reasoningEffort"@) == Some(Doc::Text(r[i].0@)));
        assert(r[k].1@.get("reasoningEffort"@) == Some(Doc::Text(r[k].0@)));
    }
}

/// What the configuration says of the provider: opencode's schema, the
/// OpenAI-compatible package, the daemon's address below `/v1`, and the key
/// it was given.
pub proof fn law_what_the_configuration_says(
    server: Seq<char>,
    model: Seq<char>,
    api_key: Seq<char>,
    variants: Seq<(Seq<char>, Doc)>,
    vision: bool,
)
    ensures
        ({
            let config = config_doc(server, model, api_key, variants, vision);
            let provider = field_of(field_of(config, "provider"@), "ollama"@);
            let options = field_of(provider, "options"@);
            &&& config.get("$schema"@) == Some(Doc::Text("https://opencode.ai/config.json"@))
            &&& config.get("model"@) == Some(Doc::Text("ollama/"@ + model))
            &&& config.members().dom() == set!["$schema"@, "provider"@, "model"@]
            &&& field_of(config, "provider"@).members().dom() == set!["ollama"@]
            &&& provider.get("npm"@) == Some(Doc::Text("@ai-sdk/openai-compatible"@))
            &&& provider.get("name"@) == Some(Doc::Text("Ollama"@))
            &&& provider.members().dom() == set!["npm"@, "name"@, "options"@, "models"@]
            &&& options.get("baseURL"@) == Some(Doc::Text(server + "/v1"@))
            &&& options.get("apiKey"@) == Some(Doc::Text(api_key))
            &&& options.members().dom() == set!["baseURL"@, "apiKey"@]
        }),
{
    reveal_strlit("$schema");
    reveal_strlit("provider");
    reveal_strlit("model");
    reveal_strlit("npm");
    reveal_strlit("name");
    reveal_strlit("options");
    reveal_strlit("models");
    reveal_strlit("baseURL");
    reveal_strlit("apiKey");
    assert("$schema"@.len() == 7);
    assert("provider"@.len() == 8);
    assert("model"@.len() == 5);
    assert("npm"@.len() == 3);
    assert("name"@.len() == 4);
    assert("options"@.len() == 7);
    assert("models"@.len() == 6);
    assert("baseURL"@.len() == 7);
    assert("apiKey"@.len() == 6);
    assert("$schema"@[0] == '$' && "options"@[0] == 'o');
    assert("$schema"@[0] == '$' && "baseURL"@[0] == 'b');
    assert("options"@[0] == 'o' && "baseURL"@[0] == 'b');
    assert("models"@[0] == 'm' && "apiKey"@[0] == 'a');
    let config = config_doc(server, model, api_key, variants, vision);
    let provider = provider_doc(server, model, api_key, variants, vision);
    assert(field_of(field_of(config, "provider"@), "ollama"@) == provider);
    let options = field_of(provider, "options"@);
    assert(config.members().dom() =~= set!["$schema"@, "provider"@, "model"@]);
    assert(field_of(config, "provider"@).members().dom() =~= set!["ollama"@]);
    assert(provider.members().dom() =~= set!["npm"@, "name"@, "options"@, "models"@]);
    assert(options.members().dom() =~= set!["baseURL"@, "apiKey"@]);
}

/// What the configuration says of the model: its name, and each variant
/// under its name with its options; without variants it says nothing of
/// them.
pub proof fn law_what_the_configuration_says_of_the_model(
    model: Seq<char>,
    variants: Seq<(Seq<char>, Doc)>,
    vision: bool,
    i: int,
)
    ensures
        ({
            let entry = model_doc(model, variants, vision);
            &&& entry.get("name"@) == Some(Doc::Text(model))
            &&& variants.len() == 0 ==> entry.get("variants"@) is None
            &&& 0 <= i < variants.len() && (forall|k: int|
                i < k < variants.len() ==> (#[trigger] variants[k]).0 != variants[i].0)
                ==> field_of(entry, "variants"@).get(variants[i].0) == Some(variants[i].1)
            &&& vision ==> entry.get("modalities"@) == Some(
                Doc::Object(
                    Map::<Seq<char>, Doc>::empty()
                        .insert(
                            "input"@,
                            Doc::Array(seq![Doc::Text("text"@), Doc::Text("image"@)]),
                        )
                        .insert("output"@, Doc::Array(seq![Doc::Text("text"@)])),
                ),
            )
            &&& vision ==> entry.get("attachment"@) == Some(Doc::Bool(true))
            &&& forall|k: Seq<char>| #[trigger]
                entry.members().contains_key(k) ==> k == "name"@ || k == "variants"@ || (vision
                    && (k == "modalities"@ || k == "attachment"@))
        }),
{
    lemma_config_names_differ();
    law_what_a_model_takes_in(true);
    law_what_a_model_takes_in(false);
    if 0 <= i < variants.len() && (forall|k: int|
        i < k < variants.len() ==> (#[trigger] variants[k]).0 != variants[i].0) {
        lemma_field_at(variants, i);
    }
}

/// A field has the value it was given last.
proof fn lemma_field_at(list: Seq<(Seq<char>, Doc)>, i: int)
    requires
        0 <= i < list.len(),
        forall|k: int| i < k < list.len() ==> (#[trigger] list[k]).0 != list[i].0,
    ensures
        fields_of(list).contains_key(list[i].0),
        fields_of(list)[list[i].0] == list[i].1,
    decreases list.len(),
{
    let last = list.len() - 1;
    if i < last {
        assert(list[last].0 != list[i].0);
        let front = list.drop_last();
        assert forall|k: int| i < k < front.len() implies (#[trigger] front[k]).0 != front[i].0 by {
            assert(list[k].0 != list[i].0);
        }
        lemma_field_at(front, i);
    }
}

/// Fields are written in their order: the text of the first of them begins
/// the text of all, and the next one's name follows it.
pub proof fn law_fields_are_written_in_order(members: Seq<(Seq<char>, Seq<char>)>, n: int)
    requires
        0 <= n < members.len(),
    ensures
        ({
            let before = members_text(members.take(n));
            let next = json_string(members[n].0) + seq![':'] + members[n].1;
            let sign = if n == 0 {
                Seq::<char>::empty()
            } else {
                seq![',']
            };
            &&& (before + sign + next).is_prefix_of(members_text(members))
            &&& object_text(members) == seq!['{'] + members_text(members) + seq!['}']
        }),
    decreases members.len(),
{
    let before = members_text(members.take(n));
    let next = json_string(members[n].0) + seq![':'] + members[n].1;
    let sign = if n == 0 {
        Seq::<char>::empty()
    } else {
        seq![',']
    };
    let front = members.drop_last();
    if n == members.len() - 1 {
        assert(members.take(n) =~= front);
        assert(members_text(members) =~= before + sign + next);
    } else {
        law_fields_are_written_in_order(front, n);
        assert(front.take(n) =~= members.take(n));
        assert(members_text(front).is_prefix_of(members_text(members))) by {
            assert(members_text(members).subrange(0, members_text(front).len() as int)
                =~= members_text(front));
        }
        let head = before + sign + next;
        assert(members_text(members).subrange(0, head.len() as int) =~= members_text(
            front,
        ).subrange(0, head.len() as int));
    }
    assert(object_text(members) =~= seq!['{'] + members_text(members) + seq!['}']);
}

/// Variants are written in the order they are listed.
pub proof fn law_variants_are_written_as_listed(variants: Seq<(Seq<char>, Doc)>, i: int)
    requires
        0 <= i < variants.len(),
    ensures
        variant_members(variants).len() == variants.len(),
        variant_members(variants)[i] == (variants[i].0, written(variants[i].1)),
{
}

} // verus!

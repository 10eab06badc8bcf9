//! Hermes Agent: llmman's blocks in its `config.yaml`.

use crate::endpoint::{effective_model, model_or_default};
use crate::lines::{
    are_lines, is_line, lemma_lines_add, lemma_lines_are_lines, lemma_lines_come_back, without_crs,
};
use crate::text::{
    join_lines, lines_of, push_both, push_text, texts, trimmed_end, trimmed_start, unlines,
    without_cr,
};
use crate::yaml::{
    cut_lines, in_block, is_blank_or_comment, is_indented, lemma_lines_without_key,
    lemma_no_opener_no_block, lemma_outside_block, lemma_quoted_is_a_line, no_opener, opens_block,
    outside_block, quoted, strip_yaml_top_level_key, without_key, yaml_quote,
};
use vstd::prelude::*;
use vstd::string::*;

verus! {

/// The lines of the `model:` block. A vision model's declares
/// `supports_vision`, the override hermes reads before its own catalog,
/// which lists no local model.
pub open spec fn model_block(
    model: Seq<char>,
    base_url: Seq<char>,
    vision: bool,
) -> Seq<Seq<char>> {
    let plain = seq![
        "model:"@,
        "  provider: llmman"@,
        "  default: "@ + quoted(model),
        "  base_url: "@ + quoted(base_url),
        "  api_key: llmman"@,
    ];
    if vision {
        plain.push("  supports_vision: true"@)
    } else {
        plain
    }
}

/// The lines of the `providers:` block.
pub open spec fn providers_block(model: Seq<char>, base_url: Seq<char>) -> Seq<Seq<char>> {
    seq![
        "providers:"@,
        "  llmman:"@,
        "    name: llmman"@,
        "    api: "@ + quoted(base_url),
        "    default_model: "@ + quoted(model),
        "    models:"@,
        "      - "@ + quoted(model),
    ]
}

/// The lines of the blocks llmman owns.
pub open spec fn blocks(model: Seq<char>, base_url: Seq<char>, vision: bool) -> Seq<Seq<char>> {
    model_block(model, base_url, vision) + providers_block(model, base_url)
}

/// The `model:` and `providers:` blocks llmman owns in hermes's
/// configuration. The model and the address are quoted, so that a name
/// that happens to be a YAML keyword or to hold a metacharacter is read
/// back as the string it is.
pub fn hermes_config_blocks(model: &str, base_url: &str, vision: bool) -> (r: String)
    ensures
        r@ == unlines(blocks(model@, base_url@, vision)),
{
    let ghost all = blocks(model@, base_url@, vision);
    let model = yaml_quote(model);
    let base_url = yaml_quote(base_url);
    let mut out: Vec<String> = Vec::new();
    push_text(&mut out, "model:");
    push_text(&mut out, "  provider: llmman");
    push_both(&mut out, "  default: ", model.as_str());
    push_both(&mut out, "  base_url: ", base_url.as_str());
    push_text(&mut out, "  api_key: llmman");
    if vision {
        push_text(&mut out, "  supports_vision: true");
    }
    push_text(&mut out, "providers:");
    push_text(&mut out, "  llmman:");
    push_text(&mut out, "    name: llmman");
    push_both(&mut out, "    api: ", base_url.as_str());
    push_both(&mut out, "    default_model: ", model.as_str());
    push_text(&mut out, "    models:");
    push_both(&mut out, "      - ", model.as_str());
    assert(texts(out@) =~= all);
    join_lines(&out)
}

/// What llmman leaves of a configuration: everything but its two blocks.
pub open spec fn preserved(existing: Seq<char>) -> Seq<char> {
    without_key(without_key(existing, "model"@), "providers"@)
}

/// A configuration with llmman's blocks at its end.
pub open spec fn hermes_written(
    existing: Seq<char>,
    model: Seq<char>,
    base_url: Seq<char>,
    vision: bool,
) -> Seq<char> {
    preserved(existing) + unlines(blocks(model, base_url, vision))
}

/// The configuration hermes is given: the `model:` and `providers:` blocks
/// replaced by llmman's own, everything else as it was.
pub fn hermes_config(existing: &str, model: &str, base_url: &str, vision: bool) -> (r: String)
    ensures
        r@ == hermes_written(existing@, model_or_default(model@), base_url@, vision),
{
    let kept = strip_yaml_top_level_key(existing, "model");
    let mut out = strip_yaml_top_level_key(kept.as_str(), "providers");
    let ours = hermes_config_blocks(effective_model(model), base_url, vision);
    out.append(ours.as_str());
    out
}

// ---------------------------------------------------------------------------
// Laws
// ---------------------------------------------------------------------------

/// Lines that begin with one at the margin lie where they would on their
/// own, whatever stands in front of them.
proof fn lemma_blocks_apart(a: Seq<Seq<char>>, b: Seq<Seq<char>>, header: Seq<char>)
    requires
        b.len() > 0,
        !is_blank_or_comment(b[0]),
        !is_indented(b[0]),
    ensures
        in_block(a + b, header) == in_block(b, header),
        outside_block(a + b, header) == outside_block(a, header) + outside_block(b, header),
    decreases b.len(),
{
    let front = b.drop_last();
    assert((a + b).drop_last() =~= a + front);
    assert((a + b).last() == b.last());
    if b.len() == 1 {
        assert(a + front =~= a);
        assert(outside_block(front, header) =~= Seq::empty());
    } else {
        assert(front[0] == b[0]);
        lemma_blocks_apart(a, front, header);
    }
    assert(outside_block(a + b, header) =~= outside_block(a, header) + outside_block(b, header));
}

/// A block: a line at the margin, and indented ones under it.
spec fn is_block(lines: Seq<Seq<char>>) -> bool {
    &&& lines.len() > 0
    &&& !is_blank_or_comment(lines[0])
    &&& !is_indented(lines[0])
    &&& forall|i: int| 1 <= i < lines.len() ==> is_indented(#[trigger] lines[i])
}

/// A block is gone as a whole or stays as a whole.
proof fn lemma_whole_block(lines: Seq<Seq<char>>, header: Seq<char>)
    requires
        is_block(lines),
    ensures
        in_block(lines, header) == opens_block(lines[0], header),
        outside_block(lines, header) == if opens_block(lines[0], header) {
            Seq::empty()
        } else {
            lines
        },
    decreases lines.len(),
{
    let front = lines.drop_last();
    if lines.len() == 1 {
        assert(front =~= Seq::empty());
        assert(outside_block(front, header) =~= Seq::empty());
        assert(Seq::<Seq<char>>::empty().push(lines[0]) =~= lines);
    } else {
        assert(front[0] == lines[0]);
        assert forall|i: int| 1 <= i < front.len() implies is_indented(#[trigger] front[i]) by {
            assert(is_indented(lines[i]));
        }
        lemma_whole_block(front, header);
        assert(is_indented(lines[lines.len() - 1]));
        assert(front.push(lines.last()) =~= lines);
    }
}

/// llmman's blocks are blocks, made of lines.
proof fn lemma_our_blocks(model: Seq<char>, base_url: Seq<char>, vision: bool)
    requires
        is_line(model),
        is_line(base_url),
    ensures
        is_block(model_block(model, base_url, vision)),
        opens_block("model:"@, "model"@.push(':')),
        !opens_block("model:"@, "providers"@.push(':')),
        are_lines(model_block(model, base_url, vision)),
        without_crs(model_block(model, base_url, vision)),
        is_block(providers_block(model, base_url)),
        opens_block("providers:"@, "providers"@.push(':')),
        !opens_block("providers:"@, "model"@.push(':')),
        are_lines(providers_block(model, base_url)),
        without_crs(providers_block(model, base_url)),
{
    reveal_strlit("model:");
    reveal_strlit("model");
    reveal_strlit("  provider: llmman");
    reveal_strlit("  default: ");
    reveal_strlit("  base_url: ");
    reveal_strlit("  api_key: llmman");
    reveal_strlit("  supports_vision: true");
    reveal_strlit("providers:");
    reveal_strlit("providers");
    reveal_strlit("  llmman:");
    reveal_strlit("    name: llmman");
    reveal_strlit("    api: ");
    reveal_strlit("    default_model: ");
    reveal_strlit("    models:");
    reveal_strlit("      - ");
    lemma_quoted_is_a_line(model);
    lemma_quoted_is_a_line(base_url);
    assert("model:"@ =~= "model"@.push(':'));
    assert("providers:"@ =~= "providers"@.push(':'));
    assert("model:"@.len() == 6);
    assert("providers:"@.len() == 10);
    assert("model:"@[0] == 'm' && "model:"@[5] == ':');
    assert("providers:"@[0] == 'p' && "providers:"@[9] == ':');
    assert(trimmed_end("model:"@) == "model:"@);
    assert(trimmed_end("providers:"@) == "providers:"@);
    assert(trimmed_start("model:"@) == "model:"@);
    assert(trimmed_start("providers:"@) == "providers:"@);
}

/// The lines that stay of a configuration.
spec fn preserved_lines(existing: Seq<char>) -> Seq<Seq<char>> {
    outside_block(
        outside_block(lines_of(existing), "model"@.push(':')),
        "providers"@.push(':'),
    )
}

proof fn lemma_preserved_lines(existing: Seq<char>)
    requires
        without_crs(lines_of(existing)),
    ensures
        preserved(existing) == unlines(preserved_lines(existing)),
        are_lines(preserved_lines(existing)),
        without_crs(preserved_lines(existing)),
        no_opener(preserved_lines(existing), "model"@.push(':')),
        no_opener(preserved_lines(existing), "providers"@.push(':')),
{
    let all = lines_of(existing);
    let header = "model"@.push(':');
    let kept = outside_block(all, header);
    lemma_lines_are_lines(existing);
    lemma_outside_block(all, header);
    lemma_lines_come_back(kept, Seq::empty());
    lemma_outside_block(kept, "providers"@.push(':'));
}

/// The last launch wins, and the ones before it leave nothing behind: what
/// a configuration that llmman wrote is rewritten to is what the one before
/// it would have been. It holds where no line of that one ends with a `\r`
/// of its own, and the model and the address are on one line.
pub proof fn law_the_last_launch_wins(
    existing: Seq<char>,
    first_model: Seq<char>,
    first_url: Seq<char>,
    first_vision: bool,
    model: Seq<char>,
    base_url: Seq<char>,
    vision: bool,
)
    requires
        without_crs(lines_of(existing)),
        is_line(first_model),
        is_line(first_url),
    ensures
        preserved(hermes_written(existing, first_model, first_url, first_vision)) == preserved(
            existing,
        ),
        hermes_written(
            hermes_written(existing, first_model, first_url, first_vision),
            model,
            base_url,
            vision,
        ) == hermes_written(existing, model, base_url, vision),
{
    lemma_preserved_lines(existing);
    lemma_ends_with_a_line(preserved_lines(existing));
    law_our_blocks_come_off(preserved(existing), first_model, first_url, first_vision);
    lemma_lines_come_back(preserved_lines(existing), Seq::empty());
    lemma_no_opener_no_block(preserved_lines(existing), "model"@.push(':'));
    lemma_no_opener_no_block(preserved_lines(existing), "providers"@.push(':'));
}

/// The text of lines is empty or ends with a `\n`.
proof fn lemma_ends_with_a_line(lines: Seq<Seq<char>>)
    ensures
        unlines(lines).len() == 0 || unlines(lines).last() == '\n',
{
}

/// Whatever llmman puts behind a text comes off again, the text being empty
/// or ending with a `\n`: of the two together is left what is left of the
/// text.
pub proof fn law_our_blocks_come_off(
    text: Seq<char>,
    model: Seq<char>,
    base_url: Seq<char>,
    vision: bool,
)
    requires
        text.len() == 0 || text.last() == '\n',
        is_line(model),
        is_line(base_url),
    ensures
        preserved(text + unlines(blocks(model, base_url, vision))) == preserved(text),
{
    let first = model_block(model, base_url, vision);
    let second = providers_block(model, base_url);
    let model_key = "model"@.push(':');
    let providers_key = "providers"@.push(':');
    lemma_our_blocks(model, base_url, vision);

    let all = lines_of(text);
    let ours = first + second;
    let with_ours = text + unlines(ours);
    assert(are_lines(ours));
    assert(without_crs(ours));
    lemma_lines_add(text, unlines(ours));
    lemma_lines_come_back(ours, Seq::empty());
    assert(lines_of(with_ours) == all + ours);

    assert(ours[0] == first[0]);
    lemma_blocks_apart(all, ours, model_key);
    lemma_whole_block(first, model_key);
    lemma_second_block_stays(first, second, model_key);
    let kept = outside_block(all, model_key);
    assert(outside_block(all + ours, model_key) == kept + second);

    lemma_lines_without_key(text, "model"@);
    lemma_lines_without_key(with_ours, "model"@);
    assert(cut_lines(second) =~= second) by {
        assert forall|i: int| 0 <= i < second.len() implies cut_lines(second)[i] == second[i] by {
            assert(without_cr(second[i]) == second[i]);
        }
    }
    assert(cut_lines(kept + second) =~= cut_lines(kept) + second);
    lemma_blocks_apart(cut_lines(kept), second, providers_key);
    lemma_whole_block(second, providers_key);
    assert(outside_block(cut_lines(kept) + second, providers_key) =~= outside_block(
        cut_lines(kept),
        providers_key,
    ));
}

/// A block behind the one that goes stays.
proof fn lemma_second_block_stays(
    first: Seq<Seq<char>>,
    second: Seq<Seq<char>>,
    header: Seq<char>,
)
    requires
        is_block(first),
        is_block(second),
        opens_block(first[0], header),
        !opens_block(second[0], header),
    ensures
        outside_block(first + second, header) == second,
        !in_block(first + second, header),
    decreases second.len(),
{
    lemma_whole_block(first, header);
    let all = first + second;
    let front = second.drop_last();
    assert(all.drop_last() =~= first + front);
    assert(all.last() == second.last());
    if second.len() == 1 {
        assert(first + front =~= first);
        assert(outside_block(all, header) =~= second);
    } else {
        assert(front[0] == second[0]);
        assert forall|i: int| 1 <= i < front.len() implies is_indented(#[trigger] front[i]) by {
            assert(is_indented(second[i]));
        }
        lemma_second_block_stays(first, front, header);
        assert(is_indented(second[second.len() - 1]));
        assert(outside_block(all, header) =~= second);
    }
}

/// What llmman's blocks say: the model and the address, quoted, in both of
/// them, a key that is no credential, and the vision of a vision model
/// only.
pub proof fn law_what_our_blocks_say(model: Seq<char>, base_url: Seq<char>, vision: bool)
    ensures
        blocks(model, base_url, vision) == seq![
            "model:"@,
            "  provider: llmman"@,
            "  default: "@ + quoted(model),
            "  base_url: "@ + quoted(base_url),
            "  api_key: llmman"@,
        ] + (if vision {
            seq!["  supports_vision: true"@]
        } else {
            Seq::empty()
        }) + seq![
            "providers:"@,
            "  llmman:"@,
            "    name: llmman"@,
            "    api: "@ + quoted(base_url),
            "    default_model: "@ + quoted(model),
            "    models:"@,
            "      - "@ + quoted(model),
        ],
{
    let plain = seq![
        "model:"@,
        "  provider: llmman"@,
        "  default: "@ + quoted(model),
        "  base_url: "@ + quoted(base_url),
        "  api_key: llmman"@,
    ];
    assert(plain.push("  supports_vision: true"@) =~= plain + seq!["  supports_vision: true"@]);
    assert(plain =~= plain + Seq::<Seq<char>>::empty());
}

/// What is written begins with what stays of the configuration, which is
/// all of it but the two blocks, and ends with llmman's.
pub proof fn law_what_is_written(
    existing: Seq<char>,
    model: Seq<char>,
    base_url: Seq<char>,
    vision: bool,
)
    ensures
        hermes_written(existing, model, base_url, vision) == without_key(
            without_key(existing, "model"@),
            "providers"@,
        ) + unlines(blocks(model, base_url, vision)),
{
}

} // verus!

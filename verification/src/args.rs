//! The arguments after `--`, which go to the integration's own command
//! line.

use crate::text::{same, starts_with, strip_prefix, text_of, texts, without_prefix};
use vstd::prelude::*;
use vstd::string::*;

verus! {

// ---------------------------------------------------------------------------
// Flags
// ---------------------------------------------------------------------------

/// Whether an argument spells a flag: the word itself, or a value joined to
/// it by `=`.
pub open spec fn spells(arg: Seq<char>, flag: Seq<char>) -> bool {
    arg == flag || flag.push('=').is_prefix_of(arg)
}

/// Whether an argument spells `long` or `short`.
pub open spec fn spells_either(arg: Seq<char>, long: Seq<char>, short: Option<Seq<char>>) -> bool {
    spells(arg, long) || (short matches Some(s) && spells(arg, s))
}

/// Whether one of the arguments spells `long` or `short`.
pub open spec fn flag_given(args: Seq<Seq<char>>, long: Seq<char>, short: Option<Seq<char>>) -> bool {
    exists|i: int| 0 <= i < args.len() && spells_either(#[trigger] args[i], long, short)
}

/// Whether `arg` is `flag`, or `flag` with a value joined by `=`.
fn is_flag(arg: &str, flag: &str) -> (r: bool)
    ensures
        r == spells(arg@, flag@),
{
    let mut joined = flag.to_owned();
    joined.push('=');
    same(arg, flag) || starts_with(arg, joined.as_str())
}

/// Whether `extra_args` spells `long` or `short`, as a word or `=`-joined.
pub fn has_flag(extra_args: &[String], long: &str, short: Option<&str>) -> (r: bool)
    ensures
        r == flag_given(texts(extra_args@), long@, text_of(short)),
{
    for i in 0..extra_args.len()
        invariant
            forall|k: int|
                0 <= k < i ==> !spells_either(
                    #[trigger] texts(extra_args@)[k],
                    long@,
                    text_of(short),
                ),
    {
        let arg = extra_args[i].as_str();
        let spelled = is_flag(arg, long) || match short {
            Some(s) => is_flag(arg, s),
            None => false,
        };
        assert(texts(extra_args@)[i as int] == arg@);
        if spelled {
            return true;
        }
    }
    false
}

// ---------------------------------------------------------------------------
// A model of the caller's own
// ---------------------------------------------------------------------------

/// The value a single argument joins to `--model` or `-m`.
pub open spec fn joined_model(arg: Seq<char>) -> Option<Seq<char>> {
    match without_prefix(arg, "--model="@) {
        Some(value) => Some(value),
        None => without_prefix(arg, "-m="@),
    }
}

/// The value of the last `--model` or `-m` of the arguments, `found` without
/// one. As a word the flag takes the argument behind it.
pub open spec fn last_model(args: Seq<Seq<char>>, found: Option<Seq<char>>) -> Option<Seq<char>>
    decreases args.len(),
{
    if args.len() == 0 {
        found
    } else if args[0] == "--model"@ || args[0] == "-m"@ {
        if args.len() == 1 {
            found
        } else {
            last_model(args.skip(2), Some(args[1]))
        }
    } else {
        last_model(
            args.skip(1),
            match joined_model(args[0]) {
                Some(value) => Some(value),
                None => found,
            },
        )
    }
}

/// The model the arguments name: the last one, unless it is empty.
pub open spec fn model_forwarded(args: Seq<Seq<char>>) -> Option<Seq<char>> {
    match last_model(args, None) {
        Some(model) => if model.len() > 0 {
            Some(model)
        } else {
            None
        },
        None => None,
    }
}

/// The value of the last `--model`/`-m` after `--`, as a word or
/// `=`-joined, the forms `has_flag` takes.
pub fn forwarded_model(extra_args: &[String]) -> (r: Option<&str>)
    ensures
        text_of(r) == model_forwarded(texts(extra_args@)),
{
    let mut found: Option<&str> = None;
    let mut i: usize = 0;
    let ghost all = texts(extra_args@);
    assert(all.skip(0) == all);
    while i < extra_args.len()
        invariant
            i <= extra_args@.len(),
            all == texts(extra_args@),
            last_model(all, None) == last_model(all.skip(i as int), text_of(found)),
        decreases extra_args@.len() - i,
    {
        let arg = extra_args[i].as_str();
        let ghost rest = all.skip(i as int);
        assert(rest[0] == arg@);
        if same(arg, "--model") || same(arg, "-m") {
            if i + 1 < extra_args.len() {
                found = Some(extra_args[i + 1].as_str());
                assert(rest.skip(2) == all.skip(i + 2));
                i = i + 2;
            } else {
                assert(rest.len() == 1);
                assert(all.skip(i + 1) == Seq::<Seq<char>>::empty());
                i = i + 1;
            }
        } else {
            match strip_prefix(arg, "--model=") {
                Some(value) => {
                    found = Some(value);
                },
                None => match strip_prefix(arg, "-m=") {
                    Some(value) => {
                        found = Some(value);
                    },
                    None => {},
                },
            }
            assert(rest.skip(1) == all.skip(i + 1));
            i = i + 1;
        }
    }
    match found {
        Some(model) => if model.is_empty() {
            None
        } else {
            Some(model)
        },
        None => None,
    }
}

// ---------------------------------------------------------------------------
// Laws
// ---------------------------------------------------------------------------

/// Arguments that name a model spell the flag for it: what is read as the
/// caller's model is never missed by the test for the flag.
pub proof fn law_a_forwarded_model_is_a_given_flag(args: Seq<Seq<char>>)
    requires
        model_forwarded(args) is Some,
    ensures
        flag_given(args, "--model"@, Some("-m"@)),
{
    lemma_found_or_given(args, None);
}

/// Without an argument that spells the flag no model is found.
pub proof fn lemma_found_or_given(args: Seq<Seq<char>>, found: Option<Seq<char>>)
    ensures
        last_model(args, found) == found || flag_given(args, "--model"@, Some("-m"@)),
    decreases args.len(),
{
    if args.len() > 0 {
        let first = args[0];
        if first == "--model"@ || first == "-m"@ {
            assert(spells_either(first, "--model"@, Some("-m"@)));
        } else {
            if joined_model(first) is Some {
                reveal_strlit("--model=");
                reveal_strlit("--model");
                reveal_strlit("-m=");
                reveal_strlit("-m");
                assert("--model"@.push('=') =~= "--model="@);
                assert("-m"@.push('=') =~= "-m="@);
                assert(spells_either(first, "--model"@, Some("-m"@)));
            } else {
                lemma_found_or_given(args.skip(1), found);
                if flag_given(args.skip(1), "--model"@, Some("-m"@)) {
                    let i = choose|i: int|
                        0 <= i < args.skip(1).len() && spells_either(
                            #[trigger] args.skip(1)[i],
                            "--model"@,
                            Some("-m"@),
                        );
                    assert(args[i + 1] == args.skip(1)[i]);
                }
            }
        }
    }
}

/// A flag is given where an argument is one of its names, or one of them
/// with a value joined to it by `=`, and nowhere else.
pub proof fn law_how_a_flag_is_given(
    args: Seq<Seq<char>>,
    long: Seq<char>,
    short: Option<Seq<char>>,
)
    ensures
        flag_given(args, long, short) <==> exists|i: int|
            0 <= i < args.len() && ({
                ||| #[trigger] args[i] == long
                ||| (long + seq!['=']).is_prefix_of(args[i])
                ||| short is Some && (args[i] == short->0 || (short->0 + seq!['=']).is_prefix_of(
                    args[i],
                ))
            }),
{
    assert(long + seq!['='] =~= long.push('='));
    if let Some(s) = short {
        assert(s + seq!['='] =~= s.push('='));
    }
    if flag_given(args, long, short) {
        let i = choose|i: int|
            0 <= i < args.len() && spells_either(#[trigger] args[i], long, short);
        assert(args[i] == args[i]);
    }
    if exists|i: int|
        0 <= i < args.len() && ({
            ||| #[trigger] args[i] == long
            ||| (long + seq!['=']).is_prefix_of(args[i])
            ||| short is Some && (args[i] == short->0 || (short->0 + seq!['=']).is_prefix_of(
                args[i],
            ))
        }) {
        let i = choose|i: int|
            0 <= i < args.len() && ({
                ||| #[trigger] args[i] == long
                ||| (long + seq!['=']).is_prefix_of(args[i])
                ||| short is Some && (args[i] == short->0 || (short->0 + seq!['=']).is_prefix_of(
                    args[i],
                ))
            });
        assert(spells_either(args[i], long, short));
    }
}

/// Arguments without the flag are passed over.
proof fn lemma_passed_over(head: Seq<Seq<char>>, rest: Seq<Seq<char>>, found: Option<Seq<char>>)
    requires
        !flag_given(head, "--model"@, Some("-m"@)),
    ensures
        last_model(head + rest, found) == last_model(rest, found),
    decreases head.len(),
{
    if head.len() == 0 {
        assert(head + rest =~= rest);
    } else {
        let all = head + rest;
        let tail = head.skip(1);
        assert(!spells_either(head[0], "--model"@, Some("-m"@)));
        assert(all[0] == head[0]);
        reveal_strlit("--model=");
        reveal_strlit("--model");
        reveal_strlit("-m=");
        reveal_strlit("-m");
        assert("--model"@.push('=') =~= "--model="@);
        assert("-m"@.push('=') =~= "-m="@);
        assert(joined_model(head[0]) is None);
        assert(all.skip(1) =~= tail + rest);
        assert forall|i: int| 0 <= i < tail.len() implies !spells_either(
            #[trigger] tail[i],
            "--model"@,
            Some("-m"@),
        ) by {
            assert(tail[i] == head[i + 1]);
        }
        lemma_passed_over(tail, rest, found);
    }
}

/// The words and joined forms a model may be given in.
pub open spec fn gives_model(words: Seq<Seq<char>>, model: Seq<char>) -> bool {
    ||| words == seq!["--model"@, model]
    ||| words == seq!["-m"@, model]
    ||| words == seq!["--model="@ + model]
    ||| words == seq!["-m="@ + model]
}

/// A model that is given is found, whatever was found before it.
proof fn lemma_given_model(
    words: Seq<Seq<char>>,
    model: Seq<char>,
    rest: Seq<Seq<char>>,
    found: Option<Seq<char>>,
)
    requires
        gives_model(words, model),
    ensures
        last_model(words + rest, found) == last_model(rest, Some(model)),
{
    reveal_strlit("--model=");
    reveal_strlit("--model");
    reveal_strlit("-m=");
    reveal_strlit("-m");
    assert("--model="@.len() == 8 && "--model="@[0] == '-' && "--model="@[1] == '-');
    assert("-m="@.len() == 3 && "-m="@[1] == 'm');
    assert("--model"@.len() == 7);
    assert("-m"@.len() == 2);
    let all = words + rest;
    let long = "--model="@ + model;
    let short = "-m="@ + model;
    if words == seq!["--model"@, model] || words == seq!["-m"@, model] {
        assert(all.skip(2) =~= rest);
        assert(all[1] == model);
    } else {
        assert(all.skip(1) =~= rest);
        assert(all[0] == words[0]);
        assert(long.skip(8) =~= model);
        assert(long.subrange(0, 8) =~= "--model="@);
        assert(short.skip(3) =~= model);
        assert(short.subrange(0, 3) =~= "-m="@);
        if words[0] == short {
            assert(short[1] == 'm');
            if "--model="@.is_prefix_of(short) {
                assert(short.subrange(0, 8)[1] == short[1]);
            }
        }
    }
}

/// A model is found wherever it stands among the arguments, as it is given:
/// as a word behind `--model` or `-m`, or joined to one of them by `=`.
pub proof fn law_a_model_in_the_arguments(
    head: Seq<Seq<char>>,
    model: Seq<char>,
    tail: Seq<Seq<char>>,
)
    requires
        !flag_given(head, "--model"@, Some("-m"@)),
        !flag_given(tail, "--model"@, Some("-m"@)),
        model.len() > 0,
    ensures
        model_forwarded(head + seq!["--model"@, model] + tail) == Some(model),
        model_forwarded(head + seq!["-m"@, model] + tail) == Some(model),
        model_forwarded(head + seq!["--model="@ + model] + tail) == Some(model),
        model_forwarded(head + seq!["-m="@ + model] + tail) == Some(model),
        forall|words: Seq<Seq<char>>| #[trigger]
            gives_model(words, model) ==> model_forwarded(head + words + tail) == Some(model),
{
    let none = Seq::<Seq<char>>::empty();
    assert forall|words: Seq<Seq<char>>| #[trigger] gives_model(
        words,
        model,
    ) implies model_forwarded(head + words + tail) == Some(model) by {
        assert(head + words + tail =~= head + (words + tail));
        lemma_passed_over(head, words + tail, None);
        lemma_given_model(words, model, tail, None);
        assert(tail + none =~= tail);
        lemma_passed_over(tail, none, Some(model));
    }
    assert(gives_model(seq!["--model"@, model], model));
    assert(gives_model(seq!["-m"@, model], model));
    assert(gives_model(seq!["--model="@ + model], model));
    assert(gives_model(seq!["-m="@ + model], model));
}

/// Of two models the last one counts.
pub proof fn law_the_last_model_in_the_arguments_counts(
    head: Seq<Seq<char>>,
    first: Seq<char>,
    given: Seq<Seq<char>>,
    between: Seq<Seq<char>>,
    model: Seq<char>,
    words: Seq<Seq<char>>,
    tail: Seq<Seq<char>>,
)
    requires
        !flag_given(head, "--model"@, Some("-m"@)),
        gives_model(given, first),
        !flag_given(between, "--model"@, Some("-m"@)),
        gives_model(words, model),
        !flag_given(tail, "--model"@, Some("-m"@)),
    ensures
        model_forwarded(head + given + between + words + tail) == if model.len() == 0 {
            None
        } else {
            Some(model)
        },
{
    let none = Seq::<Seq<char>>::empty();
    let all = head + given + between + words + tail;
    assert(all =~= head + (given + (between + (words + tail))));
    lemma_passed_over(head, given + (between + (words + tail)), None);
    lemma_given_model(given, first, between + (words + tail), None);
    lemma_passed_over(between, words + tail, Some(first));
    lemma_given_model(words, model, tail, Some(first));
    assert(tail + none =~= tail);
    lemma_passed_over(tail, none, Some(model));
}

/// Without the flag, with nothing behind it, or with an empty value the
/// arguments name no model.
pub proof fn law_no_value_is_no_model(head: Seq<Seq<char>>, tail: Seq<Seq<char>>)
    requires
        !flag_given(head, "--model"@, Some("-m"@)),
        !flag_given(tail, "--model"@, Some("-m"@)),
    ensures
        model_forwarded(head) is None,
        model_forwarded(head + seq!["--model"@]) is None,
        model_forwarded(head + seq!["-m"@]) is None,
        forall|words: Seq<Seq<char>>| #[trigger]
            gives_model(words, Seq::empty()) ==> model_forwarded(head + words + tail) is None,
{
    let none = Seq::<Seq<char>>::empty();
    assert(head + none =~= head);
    lemma_passed_over(head, none, None);
    lemma_passed_over(head, seq!["--model"@], None);
    lemma_passed_over(head, seq!["-m"@], None);
    assert forall|words: Seq<Seq<char>>| #[trigger] gives_model(
        words,
        Seq::empty(),
    ) implies model_forwarded(head + words + tail) is None by {
        assert(head + words + tail =~= head + (words + tail));
        lemma_passed_over(head, words + tail, None);
        lemma_given_model(words, Seq::empty(), tail, None);
        assert(tail + none =~= tail);
        lemma_passed_over(tail, none, Some(Seq::empty()));
    }
}

} // verus!

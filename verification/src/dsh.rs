//! DeepSeek Harness: its launcher's arguments, and the two documents
//! llmman hands it.

use crate::args::{flag_given, has_flag};
use crate::endpoint::{v1_of, v1_url};
use crate::text::{
    extend_texts, join_lines, push_both, push_text, same, starts_with, string_of, text_of, texts,
    unlines,
};
use crate::yaml::{quoted, yaml_quote};
use vstd::prelude::*;
use vstd::slice::slice_subrange;
use vstd::string::*;

verus! {

/// The variable dsh's provider entry reads its key from, so that no key is
/// ever written to disk.
pub const DSH_API_KEY_ENV: &'static str = "LLMMAN_API_KEY";

/// The npm package `npx` fetches when dsh isn't installed. Unpinned, so a
/// one-off run gets what a global install would have.
pub const DSH_NPM_PACKAGE: &'static str = "@deepseek-ai/dsh@latest";

// ---------------------------------------------------------------------------
// The launcher section
// ---------------------------------------------------------------------------

/// Whether dsh's launcher takes a value behind this argument.
pub open spec fn takes_value(arg: Seq<char>) -> bool {
    arg == "--profile"@ || arg == "--patch"@
}

/// Whether this argument is one of dsh's commands.
pub open spec fn is_command(arg: Seq<char>) -> bool {
    arg == "web"@ || arg == "plugin"@
}

/// Whether dsh's launcher reads this argument: one of its commands, or an
/// option. It stops at `--`, and at the first argument that is neither.
pub open spec fn is_launchers(arg: Seq<char>) -> bool {
    arg != "--"@ && (is_command(arg) || (arg.len() > 0 && arg[0] == '-'))
}

/// How many of the arguments dsh's launcher reads.
pub open spec fn launcher_len(args: Seq<Seq<char>>) -> int
    decreases args.len(),
{
    if args.len() == 0 || !is_launchers(args[0]) {
        0
    } else if takes_value(args[0]) {
        if args.len() == 1 {
            1
        } else {
            2 + launcher_len(args.skip(2))
        }
    } else {
        1 + launcher_len(args.skip(1))
    }
}

/// The arguments dsh's launcher reads.
pub open spec fn launcher_args(args: Seq<Seq<char>>) -> Seq<Seq<char>> {
    args.take(launcher_len(args))
}

/// The first command among the arguments dsh's launcher reads.
pub open spec fn launcher_command(args: Seq<Seq<char>>) -> Option<Seq<char>>
    decreases args.len(),
{
    if args.len() == 0 || !is_launchers(args[0]) {
        None
    } else if takes_value(args[0]) {
        if args.len() == 1 {
            None
        } else {
            launcher_command(args.skip(2))
        }
    } else if is_command(args[0]) {
        Some(args[0])
    } else {
        launcher_command(args.skip(1))
    }
}

/// dsh's own launcher section: the arguments it reads rather than forwards,
/// and the command among them, if any.
#[derive(Debug)]
pub struct DshLauncher<'a> {
    pub args: &'a [String],
    pub command: Option<&'a str>,
}

/// No more arguments are read than there are.
proof fn lemma_launcher_len(args: Seq<Seq<char>>)
    ensures
        0 <= launcher_len(args) <= args.len(),
    decreases args.len(),
{
    if args.len() > 0 && is_launchers(args[0]) {
        if !takes_value(args[0]) {
            lemma_launcher_len(args.skip(1));
        } else if args.len() > 1 {
            lemma_launcher_len(args.skip(2));
        }
    }
}

/// The arguments dsh reads as its own launcher flags, rather than forwards
/// to the selected profile's app. It stops at `--`, and also at the first
/// argument that isn't one of its own. `--profile` and `--patch` are the
/// two that take a value, which is stepped over so that it isn't mistaken
/// for a command or for the first app argument; every other option is a
/// bare flag.
pub fn dsh_launcher(extra_args: &[String]) -> (r: DshLauncher<'_>)
    ensures
        texts(r.args@) == launcher_args(texts(extra_args@)),
        text_of(r.command) == launcher_command(texts(extra_args@)),
{
    let ghost all = texts(extra_args@);
    let mut end: usize = 0;
    let mut command: Option<&str> = None;
    assert(all.skip(0) == all);
    while end < extra_args.len()
        invariant_except_break
            end <= extra_args@.len(),
            all == texts(extra_args@),
            launcher_len(all) == end + launcher_len(all.skip(end as int)),
            launcher_command(all) == match command {
                Some(c) => Some(c@),
                None => launcher_command(all.skip(end as int)),
            },
        ensures
            end <= extra_args@.len(),
            launcher_len(all) == end,
            launcher_command(all) == text_of(command),
        decreases extra_args@.len() - end,
    {
        let arg = extra_args[end].as_str();
        let ghost rest = all.skip(end as int);
        assert(rest[0] == arg@);
        if same(arg, "--") {
            break;
        }
        if same(arg, "--profile") || same(arg, "--patch") {
            proof {
                reveal_strlit("--profile");
                reveal_strlit("--patch");
                reveal_strlit("--");
                reveal_strlit("web");
                reveal_strlit("plugin");
                assert("--".view().len() == 2);
                assert("--profile"@.len() == 9 && "--profile"@[0] == '-');
                assert("--patch"@.len() == 7 && "--patch"@[0] == '-');
            }
            if extra_args.len() - end >= 2 {
                assert(rest.skip(2) == all.skip(end + 2));
                end = end + 2;
            } else {
                assert(rest.len() == 1);
                assert(all.skip(end + 1) == Seq::<Seq<char>>::empty());
                end = end + 1;
            }
        } else if same(arg, "web") || same(arg, "plugin") {
            proof {
                reveal_strlit("--");
                reveal_strlit("web");
                reveal_strlit("plugin");
                assert("--".view().len() == 2);
                assert("web"@.len() == 3);
                assert("plugin"@.len() == 6);
            }
            assert(rest.skip(1) == all.skip(end + 1));
            if command.is_none() {
                command = Some(arg);
            }
            end = end + 1;
        } else if starts_with(arg, "-") {
            proof {
                reveal_strlit("-");
                assert("-"@ =~= seq!['-']);
                assert(arg@[0] == '-') by {
                    assert(arg@.subrange(0, 1)[0] == "-"@[0]);
                }
            }
            assert(rest.skip(1) == all.skip(end + 1));
            end = end + 1;
        } else {
            proof {
                reveal_strlit("-");
                assert("-"@ =~= seq!['-']);
                if arg@.len() > 0 && arg@[0] == '-' {
                    assert("-"@ =~= arg@.subrange(0, 1));
                }
            }
            break;
        }
    }
    proof {
        lemma_launcher_len(all);
    }
    let read = slice_subrange(extra_args, 0, end);
    assert(texts(read@) =~= launcher_args(all));
    DshLauncher { args: read, command }
}

// ---------------------------------------------------------------------------
// The command line
// ---------------------------------------------------------------------------

/// The arguments dsh is run with: `--patch` always, and the `web` profile
/// unless the caller named one.
pub open spec fn dsh_line(patch_path: Seq<char>, extra: Seq<Seq<char>>) -> Seq<Seq<char>> {
    let profile = if flag_given(launcher_args(extra), "--profile"@, None) {
        Seq::empty()
    } else {
        seq!["web"@]
    };
    profile + seq!["--patch"@, patch_path] + extra
}

/// The arguments dsh is invoked with. `--patch` is always injected; the
/// default `web` profile is omitted when the caller already named one,
/// however spelled, so that `--profile headless "task"` selects dsh's
/// one-shot mode instead of being appended onto `web`, which does not
/// accept it.
pub fn dsh_args(patch_path: &str, extra_args: &[String]) -> (r: Vec<String>)
    ensures
        texts(r@) == dsh_line(patch_path@, texts(extra_args@)),
{
    let mut args: Vec<String> = Vec::new();
    if !has_flag(dsh_launcher(extra_args).args, "--profile", None) {
        push_text(&mut args, "web");
    }
    push_text(&mut args, "--patch");
    push_text(&mut args, patch_path);
    extend_texts(&mut args, extra_args);
    assert(texts(args@) =~= dsh_line(patch_path@, texts(extra_args@)));
    args
}

/// Why dsh cannot be launched with some arguments: they hold a `--patch` of
/// the caller's, or a command, which dsh does not combine with `--patch`.
pub open spec fn refusal_of(extra: Seq<Seq<char>>) -> Option<Seq<char>> {
    if flag_given(launcher_args(extra), "--patch"@, None) {
        Some("llmman launch dsh manages --patch itself; pass other dsh flags after --"@)
    } else {
        match launcher_command(extra) {
            Some(command) => Some(
                "dsh's `"@ + command
                    + "` command cannot be combined with the --patch llmman passes it.\nSelect a profile with `--profile "@
                    + (if command == "web"@ {
                    "web"@
                } else {
                    "<name>"@
                }) + "` instead, or omit it for the default."@,
            ),
            None => None,
        }
    }
}

/// Why dsh cannot be launched with `extra_args`, none if it can.
pub fn dsh_refusal(extra_args: &[String]) -> (r: Option<String>)
    ensures
        string_of(r) == refusal_of(texts(extra_args@)),
{
    let launcher = dsh_launcher(extra_args);
    if has_flag(launcher.args, "--patch", None) {
        return Some(
            "llmman launch dsh manages --patch itself; pass other dsh flags after --".to_owned(),
        );
    }
    match launcher.command {
        Some(command) => {
            let mut out = "dsh's `".to_owned();
            out.append(command);
            out.append(
                "` command cannot be combined with the --patch llmman passes it.\nSelect a profile with `--profile ",
            );
            out.append(
                if same(command, "web") {
                    "web"
                } else {
                    "<name>"
                },
            );
            out.append("` instead, or omit it for the default.");
            Some(out)
        },
        None => None,
    }
}

/// What `npx` is told ahead of dsh's own arguments.
pub open spec fn npx_words() -> Seq<Seq<char>> {
    seq!["--yes"@, DSH_NPM_PACKAGE@]
}

/// What dsh is run as, given an installed one and the `npx` that could run
/// it: the program, and the arguments that must lead whatever it is handed.
pub open spec fn dsh_program<P>(dsh: Option<P>, npx: Option<P>) -> Option<(P, Seq<Seq<char>>)> {
    match dsh {
        Some(bin) => Some((bin, Seq::empty())),
        None => match npx {
            Some(bin) => Some((bin, npx_words())),
            None => None,
        },
    }
}

/// dsh, and the arguments that must lead whatever it is handed: none for an
/// installed `dsh`, `--yes <package>` for the `npx` that stands in when
/// there is none. `npx` is looked for only then.
pub fn dsh_command<P, F: FnOnce() -> Option<P>>(dsh: Option<P>, npx: F) -> (r: Option<
    (P, Vec<String>),
>)
    requires
        dsh is None ==> npx.requires(()),
    ensures
        match dsh {
            Some(bin) => r matches Some(found) && found.0 == bin && texts(found.1@) == Seq::<
                Seq<char>,
            >::empty(),
            None => match r {
                Some(found) => npx.ensures((), Some(found.0)) && texts(found.1@)
                    == npx_words(),
                None => npx.ensures((), None),
            },
        },
        match r {
            Some(found) => dsh_program(dsh, Some(found.0)) == Some((found.0, texts(found.1@))),
            None => dsh_program(dsh, None) is None,
        },
{
    let mut prefix: Vec<String> = Vec::new();
    assert(texts(prefix@) =~= Seq::<Seq<char>>::empty());
    match dsh {
        Some(bin) => Some((bin, prefix)),
        None => {
            push_text(&mut prefix, "--yes");
            push_text(&mut prefix, DSH_NPM_PACKAGE);
            assert(texts(prefix@) =~= npx_words());
            match npx() {
                Some(bin) => Some((bin, prefix)),
                None => None,
            }
        },
    }
}

// ---------------------------------------------------------------------------
// The documents
// ---------------------------------------------------------------------------

/// The lines of the settings document: llmman as a provider, and its model
/// as the default. A text-only model does not claim to take images.
pub open spec fn settings_lines(
    model: Seq<char>,
    server: Seq<char>,
    vision: bool,
) -> Seq<Seq<char>> {
    seq![
        "# Written by `llmman launch dsh`; edits are overwritten."@,
        "agent-default-model:"@,
        "  provider: llmman"@,
        "  model: "@ + quoted(model),
        "llm-pi-ai:"@,
        "  providers:"@,
        "    llmman:"@,
        "      displayName: llmman"@,
        "      apiKeyEnv: "@ + DSH_API_KEY_ENV@,
        "      api: openai-completions"@,
        "      baseURL: "@ + quoted(v1_of(server)),
        "      models:"@,
        "        - id: "@ + quoted(model),
        "          name: "@ + quoted(model),
        "          input: "@ + if vision {
            "[text, image]"@
        } else {
            "[text]"@
        },
    ]
}

/// The settings document the patch points dsh at: registers llmman as a
/// provider route at this daemon's `/v1`, and selects it as the default
/// model.
pub fn dsh_settings_document(model: &str, server: &str, vision: bool) -> (r: String)
    ensures
        r@ == unlines(settings_lines(model@, server@, vision)),
{
    let ghost all = settings_lines(model@, server@, vision);
    let quoted_model = yaml_quote(model);
    let base_url = yaml_quote(v1_url(server).as_str());
    let mut out: Vec<String> = Vec::new();
    push_text(&mut out, "# Written by `llmman launch dsh`; edits are overwritten.");
    push_text(&mut out, "agent-default-model:");
    push_text(&mut out, "  provider: llmman");
    push_both(&mut out, "  model: ", quoted_model.as_str());
    push_text(&mut out, "llm-pi-ai:");
    push_text(&mut out, "  providers:");
    push_text(&mut out, "    llmman:");
    push_text(&mut out, "      displayName: llmman");
    push_both(&mut out, "      apiKeyEnv: ", DSH_API_KEY_ENV);
    push_text(&mut out, "      api: openai-completions");
    push_both(&mut out, "      baseURL: ", base_url.as_str());
    push_text(&mut out, "      models:");
    push_both(&mut out, "        - id: ", quoted_model.as_str());
    push_both(&mut out, "          name: ", quoted_model.as_str());
    push_both(
        &mut out,
        "          input: ",
        if vision {
            "[text, image]"
        } else {
            "[text]"
        },
    );
    assert(texts(out@) =~= all);
    join_lines(&out)
}

/// The lines of the patch.
pub open spec fn patch_lines(settings_path: Seq<char>) -> Seq<Seq<char>> {
    seq![
        "# Written by `llmman launch dsh`; edits are overwritten."@,
        "- id: settings"@,
        "  config:"@,
        "    path: "@ + quoted(settings_path),
    ]
}

/// dsh's patch: points its `settings` provider at the settings document.
/// The path is quoted, which escapes the `\` of a Windows path.
pub fn dsh_patch_document(settings_path: &str) -> (r: String)
    ensures
        r@ == unlines(patch_lines(settings_path@)),
{
    let ghost all = patch_lines(settings_path@);
    let path = yaml_quote(settings_path);
    let mut out: Vec<String> = Vec::new();
    push_text(&mut out, "# Written by `llmman launch dsh`; edits are overwritten.");
    push_text(&mut out, "- id: settings");
    push_text(&mut out, "  config:");
    push_both(&mut out, "    path: ", path.as_str());
    assert(texts(out@) =~= all);
    join_lines(&out)
}

// ---------------------------------------------------------------------------
// Laws
// ---------------------------------------------------------------------------

/// What follows the argument dsh's launcher stops at is the app's and is
/// never read: whatever stands there, the same section is read, the same
/// launches are refused, and the default profile is the same.
pub proof fn law_what_follows_the_boundary_is_not_read(
    args: Seq<Seq<char>>,
    tail: Seq<Seq<char>>,
)
    requires
        launcher_len(args) < args.len(),
    ensures
        ({
            let other = args.take(launcher_len(args) + 1) + tail;
            &&& launcher_args(other) == launcher_args(args)
            &&& launcher_command(other) == launcher_command(args)
            &&& refusal_of(other) == refusal_of(args)
        }),
{
    lemma_boundary(args, tail);
    lemma_launcher_len(args);
    let n = launcher_len(args);
    let other = args.take(n + 1) + tail;
    assert(other.take(n) =~= args.take(n));
}

proof fn lemma_boundary(args: Seq<Seq<char>>, tail: Seq<Seq<char>>)
    requires
        launcher_len(args) < args.len(),
    ensures
        launcher_len(args.take(launcher_len(args) + 1) + tail) == launcher_len(args),
        launcher_command(args.take(launcher_len(args) + 1) + tail) == launcher_command(args),
    decreases args.len(),
{
    let n = launcher_len(args);
    lemma_launcher_len(args);
    let other = args.take(n + 1) + tail;
    assert(other[0] == args[0]);
    if is_launchers(args[0]) {
        let step: int = if takes_value(args[0]) {
            2
        } else {
            1
        };
        let rest = args.skip(step);
        lemma_launcher_len(rest);
        lemma_boundary(rest, tail);
        assert(other.skip(step) =~= rest.take(launcher_len(rest) + 1) + tail);
    }
}

/// What dsh's launcher reads of its first argument: it stops at `--` and at
/// what is neither an option nor one of its commands; `--profile` and
/// `--patch` take the next argument along; any other is read on its own.
pub proof fn law_what_the_launcher_reads(arg: Seq<char>, rest: Seq<Seq<char>>)
    ensures
        ({
            let args = seq![arg] + rest;
            let command = arg == "web"@ || arg == "plugin"@;
            let option = arg.len() > 0 && arg[0] == '-';
            let valued = arg == "--profile"@ || arg == "--patch"@;
            &&& arg == "--"@ || !(command || option) ==> launcher_args(args) == Seq::<
                Seq<char>,
            >::empty() && launcher_command(args) is None
            &&& valued && rest.len() == 0 ==> launcher_args(args) == seq![arg]
                && launcher_command(args) is None
            &&& valued && rest.len() > 0 ==> launcher_args(args) == seq![arg, rest[0]]
                + launcher_args(rest.skip(1)) && launcher_command(args) == launcher_command(
                rest.skip(1),
            )
            &&& arg != "--"@ && (command || option) && !valued ==> launcher_args(args) == seq![arg]
                + launcher_args(rest)
            &&& command ==> launcher_command(args) == Some(arg)
            &&& arg != "--"@ && option && !valued && !command ==> launcher_command(args)
                == launcher_command(rest)
            &&& launcher_args(Seq::empty()) == Seq::<Seq<char>>::empty()
            &&& launcher_command(Seq::empty()) is None
        }),
{
    reveal_strlit("--");
    reveal_strlit("--profile");
    reveal_strlit("--patch");
    reveal_strlit("web");
    reveal_strlit("plugin");
    assert("--"@.len() == 2);
    assert("--profile"@.len() == 9);
    assert("--patch"@.len() == 7);
    assert("web"@.len() == 3);
    assert("plugin"@.len() == 6);
    assert("--profile"@[0] == '-');
    assert("--patch"@[0] == '-');
    let args = seq![arg] + rest;
    assert(args[0] == arg);
    assert(args.skip(1) =~= rest);
    lemma_launcher_len(args);
    lemma_launcher_len(rest);
    assert(launcher_args(Seq::empty()) =~= Seq::<Seq<char>>::empty());
    if rest.len() > 0 {
        assert(args.skip(2) =~= rest.skip(1));
        lemma_launcher_len(rest.skip(1));
    }
    if is_launchers(arg) {
        if takes_value(arg) {
            if rest.len() == 0 {
                assert(launcher_args(args) =~= seq![arg]);
            } else {
                assert(launcher_args(args) =~= seq![arg, rest[0]] + launcher_args(rest.skip(1)));
            }
        } else {
            assert(launcher_args(args) =~= seq![arg] + launcher_args(rest));
        }
    } else {
        assert(launcher_args(args) =~= Seq::<Seq<char>>::empty());
    }
}

/// What dsh is run with: the patch always, in front of the caller's
/// arguments, and the `web` profile unless they name one.
pub proof fn law_what_dsh_is_run_with(patch: Seq<char>, extra: Seq<Seq<char>>)
    ensures
        dsh_line(patch, extra) == if flag_given(launcher_args(extra), "--profile"@, None) {
            seq!["--patch"@, patch] + extra
        } else {
            seq!["web"@, "--patch"@, patch] + extra
        },
{
    assert(dsh_line(patch, extra) =~= if flag_given(launcher_args(extra), "--profile"@, None) {
        seq!["--patch"@, patch] + extra
    } else {
        seq!["web"@, "--patch"@, patch] + extra
    });
}

/// What a refusal says: that llmman manages the patch, or which command
/// cannot be combined with it and what to say instead.
pub proof fn law_what_dsh_is_refused(extra: Seq<Seq<char>>)
    ensures
        flag_given(launcher_args(extra), "--patch"@, None) ==> refusal_of(extra) == Some(
            "llmman launch dsh manages --patch itself; pass other dsh flags after --"@,
        ),
        !flag_given(launcher_args(extra), "--patch"@, None) && launcher_command(extra) is None
            ==> refusal_of(extra) is None,
        !flag_given(launcher_args(extra), "--patch"@, None) && launcher_command(extra) is Some
            ==> refusal_of(extra) == Some(
            "dsh's `"@ + launcher_command(extra)->0
                + "` command cannot be combined with the --patch llmman passes it.\nSelect a profile with `--profile "@
                + (if launcher_command(extra)->0 == "web"@ {
                "web"@
            } else {
                "<name>"@
            }) + "` instead, or omit it for the default."@,
        ),
{
}

/// What dsh's settings say: llmman's provider at the daemon's address below
/// `/v1`, with the key in llmman's variable, and the model as the default
/// and the only one, taking in images only if it can.
pub proof fn law_what_the_settings_say(model: Seq<char>, server: Seq<char>, vision: bool)
    ensures
        ({
            let lines = settings_lines(model, server, vision);
            &&& lines.len() == 15
            &&& lines[0] == "# Written by `llmman launch dsh`; edits are overwritten."@
            &&& lines[1] == "agent-default-model:"@ && lines[2] == "  provider: llmman"@
            &&& lines[3] == "  model: "@ + quoted(model)
            &&& lines[4] == "llm-pi-ai:"@ && lines[5] == "  providers:"@ && lines[6]
                == "    llmman:"@
            &&& lines[7] == "      displayName: llmman"@
            &&& lines[8] == "      apiKeyEnv: "@ + "LLMMAN_API_KEY"@
            &&& lines[9] == "      api: openai-completions"@
            &&& lines[10] == "      baseURL: "@ + quoted(server + "/v1"@)
            &&& lines[11] == "      models:"@
            &&& lines[12] == "        - id: "@ + quoted(model)
            &&& lines[13] == "          name: "@ + quoted(model)
            &&& vision ==> lines[14] == "          input: "@ + "[text, image]"@
            &&& !vision ==> lines[14] == "          input: "@ + "[text]"@
        }),
{
}

/// What dsh's patch says: where the settings are.
pub proof fn law_what_the_patch_says(path: Seq<char>)
    ensures
        patch_lines(path).len() == 4,
        patch_lines(path)[0] == "# Written by `llmman launch dsh`; edits are overwritten."@,
        patch_lines(path)[1] == "- id: settings"@,
        patch_lines(path)[2] == "  config:"@,
        patch_lines(path)[3] == "    path: "@ + quoted(path),
{
}

/// `npx` is told to fetch dsh without asking.
pub proof fn law_what_npx_is_told()
    ensures
        npx_words() == seq!["--yes"@, "@deepseek-ai/dsh@latest"@],
{
}

/// An installed dsh is run, with nothing ahead of its arguments, whether or
/// not there is an `npx`. Only without one does `npx` run it, and without
/// either nothing does.
pub proof fn law_an_installed_dsh_goes_first<P>(bin: P, npx: Option<P>)
    ensures
        dsh_program(Some(bin), npx) == Some((bin, Seq::<Seq<char>>::empty())),
        dsh_program(None, Some(bin)) == Some((bin, seq!["--yes"@, "@deepseek-ai/dsh@latest"@])),
        dsh_program(None::<P>, None) is None,
{
}

} // verus!

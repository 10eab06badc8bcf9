//! What a launch writes: which files, where they are, and what each of them
//! should hold.

use crate::agy::AGY_SETTINGS;
use crate::args::model_forwarded;
use crate::capabilities::does_think;
use crate::codex::{
    catalog_doc, codex_config_rewrite, codex_context_window, codex_model_catalog, codex_profile,
    config_rewritten, context_window, needs_write, profile_lines, without_legacy,
};
use crate::dsh::{dsh_patch_document, dsh_settings_document, patch_lines, settings_lines};
use crate::endpoint::{effective_model, model_or_default, v1_of, v1_url};
use crate::grok::{grok_config_document, grok_entry, nested_table_text};
use crate::hermes::{hermes_config, hermes_written};
use crate::launch::{chosen_model, model_in_use, steps_of, Job, Step};
use crate::paths::{
    agy_settings_dir, at, dsh_config_dir, grok_home, hermes_dir, hermes_home, pi_agent_dir, pi_dir,
    place_of, qwen_dir, qwen_home, Location, Os, Place, Root,
};
use crate::pi::{
    pi_entry, pi_model_entry, pi_models_change, pi_models_update, pi_settings_change,
    pi_settings_update,
};
use crate::qwen::{qwen_change, qwen_choice, qwen_model_and_vision, qwen_settings_update};
use crate::registry::Agent;
use crate::settings::{change_in, Change, FileUpdate};
use crate::text::{occurs, text_of, texts, unlines};
use crate::value::pretty_text;
use vstd::prelude::*;
use vstd::string::*;

verus! {

// ---------------------------------------------------------------------------
// Files
// ---------------------------------------------------------------------------

/// A file a launch writes.
#[derive(Debug, Clone, Copy, PartialEq, Eq, Structural)]
pub enum ConfigFile {
    CodexConfig,
    CodexCatalog,
    CodexProfile,
    PiModels,
    PiSettings,
    HermesConfig,
    AgySettings,
    DshSettings,
    DshPatch,
    GrokConfig,
    QwenSettings,
}

/// The files of an agent, in the order they are written.
pub open spec fn files_of(agent: Agent) -> Seq<ConfigFile> {
    match agent {
        Agent::Codex => seq![
            ConfigFile::CodexConfig,
            ConfigFile::CodexCatalog,
            ConfigFile::CodexProfile,
        ],
        Agent::Pi => seq![ConfigFile::PiModels, ConfigFile::PiSettings],
        Agent::Hermes => seq![ConfigFile::HermesConfig],
        Agent::Agy => seq![ConfigFile::AgySettings],
        Agent::Dsh => seq![ConfigFile::DshSettings, ConfigFile::DshPatch],
        Agent::Grok => seq![ConfigFile::GrokConfig],
        Agent::Qwen => seq![ConfigFile::QwenSettings],
        _ => Seq::empty(),
    }
}

/// The files of an agent, in the order they are written.
pub fn config_files(agent: Agent) -> (r: Vec<ConfigFile>)
    ensures
        r@ == files_of(agent),
{
    let mut files: Vec<ConfigFile> = Vec::new();
    match agent {
        Agent::Codex => {
            files.push(ConfigFile::CodexConfig);
            files.push(ConfigFile::CodexCatalog);
            files.push(ConfigFile::CodexProfile);
        },
        Agent::Pi => {
            files.push(ConfigFile::PiModels);
            files.push(ConfigFile::PiSettings);
        },
        Agent::Hermes => files.push(ConfigFile::HermesConfig),
        Agent::Agy => files.push(ConfigFile::AgySettings),
        Agent::Dsh => {
            files.push(ConfigFile::DshSettings);
            files.push(ConfigFile::DshPatch);
        },
        Agent::Grok => files.push(ConfigFile::GrokConfig),
        Agent::Qwen => files.push(ConfigFile::QwenSettings),
        _ => {},
    }
    assert(files@ =~= files_of(agent));
    files
}

/// The file another one names.
pub open spec fn named_by(file: ConfigFile) -> Option<ConfigFile> {
    match file {
        ConfigFile::CodexProfile => Some(ConfigFile::CodexCatalog),
        ConfigFile::DshPatch => Some(ConfigFile::DshSettings),
        _ => None,
    }
}

/// The file another one names, none if it names none.
pub fn named_file(file: ConfigFile) -> (r: Option<ConfigFile>)
    ensures
        r == named_by(file),
{
    match file {
        ConfigFile::CodexProfile => Some(ConfigFile::CodexCatalog),
        ConfigFile::DshPatch => Some(ConfigFile::DshSettings),
        _ => None,
    }
}

// ---------------------------------------------------------------------------
// Places
// ---------------------------------------------------------------------------

/// The variables that say where agents keep their configuration.
#[derive(Debug)]
pub struct Vars<'a> {
    /// `PI_CODING_AGENT_DIR`.
    pub pi_agent_dir: Option<&'a str>,
    /// `HERMES_HOME`.
    pub hermes_home: Option<&'a str>,
    /// `LOCALAPPDATA`.
    pub local_app_data: Option<&'a str>,
    /// `QWEN_HOME`.
    pub qwen_home: Option<&'a str>,
    /// Whether `GROK_HOME` is set, to something that is not empty.
    pub grok_home: bool,
}

/// The directory an agent's files are written to.
pub open spec fn dir_of(agent: Agent, os: Os, vars: Vars) -> Option<Place> {
    match agent {
        Agent::Codex => Some(at(Root::Home).join(".codex"@)),
        Agent::Pi => Some(pi_dir(text_of(vars.pi_agent_dir))),
        Agent::Hermes => Some(
            hermes_dir(os, text_of(vars.hermes_home), text_of(vars.local_app_data)),
        ),
        Agent::Agy => Some(at(Root::Home).join(".gemini"@).join("llmman"@)),
        Agent::Dsh => Some(at(Root::ConfigDir).join("launch"@).join("dsh"@)),
        Agent::Grok => Some(
            (if vars.grok_home {
                at(Root::GrokHome)
            } else {
                at(Root::Home).join(".grok"@)
            }).join("llmman"@),
        ),
        Agent::Qwen => Some(qwen_dir(text_of(vars.qwen_home))),
        _ => None,
    }
}

/// The directory an agent's files are written to, none if there are none.
pub fn config_dir(agent: Agent, os: Os, vars: &Vars) -> (r: Option<Location>)
    ensures
        place_of(r) == dir_of(agent, os, *vars),
{
    match agent {
        Agent::Codex => Some(Location::new(Root::Home).join(".codex")),
        Agent::Pi => Some(pi_agent_dir(vars.pi_agent_dir)),
        Agent::Hermes => Some(hermes_home(os, vars.hermes_home, vars.local_app_data)),
        Agent::Agy => Some(agy_settings_dir()),
        Agent::Dsh => Some(dsh_config_dir()),
        Agent::Grok => Some(grok_home(vars.grok_home)),
        Agent::Qwen => Some(qwen_home(vars.qwen_home)),
        _ => None,
    }
}

/// Where a file is below its agent's directory.
pub open spec fn file_place(file: ConfigFile, dir: Place) -> Place {
    match file {
        ConfigFile::CodexConfig => dir.join("config.toml"@),
        ConfigFile::CodexCatalog => dir.join("llmman-model.json"@),
        ConfigFile::CodexProfile => dir.join("llmman.config.toml"@),
        ConfigFile::PiModels => dir.join("models.json"@),
        ConfigFile::PiSettings => dir.join("settings.json"@),
        ConfigFile::HermesConfig => dir.join("config.yaml"@),
        ConfigFile::AgySettings => dir.join("antigravity-cli"@).join("settings.json"@),
        ConfigFile::DshSettings => dir.join("settings.yaml"@),
        ConfigFile::DshPatch => dir.join("llmman.cordis.yml"@),
        ConfigFile::GrokConfig => dir.join("config.toml"@),
        ConfigFile::QwenSettings => dir.join("settings.json"@),
    }
}

/// Where a file is below its agent's directory.
pub fn file_in(file: ConfigFile, dir: &Location) -> (r: Location)
    ensures
        r@ == file_place(file, dir@),
{
    let dir = dir.copy();
    match file {
        ConfigFile::CodexConfig => dir.join("config.toml"),
        ConfigFile::CodexCatalog => dir.join("llmman-model.json"),
        ConfigFile::CodexProfile => dir.join("llmman.config.toml"),
        ConfigFile::PiModels => dir.join("models.json"),
        ConfigFile::PiSettings => dir.join("settings.json"),
        ConfigFile::HermesConfig => dir.join("config.yaml"),
        ConfigFile::AgySettings => dir.join("antigravity-cli").join("settings.json"),
        ConfigFile::DshSettings => dir.join("settings.yaml"),
        ConfigFile::DshPatch => dir.join("llmman.cordis.yml"),
        ConfigFile::GrokConfig => dir.join("config.toml"),
        ConfigFile::QwenSettings => dir.join("settings.json"),
    }
}

// ---------------------------------------------------------------------------
// Documents
// ---------------------------------------------------------------------------

/// What a file is written from, besides the job.
#[derive(Debug)]
pub struct Seen<'a> {
    /// What the file holds, none if that was not, or could not be, read.
    pub raw: Option<&'a str>,
    /// Whether a backup of the file is there.
    pub backup_exists: bool,
    /// How much the model can hold, if that is known.
    pub context_length: Option<u64>,
    /// The configured context length.
    pub configured_length: Option<u32>,
    /// Where the file is that this one names.
    pub named: &'a str,
    /// What the model the caller's arguments name resolves to.
    pub resolved: Option<&'a str>,
}

/// A file that is written without more ado.
pub open spec fn rewritten(contents: Seq<char>) -> Change {
    Change::Write { backup: false, contents }
}

/// A file that is written unless it holds just that.
pub open spec fn unless_held(raw: Option<Seq<char>>, contents: Seq<char>) -> Change {
    if raw == Some(contents) {
        Change::Keep
    } else {
        rewritten(contents)
    }
}

/// What becomes of a file. None if there is nowhere in it to put what the
/// launch adds.
pub open spec fn change_of(file: ConfigFile, job: Job, seen: Seen) -> Option<Change> {
    let model = job.model@;
    let v1 = v1_of(job.server@);
    let extra = texts(job.extra_args@);
    let raw = text_of(seen.raw);
    match file {
        ConfigFile::CodexConfig => Some(
            match config_rewritten(raw) {
                Some(contents) => rewritten(contents),
                None => Change::Keep,
            },
        ),
        ConfigFile::CodexCatalog => {
            let window = context_window(seen.configured_length, seen.context_length);
            Some(
                if model.len() == 0 {
                    Change::Keep
                } else {
                    unless_held(raw, pretty_text(catalog_doc(model, job.vision, window)).push('\n'))
                },
            )
        },
        ConfigFile::CodexProfile => {
            let catalog = if model.len() == 0 {
                None
            } else {
                Some(seen.named@)
            };
            Some(unless_held(raw, unlines(profile_lines(job.server@, catalog))))
        },
        ConfigFile::PiModels => pi_models_change(
            raw,
            seen.backup_exists,
            job.server@,
            pi_entry(
                model_or_default(model),
                does_think(job.thinking),
                job.vision,
                seen.context_length,
            ),
        ),
        ConfigFile::PiSettings => Some(
            pi_settings_change(raw, seen.backup_exists, model_or_default(model)),
        ),
        ConfigFile::HermesConfig => {
            let existing = match raw {
                Some(text) => text,
                None => Seq::empty(),
            };
            Some(rewritten(hermes_written(existing, model_or_default(model), v1, job.vision)))
        },
        ConfigFile::AgySettings => Some(rewritten(AGY_SETTINGS@)),
        ConfigFile::DshSettings => Some(
            rewritten(unlines(settings_lines(model, job.server@, job.vision))),
        ),
        ConfigFile::DshPatch => Some(rewritten(unlines(patch_lines(seen.named@)))),
        ConfigFile::GrokConfig => {
            let used = model_in_use(model, extra);
            Some(rewritten(nested_table_text("model"@, used, grok_entry(used, v1))))
        },
        ConfigFile::QwenSettings => {
            let choice = qwen_choice(model, job.vision, extra, text_of(seen.resolved));
            Some(qwen_change(raw, seen.backup_exists, choice.0, v1, choice.1))
        },
    }
}

/// Writes a file without more ado.
fn rewrite(contents: String) -> (r: FileUpdate)
    ensures
        r@ == rewritten(contents@),
{
    FileUpdate::Write { backup: false, contents }
}

/// Writes a file unless it holds just that.
fn rewrite_unless_held(raw: Option<&str>, contents: String) -> (r: FileUpdate)
    ensures
        r@ == unless_held(text_of(raw), contents@),
{
    if needs_write(raw, contents.as_str()) {
        rewrite(contents)
    } else {
        FileUpdate::Keep
    }
}

/// What becomes of a file when a job is launched. None if there is nowhere
/// in it to put what the launch adds, which is so of a `models.json` of
/// pi's whose `providers` are of another type.
pub fn document(file: ConfigFile, job: &Job, seen: &Seen) -> (r: Option<FileUpdate>)
    ensures
        change_in(r) == change_of(file, *job, *seen),
{
    match file {
        ConfigFile::CodexConfig => match codex_config_rewrite(seen.raw) {
            Some(contents) => Some(rewrite(contents)),
            None => Some(FileUpdate::Keep),
        },
        ConfigFile::CodexCatalog => {
            if job.model.is_empty() {
                return Some(FileUpdate::Keep);
            }
            let window = codex_context_window(seen.configured_length, seen.context_length);
            let contents = codex_model_catalog(job.model, job.vision, window);
            Some(rewrite_unless_held(seen.raw, contents))
        },
        ConfigFile::CodexProfile => {
            let catalog = if job.model.is_empty() {
                None
            } else {
                Some(seen.named)
            };
            Some(rewrite_unless_held(seen.raw, codex_profile(job.server, catalog)))
        },
        ConfigFile::PiModels => {
            let entry = pi_model_entry(
                effective_model(job.model),
                job.thinking,
                job.vision,
                seen.context_length,
            );
            pi_models_update(seen.raw, seen.backup_exists, job.server, &entry)
        },
        ConfigFile::PiSettings => Some(
            pi_settings_update(seen.raw, seen.backup_exists, effective_model(job.model)),
        ),
        ConfigFile::HermesConfig => {
            let v1 = v1_url(job.server);
            let existing = match seen.raw {
                Some(text) => text,
                None => "",
            };
            proof {
                reveal_strlit("");
                assert(""@ =~= Seq::<char>::empty());
            }
            Some(rewrite(hermes_config(existing, job.model, v1.as_str(), job.vision)))
        },
        ConfigFile::AgySettings => Some(rewrite(AGY_SETTINGS.to_owned())),
        ConfigFile::DshSettings => Some(
            rewrite(dsh_settings_document(job.model, job.server, job.vision)),
        ),
        ConfigFile::DshPatch => Some(rewrite(dsh_patch_document(seen.named))),
        ConfigFile::GrokConfig => {
            let v1 = v1_url(job.server);
            let used = chosen_model(job.model, job.extra_args);
            Some(rewrite(grok_config_document(used, v1.as_str())))
        },
        ConfigFile::QwenSettings => {
            let v1 = v1_url(job.server);
            let (model, vision) = qwen_model_and_vision(
                job.model,
                job.vision,
                job.extra_args,
                seen.resolved,
            );
            Some(qwen_settings_update(seen.raw, seen.backup_exists, model, v1.as_str(), vision))
        },
    }
}

// ---------------------------------------------------------------------------
// Laws
// ---------------------------------------------------------------------------

/// A key is never written to disk: two jobs that differ in the key alone
/// write the same to every file.
pub proof fn law_no_file_holds_the_key(file: ConfigFile, job: Job, other: Job, seen: Seen)
    requires
        job.model == other.model,
        job.server == other.server,
        job.thinking == other.thinking,
        job.vision == other.vision,
        job.extra_args == other.extra_args,
    ensures
        change_of(file, job, seen) == change_of(file, other, seen),
{
}

/// A launch that writes has files to write and a directory for them, and no
/// other launch has.
pub proof fn law_what_is_written_has_a_place(agent: Agent, os: Os, vars: Vars)
    ensures
        steps_of(agent).contains(Step::Write) <==> files_of(agent).len() > 0,
        dir_of(agent, os, vars) is Some <==> files_of(agent).len() > 0,
{
    let steps = steps_of(agent);
    match agent {
        Agent::Codex => assert(steps[0] == Step::Write),
        Agent::Agy | Agent::Dsh => assert(steps[2] == Step::Write),
        Agent::Pi | Agent::Hermes | Agent::Grok | Agent::Qwen => assert(steps[1] == Step::Write),
        _ => {},
    }
}

/// A file that another one names is written before it.
pub proof fn law_a_named_file_is_written_first(agent: Agent, i: int)
    requires
        0 <= i < files_of(agent).len(),
    ensures
        named_by(files_of(agent)[i]) matches Some(file) ==> exists|k: int|
            0 <= k < i && #[trigger] files_of(agent)[k] == file,
{
    let files = files_of(agent);
    if named_by(files[i]) is Some {
        assert(files[i - 1] == named_by(files[i])->0);
    }
}

/// What each file is made of, in terms of the job and of what was found:
/// the model, or the one the caller's arguments name for an agent that
/// yields to them, the daemon's address below `/v1`, and the model's
/// vision. What llmman alone writes is written over; codex's two files of
/// llmman's only where they differ.
pub proof fn law_what_each_file_is_made_of(file: ConfigFile, job: Job, seen: Seen)
    ensures
        ({
            let change = change_of(file, job, seen);
            let extra = texts(job.extra_args@);
            let model = job.model@;
            let name = if model.len() == 0 {
                "default"@
            } else {
                model
            };
            let used = if model_forwarded(extra) is Some {
                model_forwarded(extra)->0
            } else {
                model
            };
            let v1 = job.server@ + "/v1"@;
            let raw = text_of(seen.raw);
            match file {
                ConfigFile::CodexConfig => change == Some(
                    if raw is Some && occurs(raw->0, "[profiles.llmman]"@) {
                        Change::Write { backup: false, contents: without_legacy(raw->0) }
                    } else {
                        Change::Keep
                    },
                ),
                ConfigFile::CodexCatalog => {
                    let text = pretty_text(
                        catalog_doc(
                            model,
                            job.vision,
                            context_window(seen.configured_length, seen.context_length),
                        ),
                    ) + seq!['\n'];
                    change == Some(
                        if model.len() == 0 || raw == Some(text) {
                            Change::Keep
                        } else {
                            Change::Write { backup: false, contents: text }
                        },
                    )
                },
                ConfigFile::CodexProfile => {
                    let catalog = if model.len() == 0 {
                        None
                    } else {
                        Some(seen.named@)
                    };
                    let text = unlines(profile_lines(job.server@, catalog));
                    change == Some(
                        if raw == Some(text) {
                            Change::Keep
                        } else {
                            Change::Write { backup: false, contents: text }
                        },
                    )
                },
                ConfigFile::PiModels => change == pi_models_change(
                    raw,
                    seen.backup_exists,
                    job.server@,
                    pi_entry(
                        name,
                        job.thinking is Some && job.thinking->0.thinks,
                        job.vision,
                        seen.context_length,
                    ),
                ),
                ConfigFile::PiSettings => change == Some(
                    pi_settings_change(raw, seen.backup_exists, name),
                ),
                ConfigFile::HermesConfig => change == Some(
                    Change::Write {
                        backup: false,
                        contents: hermes_written(
                            if raw is Some {
                                raw->0
                            } else {
                                Seq::empty()
                            },
                            name,
                            v1,
                            job.vision,
                        ),
                    },
                ),
                ConfigFile::AgySettings => change == Some(
                    Change::Write {
                        backup: false,
                        contents: "{\n  \"modelProvider\": \"gemini\"\n}\n"@,
                    },
                ),
                ConfigFile::DshSettings => change == Some(
                    Change::Write {
                        backup: false,
                        contents: unlines(settings_lines(model, job.server@, job.vision)),
                    },
                ),
                ConfigFile::DshPatch => change == Some(
                    Change::Write { backup: false, contents: unlines(patch_lines(seen.named@)) },
                ),
                ConfigFile::GrokConfig => change == Some(
                    Change::Write {
                        backup: false,
                        contents: nested_table_text("model"@, used, grok_entry(used, v1)),
                    },
                ),
                ConfigFile::QwenSettings => change == Some(
                    qwen_change(
                        raw,
                        seen.backup_exists,
                        used,
                        v1,
                        job.vision && (model_forwarded(extra) is None || text_of(seen.resolved)
                            == Some(model)),
                    ),
                ),
            }
        }),
{
    let text = pretty_text(
        catalog_doc(
            job.model@,
            job.vision,
            context_window(seen.configured_length, seen.context_length),
        ),
    );
    assert(text.push('\n') =~= text + seq!['\n']);
}

/// Where each agent's files are: codex's, AGY's and Grok's below the home
/// directory, dsh's below llmman's own, and those of the others where their
/// variables say. What llmman keeps for AGY and Grok is apart from the
/// user's own.
pub proof fn law_where_the_files_are(agent: Agent, os: Os, vars: Vars)
    ensures
        ({
            let dir = dir_of(agent, os, vars);
            match agent {
                Agent::Codex => dir == Some(Place { root: Root::Home, parts: seq![".codex"@] }),
                Agent::Agy => dir == Some(
                    Place { root: Root::Home, parts: seq![".gemini"@, "llmman"@] },
                ),
                Agent::Dsh => dir == Some(
                    Place { root: Root::ConfigDir, parts: seq!["launch"@, "dsh"@] },
                ),
                Agent::Grok => dir == Some(
                    if vars.grok_home {
                        Place { root: Root::GrokHome, parts: seq!["llmman"@] }
                    } else {
                        Place { root: Root::Home, parts: seq![".grok"@, "llmman"@] }
                    },
                ),
                Agent::Pi => dir == Some(pi_dir(text_of(vars.pi_agent_dir))),
                Agent::Hermes => dir == Some(
                    hermes_dir(os, text_of(vars.hermes_home), text_of(vars.local_app_data)),
                ),
                Agent::Qwen => dir == Some(qwen_dir(text_of(vars.qwen_home))),
                _ => dir is None,
            }
        }),
{
    assert(at(Root::Home).join(".codex"@).parts =~= seq![".codex"@]);
    assert(at(Root::Home).join(".gemini"@).join("llmman"@).parts =~= seq![".gemini"@, "llmman"@]);
    assert(at(Root::ConfigDir).join("launch"@).join("dsh"@).parts =~= seq!["launch"@, "dsh"@]);
    assert(at(Root::GrokHome).join("llmman"@).parts =~= seq!["llmman"@]);
    assert(at(Root::Home).join(".grok"@).join("llmman"@).parts =~= seq![".grok"@, "llmman"@]);
}

/// What each file is called below its directory.
pub proof fn law_what_each_file_is_called(file: ConfigFile, dir: Place)
    ensures
        file_place(file, dir).root == dir.root,
        file_place(file, dir).parts == dir.parts + match file {
            ConfigFile::CodexConfig => seq!["config.toml"@],
            ConfigFile::CodexCatalog => seq!["llmman-model.json"@],
            ConfigFile::CodexProfile => seq!["llmman.config.toml"@],
            ConfigFile::PiModels => seq!["models.json"@],
            ConfigFile::PiSettings => seq!["settings.json"@],
            ConfigFile::HermesConfig => seq!["config.yaml"@],
            ConfigFile::AgySettings => seq!["antigravity-cli"@, "settings.json"@],
            ConfigFile::DshSettings => seq!["settings.yaml"@],
            ConfigFile::DshPatch => seq!["llmman.cordis.yml"@],
            ConfigFile::GrokConfig => seq!["config.toml"@],
            ConfigFile::QwenSettings => seq!["settings.json"@],
        },
{
    assert(file_place(file, dir).parts =~= dir.parts + match file {
        ConfigFile::CodexConfig => seq!["config.toml"@],
        ConfigFile::CodexCatalog => seq!["llmman-model.json"@],
        ConfigFile::CodexProfile => seq!["llmman.config.toml"@],
        ConfigFile::PiModels => seq!["models.json"@],
        ConfigFile::PiSettings => seq!["settings.json"@],
        ConfigFile::HermesConfig => seq!["config.yaml"@],
        ConfigFile::AgySettings => seq!["antigravity-cli"@, "settings.json"@],
        ConfigFile::DshSettings => seq!["settings.yaml"@],
        ConfigFile::DshPatch => seq!["llmman.cordis.yml"@],
        ConfigFile::GrokConfig => seq!["config.toml"@],
        ConfigFile::QwenSettings => seq!["settings.json"@],
    });
}

/// Each agent's files are its own: a file is written for one agent only.
pub proof fn law_a_file_is_of_one_agent(a: Agent, b: Agent, file: ConfigFile)
    requires
        files_of(a).contains(file),
        files_of(b).contains(file),
    ensures
        a == b,
{
}

/// Which files a launch writes: codex's three, pi's two, dsh's two, and one
/// each for hermes, AGY, Grok Build and Qwen Code.
pub proof fn law_which_files_a_launch_writes(agent: Agent, file: ConfigFile)
    ensures
        files_of(agent).contains(file) <==> agent == match file {
            ConfigFile::CodexConfig => Agent::Codex,
            ConfigFile::CodexCatalog => Agent::Codex,
            ConfigFile::CodexProfile => Agent::Codex,
            ConfigFile::PiModels => Agent::Pi,
            ConfigFile::PiSettings => Agent::Pi,
            ConfigFile::HermesConfig => Agent::Hermes,
            ConfigFile::AgySettings => Agent::Agy,
            ConfigFile::DshSettings => Agent::Dsh,
            ConfigFile::DshPatch => Agent::Dsh,
            ConfigFile::GrokConfig => Agent::Grok,
            ConfigFile::QwenSettings => Agent::Qwen,
        },
        files_of(agent).no_duplicates(),
{
    let files = files_of(agent);
    if files.len() > 0 {
        assert(files.contains(files[0]));
    }
    if files.len() > 1 {
        assert(files.contains(files[1]));
    }
    if files.len() > 2 {
        assert(files.contains(files[2]));
    }
}

/// Which file names another: codex's profile its catalog, and dsh's patch
/// its settings.
pub proof fn law_which_file_names_another(file: ConfigFile)
    ensures
        file == ConfigFile::CodexProfile ==> named_by(file) == Some(ConfigFile::CodexCatalog),
        file == ConfigFile::DshPatch ==> named_by(file) == Some(ConfigFile::DshSettings),
        file != ConfigFile::CodexProfile && file != ConfigFile::DshPatch ==> named_by(
            file,
        ) is None,
{
}

} // verus!

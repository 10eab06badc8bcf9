//! The agents llmman launches: what they are called, how they are found,
//! and how they are listed.

use crate::text::{join_lines, lowercased, push_text, same, text_of, texts, unlines};
use vstd::prelude::*;
use vstd::string::*;

verus! {

// ---------------------------------------------------------------------------
// Agents
// ---------------------------------------------------------------------------

/// An agent.
#[derive(Debug, Clone, Copy, PartialEq, Eq, Structural)]
pub enum Agent {
    /// Anthropic's, whose command and description the caller gives.
    Claude,
    Opencode,
    Codex,
    Pi,
    Cline,
    Aider,
    Copilot,
    Kimi,
    Gemini,
    Agy,
    Hermes,
    Openclaw,
    Qwen,
    Dsh,
    Goose,
    Grok,
}

/// What the caller gives of Anthropic's agent. The library spells neither
/// out: which name this agent is launched under, and what the listing says
/// of it, is what the caller gives.
#[derive(Debug)]
pub struct Named {
    /// Its name in lower case, which is its command too.
    pub name: String,
    /// How it is described in the listing.
    pub description: String,
}

/// The agent of a name the library has, in lower case.
pub open spec fn known_agent(name: Seq<char>) -> Option<Agent> {
    if name == "opencode"@ {
        Some(Agent::Opencode)
    } else if name == "codex"@ {
        Some(Agent::Codex)
    } else if name == "pi"@ {
        Some(Agent::Pi)
    } else if name == "cline"@ {
        Some(Agent::Cline)
    } else if name == "aider"@ {
        Some(Agent::Aider)
    } else if name == "copilot"@ || name == "copilot-cli"@ {
        Some(Agent::Copilot)
    } else if name == "kimi"@ {
        Some(Agent::Kimi)
    } else if name == "gemini"@ {
        Some(Agent::Gemini)
    } else if name == "agy"@ {
        Some(Agent::Agy)
    } else if name == "hermes"@ {
        Some(Agent::Hermes)
    } else if name == "openclaw"@ {
        Some(Agent::Openclaw)
    } else if name == "qwen"@ {
        Some(Agent::Qwen)
    } else if name == "dsh"@ {
        Some(Agent::Dsh)
    } else if name == "goose"@ {
        Some(Agent::Goose)
    } else if name == "grok"@ {
        Some(Agent::Grok)
    } else {
        None
    }
}

/// The agent of a name, in lower case.
pub open spec fn agent_of(name: Seq<char>, named: Named) -> Option<Agent> {
    match known_agent(name) {
        Some(agent) => Some(agent),
        None => if name == named.name@ {
            Some(Agent::Claude)
        } else {
            None
        },
    }
}

/// The agent of a name, in lower case, none if there is none of that name.
fn agent_called(name: &str, named: &Named) -> (r: Option<Agent>)
    ensures
        r == agent_of(name@, *named),
{
    if same(name, "opencode") {
        Some(Agent::Opencode)
    } else if same(name, "codex") {
        Some(Agent::Codex)
    } else if same(name, "pi") {
        Some(Agent::Pi)
    } else if same(name, "cline") {
        Some(Agent::Cline)
    } else if same(name, "aider") {
        Some(Agent::Aider)
    } else if same(name, "copilot") || same(name, "copilot-cli") {
        Some(Agent::Copilot)
    } else if same(name, "kimi") {
        Some(Agent::Kimi)
    } else if same(name, "gemini") {
        Some(Agent::Gemini)
    } else if same(name, "agy") {
        Some(Agent::Agy)
    } else if same(name, "hermes") {
        Some(Agent::Hermes)
    } else if same(name, "openclaw") {
        Some(Agent::Openclaw)
    } else if same(name, "qwen") {
        Some(Agent::Qwen)
    } else if same(name, "dsh") {
        Some(Agent::Dsh)
    } else if same(name, "goose") {
        Some(Agent::Goose)
    } else if same(name, "grok") {
        Some(Agent::Grok)
    } else if same(name, named.name.as_str()) {
        Some(Agent::Claude)
    } else {
        None
    }
}

/// A text as Rust's debug format quotes it.
pub uninterp spec fn debug_text(text: Seq<char>) -> Seq<char>;

/// `str`'s `Debug` depends on the string alone: the string in double
/// quotes, with escapes. Which characters are escaped, and how, is left
/// unsaid.
#[verifier::external_body]
fn debug_str(text: &str) -> (r: String)
    ensures
        r@ == debug_text(text@),
{
    format!("{:?}", text)
}

/// What is said of a name that is no agent's.
pub open spec fn unknown_text(name: Seq<char>) -> Seq<char> {
    "unknown integration "@ + debug_text(lowercased(name))
        + "\nRun 'llmman launch' without arguments to list supported integrations."@
}

/// The agent `llmman launch` is asked for, by its name in any case.
pub fn launch(name: &str, named: &Named) -> (r: Result<Agent, String>)
    ensures
        match r {
            Ok(agent) => agent_of(lowercased(name@), *named) == Some(agent),
            Err(message) => agent_of(lowercased(name@), *named) is None && message@
                == unknown_text(name@),
        },
{
    let name = name.to_lowercase();
    match agent_called(name.as_str(), named) {
        Some(agent) => Ok(agent),
        None => {
            let mut out = "unknown integration ".to_owned();
            out.append(debug_str(name.as_str()).as_str());
            out.append(
                "\nRun 'llmman launch' without arguments to list supported integrations.",
            );
            Err(out)
        },
    }
}

// ---------------------------------------------------------------------------
// Finding an agent
// ---------------------------------------------------------------------------

/// Where an agent is looked for once it is not on `PATH`.
#[derive(Debug, Clone, Copy, PartialEq, Eq, Structural)]
pub enum Fallback {
    /// Nowhere.
    Nowhere,
    /// Where opencode's installers put it.
    Opencode,
    /// Where Qwen Code's installers put it.
    Qwen,
    /// Under `npx`.
    Npx,
    /// Where goose's installer puts it.
    Goose,
    /// Where Grok's installer puts it.
    Grok,
}

/// Where an agent is looked for once it is not on `PATH`.
pub open spec fn fallback_of(agent: Agent) -> Fallback {
    match agent {
        Agent::Opencode => Fallback::Opencode,
        Agent::Qwen => Fallback::Qwen,
        Agent::Dsh => Fallback::Npx,
        Agent::Goose => Fallback::Goose,
        Agent::Grok => Fallback::Grok,
        _ => Fallback::Nowhere,
    }
}

/// Where an agent is looked for once it is not on `PATH`.
pub fn fallback_for(agent: Agent) -> (r: Fallback)
    ensures
        r == fallback_of(agent),
{
    match agent {
        Agent::Opencode => Fallback::Opencode,
        Agent::Qwen => Fallback::Qwen,
        Agent::Dsh => Fallback::Npx,
        Agent::Goose => Fallback::Goose,
        Agent::Grok => Fallback::Grok,
        _ => Fallback::Nowhere,
    }
}

/// The command of an agent.
pub open spec fn binary_of(agent: Agent, named: Named) -> Seq<char> {
    match agent {
        Agent::Claude => named.name@,
        Agent::Opencode => "opencode"@,
        Agent::Codex => "codex"@,
        Agent::Pi => "pi"@,
        Agent::Cline => "cline"@,
        Agent::Aider => "aider"@,
        Agent::Copilot => "gh"@,
        Agent::Kimi => "kimi"@,
        Agent::Gemini => "gemini"@,
        Agent::Agy => "agy"@,
        Agent::Hermes => "hermes"@,
        Agent::Openclaw => "openclaw"@,
        Agent::Qwen => "qwen"@,
        Agent::Dsh => "dsh"@,
        Agent::Goose => "goose"@,
        Agent::Grok => "grok"@,
    }
}

/// The command of an agent.
pub fn binary_for(agent: Agent, named: &Named) -> (r: &str)
    ensures
        r@ == binary_of(agent, *named),
{
    match agent {
        Agent::Claude => named.name.as_str(),
        Agent::Opencode => "opencode",
        Agent::Codex => "codex",
        Agent::Pi => "pi",
        Agent::Cline => "cline",
        Agent::Aider => "aider",
        Agent::Copilot => "gh",
        Agent::Kimi => "kimi",
        Agent::Gemini => "gemini",
        Agent::Agy => "agy",
        Agent::Hermes => "hermes",
        Agent::Openclaw => "openclaw",
        Agent::Qwen => "qwen",
        Agent::Dsh => "dsh",
        Agent::Goose => "goose",
        Agent::Grok => "grok",
    }
}

/// What is said of an agent that was not found.
pub open spec fn missing_text(agent: Agent, named: Named) -> Seq<char> {
    match agent {
        Agent::Copilot => "gh (GitHub CLI) is not installed"@,
        Agent::Dsh => "dsh is not installed, and there is no npx on PATH to run it with"@,
        _ => binary_of(agent, named) + " is not installed"@,
    }
}

/// What is said of an agent that was not found.
pub fn not_installed(agent: Agent, named: &Named) -> (r: String)
    ensures
        r@ == missing_text(agent, *named),
{
    match agent {
        Agent::Copilot => "gh (GitHub CLI) is not installed".to_owned(),
        Agent::Dsh => "dsh is not installed, and there is no npx on PATH to run it with".to_owned(),
        _ => {
            let mut out = binary_for(agent, named).to_owned();
            out.append(" is not installed");
            out
        },
    }
}

// ---------------------------------------------------------------------------
// The listing
// ---------------------------------------------------------------------------

/// An agent as it is listed.
#[derive(Debug)]
pub struct Integration {
    pub name: String,
    pub description: String,
    pub binary: String,
}

/// What an entry of the listing says.
pub struct Listed {
    pub name: Seq<char>,
    pub description: Seq<char>,
    pub binary: Seq<char>,
}

impl View for Integration {
    type V = Listed;

    open spec fn view(&self) -> Listed {
        Listed { name: self.name@, description: self.description@, binary: self.binary@ }
    }
}

/// An entry of the listing.
pub open spec fn entry(name: Seq<char>, description: Seq<char>, binary: Seq<char>) -> Listed {
    Listed { name, description, binary }
}

/// The agents, in the order they are listed.
pub open spec fn registry(named: Named) -> Seq<Listed> {
    seq![
        entry(named.name@, named.description@, named.name@),
        entry("opencode"@, "OpenCode"@, "opencode"@),
        entry("codex"@, "OpenAI Codex CLI"@, "codex"@),
        entry("pi"@, "Pi coding agent"@, "pi"@),
        entry("cline"@, "Cline"@, "cline"@),
        entry("aider"@, "Aider AI pair programmer"@, "aider"@),
        entry("copilot"@, "GitHub Copilot CLI"@, "gh"@),
        entry("kimi"@, "Kimi Code CLI"@, "kimi"@),
        entry("gemini"@, "Gemini CLI"@, "gemini"@),
        entry("agy"@, "Google Antigravity CLI"@, "agy"@),
        entry("hermes"@, "Hermes Agent"@, "hermes"@),
        entry("openclaw"@, "OpenClaw"@, "openclaw"@),
        entry("qwen"@, "Qwen Code"@, "qwen"@),
        entry("dsh"@, "DeepSeek Harness"@, "dsh"@),
        entry("goose"@, "Block goose"@, "goose"@),
        entry("grok"@, "Grok Build"@, "grok"@),
    ]
}

/// What the entries of a listing say.
pub open spec fn listed_entries(list: Seq<Integration>) -> Seq<Listed> {
    list.map_values(|i: Integration| i@)
}

/// An entry of the listing.
fn make_entry(name: &str, description: &str, binary: &str) -> (r: Integration)
    ensures
        r@ == entry(name@, description@, binary@),
{
    Integration {
        name: name.to_owned(),
        description: description.to_owned(),
        binary: binary.to_owned(),
    }
}

/// The agents, in the order they are listed.
pub fn integrations(named: &Named) -> (r: Vec<Integration>)
    ensures
        listed_entries(r@) == registry(*named),
{
    let mut list: Vec<Integration> = Vec::new();
    list.push(
        make_entry(named.name.as_str(), named.description.as_str(), named.name.as_str()),
    );
    list.push(make_entry("opencode", "OpenCode", "opencode"));
    list.push(make_entry("codex", "OpenAI Codex CLI", "codex"));
    list.push(make_entry("pi", "Pi coding agent", "pi"));
    list.push(make_entry("cline", "Cline", "cline"));
    list.push(make_entry("aider", "Aider AI pair programmer", "aider"));
    list.push(make_entry("copilot", "GitHub Copilot CLI", "gh"));
    list.push(make_entry("kimi", "Kimi Code CLI", "kimi"));
    list.push(make_entry("gemini", "Gemini CLI", "gemini"));
    list.push(make_entry("agy", "Google Antigravity CLI", "agy"));
    list.push(make_entry("hermes", "Hermes Agent", "hermes"));
    list.push(make_entry("openclaw", "OpenClaw", "openclaw"));
    list.push(make_entry("qwen", "Qwen Code", "qwen"));
    list.push(make_entry("dsh", "DeepSeek Harness", "dsh"));
    list.push(make_entry("goose", "Block goose", "goose"));
    list.push(make_entry("grok", "Grok Build", "grok"));
    assert(listed_entries(list@) =~= registry(*named));
    list
}

/// How an agent would be run.
#[derive(Debug, Clone, Copy, PartialEq, Eq, Structural)]
pub enum Installed {
    /// From where it is installed.
    Yes,
    /// By `npx`, which downloads it first.
    ViaNpx,
    /// Not at all.
    No,
}

/// How an agent would be run, by the stem of the program's name.
pub open spec fn run_as(stem: Option<Seq<char>>) -> Installed {
    match stem {
        Some(stem) => if stem == "npx"@ {
            Installed::ViaNpx
        } else {
            Installed::Yes
        },
        None => Installed::No,
    }
}

/// How an agent would be run, by the stem of the program's name, which is
/// none where no program was found.
pub fn how_run(stem: Option<&str>) -> (r: Installed)
    ensures
        r == run_as(text_of(stem)),
{
    match stem {
        Some(stem) => if same(stem, "npx") {
            Installed::ViaNpx
        } else {
            Installed::Yes
        },
        None => Installed::No,
    }
}

/// `s` with spaces behind it, up to a width.
pub open spec fn padded(s: Seq<char>, width: nat) -> Seq<char>
    decreases width - s.len(),
{
    if s.len() >= width {
        s
    } else {
        padded(s.push(' '), width)
    }
}

/// `s` with spaces behind it, up to a width.
fn pad(s: &str, width: usize) -> (r: String)
    ensures
        r@ == padded(s@, width as nat),
{
    let mut out = s.to_owned();
    let mut n: usize = s.unicode_len();
    while n < width
        invariant
            n == out@.len(),
            padded(out@, width as nat) == padded(s@, width as nat),
        decreases width - n,
    {
        out.push(' ');
        n = n + 1;
    }
    out
}

/// The line of an agent in the listing.
pub open spec fn listing_line(integration: Listed, installed: Installed) -> Seq<char> {
    "  "@ + padded(integration.name, 12) + " "@ + integration.description + match installed {
        Installed::Yes => ""@,
        Installed::ViaNpx => " (via npx)"@,
        Installed::No => " (not installed)"@,
    }
}

/// The lines of the listing.
pub open spec fn listing_lines(installed: Seq<Installed>, named: Named) -> Seq<Seq<char>> {
    seq!["Available integrations:"@, ""@] + Seq::new(
        registry(named).len(),
        |i: int| listing_line(registry(named)[i], installed[i]),
    ) + seq![
        ""@,
        "Usage: llmman launch <integration> [--model <model>] [--provider <provider>]"@,
        "       llmman providers   (the providers --provider accepts)"@,
    ]
}

/// The line of an agent in the listing.
fn write_line(integration: &Integration, installed: Installed) -> (r: String)
    ensures
        r@ == listing_line(integration@, installed),
{
    let mut out = "  ".to_owned();
    out.append(pad(integration.name.as_str(), 12).as_str());
    out.append(" ");
    out.append(integration.description.as_str());
    out.append(
        match installed {
            Installed::Yes => "",
            Installed::ViaNpx => " (via npx)",
            Installed::No => " (not installed)",
        },
    );
    out
}

/// The listing of the agents and of how each would be run, which is given
/// in the order they are listed in.
pub fn integration_listing(installed: &Vec<Installed>, named: &Named) -> (r: String)
    requires
        installed@.len() == registry(*named).len(),
    ensures
        r@ == unlines(listing_lines(installed@, *named)),
{
    let list = integrations(named);
    let mut out: Vec<String> = Vec::new();
    push_text(&mut out, "Available integrations:");
    push_text(&mut out, "");
    let ghost head = seq!["Available integrations:"@, ""@];
    let ghost rows = Seq::new(
        registry(*named).len(),
        |i: int| listing_line(registry(*named)[i], installed@[i]),
    );
    assert(texts(out@) =~= head + rows.take(0));
    for i in 0..list.len()
        invariant
            installed@.len() == registry(*named).len(),
            listed_entries(list@) == registry(*named),
            rows == Seq::new(
                registry(*named).len(),
                |i: int| listing_line(registry(*named)[i], installed@[i]),
            ),
            texts(out@) == head + rows.take(i as int),
    {
        assert(listed_entries(list@)[i as int] == list@[i as int]@);
        let line = write_line(&list[i], installed[i]);
        push_text(&mut out, line.as_str());
        assert(rows.take(i + 1) =~= rows.take(i as int).push(rows[i as int]));
        assert(texts(out@) =~= head + rows.take(i + 1));
    }
    assert(rows.take(rows.len() as int) =~= rows);
    push_text(&mut out, "");
    push_text(
        &mut out,
        "Usage: llmman launch <integration> [--model <model>] [--provider <provider>]",
    );
    push_text(&mut out, "       llmman providers   (the providers --provider accepts)");
    assert(texts(out@) =~= listing_lines(installed@, *named));
    join_lines(&out)
}

// ---------------------------------------------------------------------------
// Laws
// ---------------------------------------------------------------------------

/// What is listed can be launched, and under the command it is listed
/// with, so the listing does not report as missing what a launch would
/// find. Of the first entry this holds if the name given is no other
/// agent's; of the others it holds whatever name is given.
pub proof fn law_what_is_listed_can_be_launched(i: int, named: Named)
    requires
        0 <= i < registry(named).len(),
        i == 0 ==> known_agent(named.name@) is None,
    ensures
        agent_of(registry(named)[i].name, named) matches Some(agent) && binary_of(agent, named)
            == registry(named)[i].binary,
{
    reveal_strlit("opencode");
    reveal_strlit("codex");
    reveal_strlit("pi");
    reveal_strlit("cline");
    reveal_strlit("aider");
    reveal_strlit("copilot");
    reveal_strlit("copilot-cli");
    reveal_strlit("kimi");
    reveal_strlit("gemini");
    reveal_strlit("agy");
    reveal_strlit("hermes");
    reveal_strlit("openclaw");
    reveal_strlit("qwen");
    reveal_strlit("dsh");
    reveal_strlit("goose");
    reveal_strlit("grok");
    assert("opencode"@.len() == 8 && "opencode"@[4] == 'c');
    assert("codex"@.len() == 5 && "codex"@[1] == 'o' && "codex"@[0] == 'c');
    assert("pi"@.len() == 2);
    assert("cline"@.len() == 5 && "cline"@[1] == 'l' && "cline"@[0] == 'c');
    assert("aider"@.len() == 5 && "aider"@[0] == 'a');
    assert("copilot"@.len() == 7);
    assert("copilot-cli"@.len() == 11);
    assert("kimi"@.len() == 4 && "kimi"@[0] == 'k');
    assert("gemini"@.len() == 6 && "gemini"@[0] == 'g');
    assert("agy"@.len() == 3 && "agy"@[0] == 'a');
    assert("hermes"@.len() == 6 && "hermes"@[0] == 'h');
    assert("openclaw"@.len() == 8 && "openclaw"@[5] == 'l' && "opencode"@[5] == 'o');
    assert("qwen"@.len() == 4 && "qwen"@[0] == 'q');
    assert("dsh"@.len() == 3 && "dsh"@[0] == 'd');
    assert("goose"@.len() == 5 && "goose"@[0] == 'g');
    assert("grok"@.len() == 4 && "grok"@[0] == 'g');
}

/// Each agent is launched under its own name, GitHub's under either of two,
/// and no other name is an agent's but the one the caller gives.
pub proof fn law_which_agent_a_name_is(name: Seq<char>, named: Named)
    ensures
        known_agent(name) == Some(Agent::Opencode) <==> name == "opencode"@,
        known_agent(name) == Some(Agent::Codex) <==> name == "codex"@,
        known_agent(name) == Some(Agent::Pi) <==> name == "pi"@,
        known_agent(name) == Some(Agent::Cline) <==> name == "cline"@,
        known_agent(name) == Some(Agent::Aider) <==> name == "aider"@,
        known_agent(name) == Some(Agent::Kimi) <==> name == "kimi"@,
        known_agent(name) == Some(Agent::Gemini) <==> name == "gemini"@,
        known_agent(name) == Some(Agent::Agy) <==> name == "agy"@,
        known_agent(name) == Some(Agent::Hermes) <==> name == "hermes"@,
        known_agent(name) == Some(Agent::Openclaw) <==> name == "openclaw"@,
        known_agent(name) == Some(Agent::Qwen) <==> name == "qwen"@,
        known_agent(name) == Some(Agent::Dsh) <==> name == "dsh"@,
        known_agent(name) == Some(Agent::Goose) <==> name == "goose"@,
        known_agent(name) == Some(Agent::Grok) <==> name == "grok"@,
        known_agent(name) == Some(Agent::Copilot) <==> name == "copilot"@ || name == "copilot-cli"@,
        known_agent(name) != Some(Agent::Claude),
        known_agent(name) is Some ==> agent_of(name, named) == known_agent(name),
        known_agent(name) is None ==> (agent_of(name, named) == if name == named.name@ {
            Some(Agent::Claude)
        } else {
            None
        }),
{
    reveal_strlit("opencode");
    reveal_strlit("codex");
    reveal_strlit("pi");
    reveal_strlit("cline");
    reveal_strlit("aider");
    reveal_strlit("copilot");
    reveal_strlit("copilot-cli");
    reveal_strlit("kimi");
    reveal_strlit("gemini");
    reveal_strlit("agy");
    reveal_strlit("hermes");
    reveal_strlit("openclaw");
    reveal_strlit("qwen");
    reveal_strlit("dsh");
    reveal_strlit("goose");
    reveal_strlit("grok");
    assert("opencode"@.len() == 8);
    assert("codex"@.len() == 5);
    assert("pi"@.len() == 2);
    assert("cline"@.len() == 5);
    assert("aider"@.len() == 5);
    assert("copilot"@.len() == 7);
    assert("copilot-cli"@.len() == 11);
    assert("kimi"@.len() == 4);
    assert("gemini"@.len() == 6);
    assert("agy"@.len() == 3);
    assert("hermes"@.len() == 6);
    assert("openclaw"@.len() == 8);
    assert("qwen"@.len() == 4);
    assert("dsh"@.len() == 3);
    assert("goose"@.len() == 5);
    assert("grok"@.len() == 4);
    assert("opencode"@[5] == 'o' && "openclaw"@[5] == 'l');
    assert("codex"@[1] == 'o' && "cline"@[1] == 'l');
    assert("codex"@[0] == 'c' && "aider"@[0] == 'a');
    assert("codex"@[0] == 'c' && "goose"@[0] == 'g');
    assert("cline"@[0] == 'c' && "aider"@[0] == 'a');
    assert("cline"@[0] == 'c' && "goose"@[0] == 'g');
    assert("aider"@[0] == 'a' && "goose"@[0] == 'g');
    assert("kimi"@[0] == 'k' && "qwen"@[0] == 'q');
    assert("kimi"@[0] == 'k' && "grok"@[0] == 'g');
    assert("gemini"@[0] == 'g' && "hermes"@[0] == 'h');
    assert("agy"@[0] == 'a' && "dsh"@[0] == 'd');
    assert("qwen"@[0] == 'q' && "grok"@[0] == 'g');
}

/// An agent's command is a name it is launched under, but for GitHub's,
/// which runs as an extension of `gh`.
pub proof fn law_an_agent_is_run_by_its_name(agent: Agent, named: Named)
    requires
        known_agent(named.name@) is None,
    ensures
        agent != Agent::Copilot ==> agent_of(binary_of(agent, named), named) == Some(agent),
        agent == Agent::Copilot ==> binary_of(agent, named) == "gh"@,
{
    law_which_agent_a_name_is(binary_of(agent, named), named);
}

/// Who is looked for beyond `PATH`: those whose installers keep off it,
/// each in its own places, and dsh under `npx`.
pub proof fn law_who_is_looked_for_elsewhere(agent: Agent)
    ensures
        fallback_of(agent) == Fallback::Opencode <==> agent == Agent::Opencode,
        fallback_of(agent) == Fallback::Qwen <==> agent == Agent::Qwen,
        fallback_of(agent) == Fallback::Npx <==> agent == Agent::Dsh,
        fallback_of(agent) == Fallback::Goose <==> agent == Agent::Goose,
        fallback_of(agent) == Fallback::Grok <==> agent == Agent::Grok,
{
}

/// What is said of an agent that was not found names its command, and of
/// dsh what else it could have been run with.
pub proof fn law_what_is_said_of_a_missing_agent(agent: Agent, named: Named)
    ensures
        agent == Agent::Copilot ==> missing_text(agent, named)
            == "gh (GitHub CLI) is not installed"@,
        agent == Agent::Dsh ==> missing_text(agent, named)
            == "dsh is not installed, and there is no npx on PATH to run it with"@,
        agent != Agent::Copilot && agent != Agent::Dsh ==> missing_text(agent, named) == binary_of(
            agent,
            named,
        ) + " is not installed"@,
{
}

/// A name that is no agent's is quoted, in lower case, and the listing
/// pointed to.
pub proof fn law_what_is_said_of_an_unknown_agent(name: Seq<char>)
    ensures
        unknown_text(name) == "unknown integration "@ + debug_text(lowercased(name))
            + "\nRun 'llmman launch' without arguments to list supported integrations."@,
{
}

/// What the listing shows of each agent, in its order: the one the caller
/// gives first.
pub proof fn law_what_is_listed_of_each_agent(agent: Agent, named: Named)
    ensures
        registry(named).len() == 16,
        ({
            let list = registry(named);
            match agent {
                Agent::Claude => list[0].name == named.name@ && list[0].description
                    == named.description@,
                Agent::Opencode => list[1].name == "opencode"@ && list[1].description
                    == "OpenCode"@,
                Agent::Codex => list[2].name == "codex"@ && list[2].description
                    == "OpenAI Codex CLI"@,
                Agent::Pi => list[3].name == "pi"@ && list[3].description == "Pi coding agent"@,
                Agent::Cline => list[4].name == "cline"@ && list[4].description == "Cline"@,
                Agent::Aider => list[5].name == "aider"@ && list[5].description
                    == "Aider AI pair programmer"@,
                Agent::Copilot => list[6].name == "copilot"@ && list[6].description
                    == "GitHub Copilot CLI"@,
                Agent::Kimi => list[7].name == "kimi"@ && list[7].description == "Kimi Code CLI"@,
                Agent::Gemini => list[8].name == "gemini"@ && list[8].description == "Gemini CLI"@,
                Agent::Agy => list[9].name == "agy"@ && list[9].description
                    == "Google Antigravity CLI"@,
                Agent::Hermes => list[10].name == "hermes"@ && list[10].description
                    == "Hermes Agent"@,
                Agent::Openclaw => list[11].name == "openclaw"@ && list[11].description
                    == "OpenClaw"@,
                Agent::Qwen => list[12].name == "qwen"@ && list[12].description == "Qwen Code"@,
                Agent::Dsh => list[13].name == "dsh"@ && list[13].description
                    == "DeepSeek Harness"@,
                Agent::Goose => list[14].name == "goose"@ && list[14].description == "Block goose"@,
                Agent::Grok => list[15].name == "grok"@ && list[15].description == "Grok Build"@,
            }
        }),
{
}

/// Only what is run by `npx` is downloaded first, and only what was not
/// found is not run.
pub proof fn law_how_a_program_is_run(stem: Option<Seq<char>>)
    ensures
        run_as(stem) == Installed::No <==> stem is None,
        run_as(stem) == Installed::ViaNpx <==> stem == Some("npx"@),
        run_as(stem) == Installed::Yes <==> stem is Some && stem != Some("npx"@),
{
}

/// A padded text is the text, and then spaces up to the width.
pub proof fn law_what_a_padded_text_is(s: Seq<char>, width: nat)
    ensures
        s.len() >= width ==> padded(s, width) == s,
        s.len() < width ==> padded(s, width) == s + Seq::new(
            (width - s.len()) as nat,
            |i: int| ' ',
        ),
    decreases width - s.len(),
{
    if s.len() < width {
        let more = s.push(' ');
        law_what_a_padded_text_is(more, width);
        assert(padded(s, width) =~= s + Seq::new((width - s.len()) as nat, |i: int| ' '));
    }
}

/// A line of the listing: two spaces, the name up to twelve columns, the
/// description, and how the agent would be run where that is not from where
/// it is installed.
pub proof fn law_what_a_line_of_the_listing_says(listed: Listed)
    ensures
        listing_line(listed, Installed::Yes) == "  "@ + padded(listed.name, 12) + " "@
            + listed.description,
        listing_line(listed, Installed::ViaNpx) == listing_line(listed, Installed::Yes)
            + " (via npx)"@,
        listing_line(listed, Installed::No) == listing_line(listed, Installed::Yes)
            + " (not installed)"@,
{
    reveal_strlit("");
    let line = "  "@ + padded(listed.name, 12) + " "@ + listed.description;
    assert(line + ""@ =~= line);
}

/// The listing: its heading, a line for each agent, and how a launch is
/// written.
pub proof fn law_what_the_listing_is(installed: Seq<Installed>, named: Named, i: int)
    ensures
        ({
            let lines = listing_lines(installed, named);
            &&& lines.len() == 21
            &&& lines[0] == "Available integrations:"@
            &&& lines[1] == ""@
            &&& 0 <= i < 16 ==> lines[2 + i] == listing_line(registry(named)[i], installed[i])
            &&& lines[18] == ""@
            &&& lines[19]
                == "Usage: llmman launch <integration> [--model <model>] [--provider <provider>]"@
            &&& lines[20] == "       llmman providers   (the providers --provider accepts)"@
        }),
{
}

} // verus!

//! Where agents are installed and keep their configuration. A location is
//! symbolic: a directory only the running system knows, and the parts below
//! it.

use crate::text::{
    extend_texts, from_chars, law_a_prefix_is_taken_off, strip_prefix, text_of, texts, to_chars,
    trim_text, trimmed, without_prefix,
};
use vstd::prelude::*;
use vstd::slice::slice_subrange;
use vstd::string::*;

verus! {

// ---------------------------------------------------------------------------
// Locations
// ---------------------------------------------------------------------------

/// A directory, or a file, that the running system knows.
#[derive(Debug)]
pub enum Root<S> {
    /// The user's home directory.
    Home,
    /// The home directory as node reads it.
    NodeHome,
    /// What `%APPDATA%` names.
    AppData,
    /// What `%LOCALAPPDATA%` names.
    LocalAppData,
    /// What `$GROK_HOME` names.
    GrokHome,
    /// The directory of `llmman.conf`.
    ConfigDir,
    /// The `qwen` of a node version under `~/.nvm`.
    NvmQwen,
    /// A path as it is given.
    Given(S),
}

/// A path: a root, and what is joined to it, one part after the other.
#[derive(Debug)]
pub struct Location {
    pub root: Root<String>,
    pub parts: Vec<String>,
}

/// What a location says.
pub struct Place {
    pub root: Root<Seq<char>>,
    pub parts: Seq<Seq<char>>,
}

/// What a root says.
pub open spec fn root_of(root: Root<String>) -> Root<Seq<char>> {
    match root {
        Root::Home => Root::Home,
        Root::NodeHome => Root::NodeHome,
        Root::AppData => Root::AppData,
        Root::LocalAppData => Root::LocalAppData,
        Root::GrokHome => Root::GrokHome,
        Root::ConfigDir => Root::ConfigDir,
        Root::NvmQwen => Root::NvmQwen,
        Root::Given(path) => Root::Given(path@),
    }
}

impl View for Location {
    type V = Place;

    open spec fn view(&self) -> Place {
        Place { root: root_of(self.root), parts: texts(self.parts@) }
    }
}

/// What locations say.
pub open spec fn places(list: Seq<Location>) -> Seq<Place> {
    list.map_values(|l: Location| l@)
}

impl Place {
    /// The path with a part joined to it.
    pub open spec fn join(self, part: Seq<char>) -> Place {
        Place { root: self.root, parts: self.parts.push(part) }
    }
}

/// A root, with nothing joined to it.
pub open spec fn at(root: Root<Seq<char>>) -> Place {
    Place { root, parts: Seq::empty() }
}

impl Location {
    /// A root, with nothing joined to it.
    pub fn new(root: Root<String>) -> (r: Location)
        ensures
            r@ == at(root_of(root)),
    {
        let parts: Vec<String> = Vec::new();
        assert(texts(parts@) =~= Seq::<Seq<char>>::empty());
        Location { root, parts }
    }

    /// The path with a part joined to it.
    pub fn join(self, part: &str) -> (r: Location)
        ensures
            r@ == self@.join(part@),
    {
        let ghost before = self.parts@;
        let mut parts = self.parts;
        parts.push(part.to_owned());
        assert(texts(parts@) =~= texts(before).push(part@));
        Location { root: self.root, parts }
    }

    /// A copy of the path.
    pub fn copy(&self) -> (r: Location)
        ensures
            r@ == self@,
    {
        let root = match &self.root {
            Root::Home => Root::Home,
            Root::NodeHome => Root::NodeHome,
            Root::AppData => Root::AppData,
            Root::LocalAppData => Root::LocalAppData,
            Root::GrokHome => Root::GrokHome,
            Root::ConfigDir => Root::ConfigDir,
            Root::NvmQwen => Root::NvmQwen,
            Root::Given(path) => Root::Given(path.clone()),
        };
        let mut parts: Vec<String> = Vec::new();
        extend_texts(&mut parts, self.parts.as_slice());
        assert(texts(parts@) =~= texts(self.parts@));
        Location { root, parts }
    }
}

/// Puts a location behind others.
fn add_place(list: &mut Vec<Location>, location: Location)
    ensures
        places(final(list)@) == places(old(list)@).push(location@),
{
    list.push(location);
    assert(places(list@) =~= places(old(list)@).push(location@));
}

// ---------------------------------------------------------------------------
// Executables
// ---------------------------------------------------------------------------

/// The kind of system, as far as places depend on it.
#[derive(Debug, Clone, Copy, PartialEq, Eq, Structural)]
pub enum Os {
    Windows,
    MacOs,
    Other,
}

/// The name of an executable on Windows.
pub open spec fn with_ext(binary: Seq<char>, ext: Seq<char>) -> Seq<char> {
    binary.push('.') + ext
}

/// The file names a command goes by. On Windows a command is never a bare
/// file: `.exe` is a native binary, and `.cmd` or `.bat` what npm generates.
pub open spec fn executable_names(binary: Seq<char>, os: Os) -> Seq<Seq<char>> {
    if os == Os::Windows {
        seq![with_ext(binary, "exe"@), with_ext(binary, "cmd"@), with_ext(binary, "bat"@)]
    } else {
        seq![binary]
    }
}

/// A binary with an extension.
fn add_ext(binary: &str, ext: &str) -> (r: String)
    ensures
        r@ == with_ext(binary@, ext@),
{
    let mut name = binary.to_owned();
    name.push('.');
    name.append(ext);
    name
}

/// The file names a command goes by, in the order they are tried.
pub fn path_candidates(binary: &str, os: Os) -> (r: Vec<String>)
    ensures
        texts(r@) == executable_names(binary@, os),
{
    let mut names: Vec<String> = Vec::new();
    if os == Os::Windows {
        names.push(add_ext(binary, "exe"));
        names.push(add_ext(binary, "cmd"));
        names.push(add_ext(binary, "bat"));
    } else {
        names.push(binary.to_owned());
    }
    assert(texts(names@) =~= executable_names(binary@, os));
    names
}

/// The files of a command in a directory.
pub open spec fn executables(dir: Place, binary: Seq<char>, os: Os) -> Seq<Place> {
    executable_names(binary, os).map_values(|name: Seq<char>| dir.join(name))
}

/// The files of a command in a directory, put behind other places.
fn add_executables(list: &mut Vec<Location>, dir: &Location, binary: &str, os: Os)
    ensures
        places(final(list)@) == places(old(list)@) + executables(dir@, binary@, os),
{
    let names = path_candidates(binary, os);
    let ghost before = places(list@);
    let ghost all = executables(dir@, binary@, os);
    for i in 0..names.len()
        invariant
            all == executables(dir@, binary@, os),
            texts(names@) == executable_names(binary@, os),
            places(list@) == before + all.take(i as int),
    {
        assert(texts(names@)[i as int] == names@[i as int]@);
        assert(all[i as int] == dir@.join(names@[i as int]@));
        add_place(list, dir.copy().join(names[i].as_str()));
        assert(all.take(i + 1) =~= all.take(i as int).push(all[i as int]));
        assert(places(list@) =~= before + all.take(i + 1));
    }
    assert(all.take(all.len() as int) =~= all);
}

// ---------------------------------------------------------------------------
// Installations
// ---------------------------------------------------------------------------

/// The directories a system knows. A variable that is blank counts as
/// unset, or what is below it would be relative.
#[derive(Debug, Clone, Copy, PartialEq, Eq, Structural)]
pub struct Known {
    /// There is a home directory.
    pub home: bool,
    /// `%APPDATA%` is set.
    pub app_data: bool,
    /// `%LOCALAPPDATA%` is set.
    pub local_app_data: bool,
    /// A node version under `~/.nvm` has `qwen`.
    pub nvm_qwen: bool,
}

/// The directory of roaming application data.
pub open spec fn roaming_dir(known: Known) -> Option<Place> {
    if known.app_data {
        Some(at(Root::AppData))
    } else if known.home {
        Some(at(Root::Home).join("AppData"@).join("Roaming"@))
    } else {
        None
    }
}

/// The directory of local application data.
pub open spec fn local_dir(known: Known) -> Option<Place> {
    if known.local_app_data {
        Some(at(Root::LocalAppData))
    } else if known.home {
        Some(at(Root::Home).join("AppData"@).join("Local"@))
    } else {
        None
    }
}

/// What an optional location says.
pub open spec fn place_of(location: Option<Location>) -> Option<Place> {
    match location {
        Some(l) => Some(l@),
        None => None,
    }
}

/// The directory of roaming application data.
fn roaming(known: Known) -> (r: Option<Location>)
    ensures
        place_of(r) == roaming_dir(known),
{
    if known.app_data {
        Some(Location::new(Root::AppData))
    } else if known.home {
        Some(Location::new(Root::Home).join("AppData").join("Roaming"))
    } else {
        None
    }
}

/// The directory of local application data.
fn local(known: Known) -> (r: Option<Location>)
    ensures
        place_of(r) == local_dir(known),
{
    if known.local_app_data {
        Some(Location::new(Root::LocalAppData))
    } else if known.home {
        Some(Location::new(Root::Home).join("AppData").join("Local"))
    } else {
        None
    }
}

/// Where opencode's installers put it.
pub open spec fn opencode_places(os: Os, known: Known) -> Seq<Place> {
    let home = at(Root::Home).join(".opencode"@).join("bin"@);
    let installed = if !known.home {
        Seq::empty()
    } else if os == Os::Windows {
        seq![home.join("opencode.exe"@)]
    } else {
        seq![home.join("opencode"@)]
    };
    match roaming_dir(known) {
        Some(dir) if os == Os::Windows => installed + executables(
            dir.join("npm"@),
            "opencode"@,
            os,
        ),
        _ => installed,
    }
}

/// Where opencode's installers put it: `~/.opencode/bin` and, on Windows,
/// npm's directory under `%APPDATA%`.
pub fn opencode_fallback_paths(os: Os, known: Known) -> (r: Vec<Location>)
    ensures
        places(r@) == opencode_places(os, known),
{
    let mut paths: Vec<Location> = Vec::new();
    assert(places(paths@) =~= Seq::<Place>::empty());
    if known.home {
        let name = if os == Os::Windows {
            "opencode.exe"
        } else {
            "opencode"
        };
        add_place(&mut paths, Location::new(Root::Home).join(".opencode").join("bin").join(name));
    }
    if os == Os::Windows {
        if let Some(dir) = roaming(known) {
            add_executables(&mut paths, &dir.join("npm"), "opencode", os);
        }
    }
    assert(places(paths@) =~= opencode_places(os, known));
    paths
}

/// The files of qwen in a directory, if that is known.
pub open spec fn qwen_in(dir: Option<Place>) -> Seq<Place> {
    match dir {
        Some(dir) => executables(dir, "qwen"@, Os::Windows),
        None => Seq::empty(),
    }
}

/// A directory one part below another.
pub open spec fn below(dir: Option<Place>, part: Seq<char>) -> Option<Place> {
    match dir {
        Some(dir) => Some(dir.join(part)),
        None => None,
    }
}

/// Where Qwen Code's installers and package managers put it.
pub open spec fn qwen_places(os: Os, known: Known) -> Seq<Place> {
    if os == Os::Windows {
        let roaming = roaming_dir(known);
        let local = local_dir(known);
        qwen_in(below(roaming, "npm"@)) + qwen_in(below(local, "npm"@)) + qwen_in(
            below(below(local, "qwen-code"@), "bin"@),
        ) + qwen_in(below(below(local, "Programs"@), "qwen"@)) + qwen_in(
            below(below(roaming, "qwen"@), "bin"@),
        )
    } else {
        let home = at(Root::Home);
        let installed = if known.home {
            seq![
                home.join(".local"@).join("bin"@).join("qwen"@),
                home.join(".npm-global"@).join("bin"@).join("qwen"@),
                home.join(".cargo"@).join("bin"@).join("qwen"@),
            ]
        } else {
            Seq::empty()
        };
        let supported = if known.home && os == Os::MacOs {
            installed.push(
                home.join("Library"@).join("Application Support"@).join("qwen"@).join(
                    "bin"@,
                ).join("qwen"@),
            )
        } else {
            installed
        };
        let managed = if known.home && known.nvm_qwen {
            supported.push(at(Root::NvmQwen))
        } else {
            supported
        };
        managed.push(
            at(
                Root::Given(
                    if os == Os::MacOs {
                        "/opt/homebrew/bin/qwen"@
                    } else {
                        "/home/linuxbrew/.linuxbrew/bin/qwen"@
                    },
                ),
            ),
        ).push(at(Root::Given("/usr/local/bin/qwen"@)))
    }
}

/// Puts the files of qwen below a directory behind other places.
fn add_qwen(list: &mut Vec<Location>, dir: Option<Location>)
    ensures
        places(final(list)@) == places(old(list)@) + qwen_in(place_of(dir)),
{
    match dir {
        Some(dir) => add_executables(list, &dir, "qwen", Os::Windows),
        None => {
            assert(places(list@) =~= places(list@) + Seq::<Place>::empty());
        },
    }
}

/// A directory one part below another.
fn sub_dir(dir: Option<Location>, part: &str) -> (r: Option<Location>)
    ensures
        place_of(r) == below(place_of(dir), part@),
{
    match dir {
        Some(dir) => Some(dir.join(part)),
        None => None,
    }
}

/// Where a Qwen Code install lands that a process without the user's login
/// shell does not see: the standalone installer's `~/.local/bin` and, on
/// Windows, its `%LOCALAPPDATA%\qwen-code\bin`; the `~/.npm-global` prefix
/// of the older npm installer; any node under `~/.nvm` that has it;
/// Homebrew's prefixes and `/usr/local/bin`; `~/.cargo/bin`; macOS's
/// `~/Library/Application Support/qwen/bin`; and on Windows npm's global
/// directory under both `%APPDATA%` and `%LOCALAPPDATA%`,
/// `%LOCALAPPDATA%\Programs\qwen` and `%APPDATA%\qwen\bin`.
pub fn qwen_fallback_paths(os: Os, known: Known) -> (r: Vec<Location>)
    ensures
        places(r@) == qwen_places(os, known),
{
    let mut paths: Vec<Location> = Vec::new();
    assert(places(paths@) =~= Seq::<Place>::empty());
    if os == Os::Windows {
        add_qwen(&mut paths, sub_dir(roaming(known), "npm"));
        add_qwen(&mut paths, sub_dir(local(known), "npm"));
        add_qwen(&mut paths, sub_dir(sub_dir(local(known), "qwen-code"), "bin"));
        add_qwen(&mut paths, sub_dir(sub_dir(local(known), "Programs"), "qwen"));
        add_qwen(&mut paths, sub_dir(sub_dir(roaming(known), "qwen"), "bin"));
        assert(places(paths@) =~= qwen_places(os, known));
        return paths;
    }
    if known.home {
        add_place(&mut paths, Location::new(Root::Home).join(".local").join("bin").join("qwen"));
        add_place(
            &mut paths,
            Location::new(Root::Home).join(".npm-global").join("bin").join("qwen"),
        );
        add_place(&mut paths, Location::new(Root::Home).join(".cargo").join("bin").join("qwen"));
        if os == Os::MacOs {
            let support = Location::new(Root::Home).join("Library").join("Application Support");
            add_place(&mut paths, support.join("qwen").join("bin").join("qwen"));
        }
        if known.nvm_qwen {
            add_place(&mut paths, Location::new(Root::NvmQwen));
        }
    }
    let brew = if os == Os::MacOs {
        "/opt/homebrew/bin/qwen"
    } else {
        "/home/linuxbrew/.linuxbrew/bin/qwen"
    };
    add_place(&mut paths, Location::new(Root::Given(brew.to_owned())));
    add_place(&mut paths, Location::new(Root::Given("/usr/local/bin/qwen".to_owned())));
    assert(places(paths@) =~= qwen_places(os, known));
    paths
}

/// Where goose's installer puts it, in a home directory.
pub open spec fn goose_places(os: Os) -> Seq<Place> {
    let home = at(Root::Home);
    if os == Os::Windows {
        seq![
            home.join("goose"@).join("goose.exe"@),
            home.join(".local"@).join("bin"@).join("goose.exe"@),
        ]
    } else {
        seq![home.join(".local"@).join("bin"@).join("goose"@)]
    }
}

/// goose's own installer target, which it does not put on `PATH`:
/// `~/.local/bin`, and on Windows `goose` in the home directory first.
pub fn goose_fallback(os: Os) -> (r: Vec<Location>)
    ensures
        places(r@) == goose_places(os),
{
    let mut paths: Vec<Location> = Vec::new();
    assert(places(paths@) =~= Seq::<Place>::empty());
    let name = if os == Os::Windows {
        "goose.exe"
    } else {
        "goose"
    };
    if os == Os::Windows {
        add_place(&mut paths, Location::new(Root::Home).join("goose").join(name));
    }
    add_place(&mut paths, Location::new(Root::Home).join(".local").join("bin").join(name));
    assert(places(paths@) =~= goose_places(os));
    paths
}

/// Where Grok Build's installer puts it.
pub open spec fn grok_place(os: Os) -> Place {
    at(Root::Home).join(".grok"@).join("bin"@).join(
        if os == Os::Windows {
            "grok.exe"@
        } else {
            "grok"@
        },
    )
}

/// The official installer's target for Grok Build, `~/.grok/bin`.
pub fn grok_fallback(os: Os) -> (r: Location)
    ensures
        r@ == grok_place(os),
{
    let name = if os == Os::Windows {
        "grok.exe"
    } else {
        "grok"
    };
    Location::new(Root::Home).join(".grok").join("bin").join(name)
}

// ---------------------------------------------------------------------------
// Configuration directories
// ---------------------------------------------------------------------------

/// Where the home directory is read from.
#[derive(Debug, Clone, Copy, PartialEq, Eq, Structural)]
pub enum HomeSource {
    /// `$HOME`.
    Home,
    /// `$USERPROFILE`.
    UserProfile,
    /// The platform's own lookup.
    Platform,
}

/// Where node reads the home directory from.
pub open spec fn home_source(home_set: bool, user_profile_set: bool) -> HomeSource {
    if home_set {
        HomeSource::Home
    } else if user_profile_set {
        HomeSource::UserProfile
    } else {
        HomeSource::Platform
    }
}

/// Where node reads the home directory from: `HOME`, then `USERPROFILE`,
/// each unless it is empty, then the platform's lookup.
pub fn node_home(home_set: bool, user_profile_set: bool) -> (r: HomeSource)
    ensures
        r == home_source(home_set, user_profile_set),
{
    if home_set {
        HomeSource::Home
    } else if user_profile_set {
        HomeSource::UserProfile
    } else {
        HomeSource::Platform
    }
}

/// `s` without the slashes, of either kind, in front of it.
pub open spec fn without_leading_slashes(s: Seq<char>) -> Seq<char>
    decreases s.len(),
{
    if s.len() > 0 && (s[0] == '/' || s[0] == '\\') {
        without_leading_slashes(s.drop_first())
    } else {
        s
    }
}

/// `s` without the slashes, of either kind, in front of it.
fn skip_slashes(s: &str) -> (r: String)
    ensures
        r@ == without_leading_slashes(s@),
{
    let chars = to_chars(s);
    let mut i: usize = 0;
    assert(chars@.skip(0) == chars@);
    while i < chars.len() && (chars[i] == '/' || chars[i] == '\\')
        invariant
            i <= chars@.len(),
            without_leading_slashes(chars@) == without_leading_slashes(chars@.skip(i as int)),
        decreases chars@.len() - i,
    {
        assert(chars@.skip(i as int).drop_first() == chars@.skip(i + 1));
        i = i + 1;
    }
    let rest = slice_subrange(chars.as_slice(), i, chars.len());
    assert(rest@ == chars@.skip(i as int));
    from_chars(rest)
}

/// A path with a leading `~` replaced by the home directory node reads.
pub open spec fn home_expanded(path: Seq<char>) -> Place {
    match without_prefix(path, "~"@) {
        Some(rest) => at(Root::NodeHome).join(without_leading_slashes(rest)),
        None => at(Root::Given(path)),
    }
}

/// `path` with a leading `~` replaced by the home directory.
pub fn expand_home(path: &str) -> (r: Location)
    ensures
        r@ == home_expanded(path@),
{
    match strip_prefix(path, "~") {
        Some(rest) => {
            let rest = skip_slashes(rest);
            Location::new(Root::NodeHome).join(rest.as_str())
        },
        None => Location::new(Root::Given(path.to_owned())),
    }
}

/// pi's configuration directory.
pub open spec fn pi_dir(dir: Option<Seq<char>>) -> Place {
    match dir {
        Some(dir) if trimmed(dir).len() > 0 => home_expanded(trimmed(dir)),
        _ => at(Root::NodeHome).join(".pi"@).join("agent"@),
    }
}

/// pi's configuration directory: what `PI_CODING_AGENT_DIR` holds, unless
/// that is blank, else `~/.pi/agent`. A `~` that survives into the variable
/// was quoted, and means the home directory.
pub fn pi_agent_dir(dir: Option<&str>) -> (r: Location)
    ensures
        r@ == pi_dir(text_of(dir)),
{
    if let Some(dir) = dir {
        let dir = trim_text(dir);
        if !dir.as_str().is_empty() {
            return expand_home(dir.as_str());
        }
    }
    Location::new(Root::NodeHome).join(".pi").join("agent")
}

/// hermes's configuration directory.
pub open spec fn hermes_dir(
    os: Os,
    dir: Option<Seq<char>>,
    local_app_data: Option<Seq<char>>,
) -> Place {
    if dir matches Some(dir) && trimmed(dir).len() > 0 {
        at(Root::Given(dir->0))
    } else if os != Os::Windows {
        at(Root::Home).join(".hermes"@)
    } else if local_app_data matches Some(local) && trimmed(local).len() > 0 {
        at(Root::Given(local_app_data->0)).join("hermes"@)
    } else {
        at(Root::Home).join("AppData"@).join("Local"@).join("hermes"@)
    }
}

/// Whether a value is there and not blank.
fn is_set(value: Option<&str>) -> (r: bool)
    ensures
        r == (value matches Some(text) && trimmed(text@).len() > 0),
{
    match value {
        Some(text) => {
            let text = trim_text(text);
            !text.as_str().is_empty()
        },
        None => false,
    }
}

/// hermes's configuration directory, as hermes finds it: what
/// `HERMES_HOME` holds, else `%LOCALAPPDATA%\hermes` on Windows, else
/// `~/.hermes`.
pub fn hermes_home(os: Os, dir: Option<&str>, local_app_data: Option<&str>) -> (r: Location)
    ensures
        r@ == hermes_dir(os, text_of(dir), text_of(local_app_data)),
{
    if let Some(given) = dir {
        if is_set(dir) {
            return Location::new(Root::Given(given.to_owned()));
        }
    }
    if os == Os::Windows {
        if let Some(given) = local_app_data {
            if is_set(local_app_data) {
                return Location::new(Root::Given(given.to_owned())).join("hermes");
            }
        }
        return Location::new(Root::Home).join("AppData").join("Local").join("hermes");
    }
    Location::new(Root::Home).join(".hermes")
}

/// A directory with a leading `~` replaced by the home directory, where a
/// slash or nothing follows it.
pub open spec fn tilde_expanded(dir: Seq<char>) -> Place {
    match without_prefix(dir, "~"@) {
        Some(rest) if rest.len() == 0 || rest[0] == '/' || rest[0] == '\\' => at(Root::Home).join(
            without_leading_slashes(rest),
        ),
        _ => at(Root::Given(dir)),
    }
}

/// A leading `~` is the home directory, as Qwen Code reads it; a quoted
/// export leaves it for the program to expand.
pub fn expand_tilde(dir: &str) -> (r: Location)
    ensures
        r@ == tilde_expanded(dir@),
{
    if let Some(rest) = strip_prefix(dir, "~") {
        let chars = to_chars(rest);
        if chars.len() == 0 || chars[0] == '/' || chars[0] == '\\' {
            let rest = skip_slashes(rest);
            return Location::new(Root::Home).join(rest.as_str());
        }
    }
    Location::new(Root::Given(dir.to_owned()))
}

/// Qwen Code's configuration directory.
pub open spec fn qwen_dir(dir: Option<Seq<char>>) -> Place {
    match dir {
        Some(dir) if dir.len() > 0 => tilde_expanded(dir),
        _ => at(Root::Home).join(".qwen"@),
    }
}

/// Qwen Code's configuration directory: what `QWEN_HOME` holds, unless that
/// is empty, else `~/.qwen`.
pub fn qwen_home(dir: Option<&str>) -> (r: Location)
    ensures
        r@ == qwen_dir(text_of(dir)),
{
    if let Some(dir) = dir {
        if !dir.is_empty() {
            return expand_tilde(dir);
        }
    }
    Location::new(Root::Home).join(".qwen")
}

/// The directory llmman keeps for Grok Build, below its own: `$GROK_HOME`
/// unless that is empty, else `~/.grok`. The user's configuration is the
/// one in the directory above and is never touched.
pub fn grok_home(grok_home_set: bool) -> (r: Location)
    ensures
        r@ == (if grok_home_set {
            at(Root::GrokHome)
        } else {
            at(Root::Home).join(".grok"@)
        }).join("llmman"@),
{
    let home = if grok_home_set {
        Location::new(Root::GrokHome)
    } else {
        Location::new(Root::Home).join(".grok")
    };
    home.join("llmman")
}

/// The directory llmman keeps for AGY: `~/.gemini/llmman`.
pub fn agy_settings_dir() -> (r: Location)
    ensures
        r@ == at(Root::Home).join(".gemini"@).join("llmman"@),
{
    Location::new(Root::Home).join(".gemini").join("llmman")
}

/// The directory llmman keeps for dsh, beside `llmman.conf`. dsh never
/// looks there on its own.
pub fn dsh_config_dir() -> (r: Location)
    ensures
        r@ == at(Root::ConfigDir).join("launch"@).join("dsh"@),
{
    Location::new(Root::ConfigDir).join("launch").join("dsh")
}

// ---------------------------------------------------------------------------
// PATH
// ---------------------------------------------------------------------------

/// A component of `PATH`, and what is to be known of it.
#[derive(Debug)]
pub struct PathEntry<P> {
    pub dir: P,
    /// It is empty, which on POSIX means the working directory.
    pub is_empty: bool,
    /// It is the directory that is asked for.
    pub is_wanted: bool,
}

/// The components that are not empty.
pub open spec fn filled<P>(entries: Seq<PathEntry<P>>) -> Seq<P>
    decreases entries.len(),
{
    if entries.len() == 0 {
        Seq::empty()
    } else {
        let before = filled(entries.drop_last());
        if entries.last().is_empty {
            before
        } else {
            before.push(entries.last().dir)
        }
    }
}

/// Whether the directory that is asked for is a component.
pub open spec fn is_listed<P>(entries: Seq<PathEntry<P>>) -> bool {
    exists|i: int|
        0 <= i < entries.len() && !(#[trigger] entries[i]).is_empty && entries[i].is_wanted
}

/// The components of `PATH` with `dir` in front, or none when it is there
/// already or there is no `dir`.
pub open spec fn prepended<P>(dir: Option<P>, entries: Seq<PathEntry<P>>) -> Option<Seq<P>> {
    match dir {
        Some(dir) if !is_listed(entries) => Some(seq![dir] + filled(entries)),
        _ => None,
    }
}

/// The components of `PATH` with `dir` in front, or none when it is there
/// already or there is no `dir`. Empty components go: one is how an unset
/// `PATH` arrives.
pub fn path_with_dir_prepended<P>(dir: Option<P>, entries: Vec<PathEntry<P>>) -> (r: Option<
    Vec<P>,
>)
    ensures
        match prepended(dir, entries@) {
            Some(all) => r matches Some(list) && list@ == all,
            None => r is None,
        },
{
    match dir {
        None => None,
        Some(dir) => {
            let mut components: Vec<P> = Vec::new();
            components.push(dir);
            for entry in it: entries
                invariant
                    it.seq() == entries@,
                    components@ == seq![dir] + filled(entries@.take(it.index() as int)),
                    forall|k: int|
                        0 <= k < it.index() ==> (#[trigger] entries@[k]).is_empty
                            || !entries@[k].is_wanted,
            {
                let ghost i = it.index() as int;
                assert(entries@.take(i + 1).drop_last() == entries@.take(i));
                assert(entries@.take(i + 1).last() == entry);
                if !entry.is_empty {
                    if entry.is_wanted {
                        assert(entries@[i] == entry);
                        return None;
                    }
                    components.push(entry.dir);
                }
                assert(components@ =~= seq![dir] + filled(entries@.take(i + 1)));
            }
            assert(entries@.take(entries@.len() as int) == entries@);
            Some(components)
        },
    }
}

// ---------------------------------------------------------------------------
// Laws
// ---------------------------------------------------------------------------

/// Whether a root is a path of its own, or a directory that is known.
pub open spec fn is_known(root: Root<Seq<char>>, known: Known) -> bool {
    match root {
        Root::Home => known.home,
        Root::AppData => known.app_data,
        Root::LocalAppData => known.local_app_data,
        Root::NvmQwen => known.nvm_qwen,
        Root::Given(path) => path.len() > 0 && path[0] == '/',
        _ => false,
    }
}

/// No candidate stands on a directory that is not known, which would make
/// it relative to the working directory.
pub proof fn law_candidates_stand_on_known_directories(os: Os, known: Known, i: int)
    ensures
        0 <= i < opencode_places(os, known).len() ==> is_known(
            opencode_places(os, known)[i].root,
            known,
        ),
        0 <= i < qwen_places(os, known).len() ==> is_known(qwen_places(os, known)[i].root, known),
{
    reveal_strlit("/opt/homebrew/bin/qwen");
    reveal_strlit("/home/linuxbrew/.linuxbrew/bin/qwen");
    reveal_strlit("/usr/local/bin/qwen");
}

/// What a command is called: by its bare name, and on Windows by that with
/// `.exe`, `.cmd` or `.bat` behind it, tried in that order.
pub proof fn law_what_a_command_is_called(binary: Seq<char>, os: Os)
    ensures
        os != Os::Windows ==> executable_names(binary, os) == seq![binary],
        os == Os::Windows ==> executable_names(binary, os) == seq![
            binary + ".exe"@,
            binary + ".cmd"@,
            binary + ".bat"@,
        ],
{
    reveal_strlit("exe");
    reveal_strlit("cmd");
    reveal_strlit("bat");
    reveal_strlit(".exe");
    reveal_strlit(".cmd");
    reveal_strlit(".bat");
    assert(with_ext(binary, "exe"@) =~= binary + ".exe"@);
    assert(with_ext(binary, "cmd"@) =~= binary + ".cmd"@);
    assert(with_ext(binary, "bat"@) =~= binary + ".bat"@);
}

/// A place below a root.
pub open spec fn spot(root: Root<Seq<char>>, parts: Seq<Seq<char>>) -> Place {
    Place { root, parts }
}

/// Where opencode is looked for: in `~/.opencode/bin`, and on Windows then
/// in npm's directory, which is below `%APPDATA%` where that is set.
pub proof fn law_where_opencode_is_looked_for(os: Os, known: Known)
    ensures
        ({
            let found = opencode_places(os, known);
            let npm = if known.app_data {
                spot(Root::AppData, seq!["npm"@])
            } else {
                spot(Root::Home, seq!["AppData"@, "Roaming"@, "npm"@])
            };
            let file = if os == Os::Windows {
                "opencode.exe"@
            } else {
                "opencode"@
            };
            let own = spot(Root::Home, seq![".opencode"@, "bin"@, file]);
            let in_npm = seq![
                npm.join("opencode.exe"@),
                npm.join("opencode.cmd"@),
                npm.join("opencode.bat"@),
            ];
            &&& os != Os::Windows && known.home ==> found == seq![own]
            &&& os != Os::Windows && !known.home ==> found == Seq::<Place>::empty()
            &&& os == Os::Windows && known.home ==> found == seq![own] + in_npm
            &&& os == Os::Windows && !known.home && known.app_data ==> found == in_npm
            &&& os == Os::Windows && !known.home && !known.app_data ==> found
                == Seq::<Place>::empty()
        }),
{
    let npm = if known.app_data {
        spot(Root::AppData, seq!["npm"@])
    } else {
        spot(Root::Home, seq!["AppData"@, "Roaming"@, "npm"@])
    };
    let file = if os == Os::Windows {
        "opencode.exe"@
    } else {
        "opencode"@
    };
    assert(at(Root::Home).join(".opencode"@).join("bin"@).join(file).parts =~= seq![
        ".opencode"@,
        "bin"@,
        file,
    ]);
    assert(at(Root::AppData).join("npm"@).parts =~= seq!["npm"@]);
    assert(at(Root::Home).join("AppData"@).join("Roaming"@).join("npm"@).parts =~= seq![
        "AppData"@,
        "Roaming"@,
        "npm"@,
    ]);
    law_what_a_command_is_called("opencode"@, os);
    reveal_strlit("opencode");
    reveal_strlit(".exe");
    reveal_strlit(".cmd");
    reveal_strlit(".bat");
    reveal_strlit("opencode.exe");
    reveal_strlit("opencode.cmd");
    reveal_strlit("opencode.bat");
    assert("opencode"@ + ".exe"@ =~= "opencode.exe"@);
    assert("opencode"@ + ".cmd"@ =~= "opencode.cmd"@);
    assert("opencode"@ + ".bat"@ =~= "opencode.bat"@);
    if os == Os::Windows {
        assert(executables(npm, "opencode"@, os) =~= seq![
            npm.join("opencode.exe"@),
            npm.join("opencode.cmd"@),
            npm.join("opencode.bat"@),
        ]);
        assert(Seq::<Place>::empty() + executables(npm, "opencode"@, os) =~= executables(
            npm,
            "opencode"@,
            os,
        ));
    }
}

/// The files of qwen in a directory on Windows.
pub open spec fn qwen_files(root: Root<Seq<char>>, parts: Seq<Seq<char>>) -> Seq<Place> {
    seq![
        spot(root, parts).join("qwen.exe"@),
        spot(root, parts).join("qwen.cmd"@),
        spot(root, parts).join("qwen.bat"@),
    ]
}

/// The files of qwen in a directory on Windows.
proof fn lemma_qwen_files(dir: Place, parts: Seq<Seq<char>>)
    requires
        dir.parts == parts,
    ensures
        qwen_in(Some(dir)) == qwen_files(dir.root, parts),
{
    law_what_a_command_is_called("qwen"@, Os::Windows);
    reveal_strlit("qwen");
    reveal_strlit(".exe");
    reveal_strlit(".cmd");
    reveal_strlit(".bat");
    reveal_strlit("qwen.exe");
    reveal_strlit("qwen.cmd");
    reveal_strlit("qwen.bat");
    assert("qwen"@ + ".exe"@ =~= "qwen.exe"@);
    assert("qwen"@ + ".cmd"@ =~= "qwen.cmd"@);
    assert("qwen"@ + ".bat"@ =~= "qwen.bat"@);
    assert(qwen_in(Some(dir)) =~= qwen_files(dir.root, parts));
}

/// The files of qwen in a directory below that of roaming application
/// data, or of local application data, as far as that is known.
pub open spec fn qwen_below(
    set: bool,
    variable: Root<Seq<char>>,
    name: Seq<char>,
    known: Known,
    parts: Seq<Seq<char>>,
) -> Seq<Place> {
    if set {
        qwen_files(variable, parts)
    } else if known.home {
        qwen_files(Root::Home, seq!["AppData"@, name] + parts)
    } else {
        Seq::empty()
    }
}

/// Where Qwen Code is looked for on Windows: npm's global directory below
/// the roaming and the local application data, the standalone installer's,
/// and those of two other installers. Application data is where its
/// variable says, and else in the home directory.
pub proof fn law_where_qwen_is_looked_for_on_windows(known: Known)
    ensures
        ({
            let roaming = |parts: Seq<Seq<char>>|
                qwen_below(known.app_data, Root::AppData, "Roaming"@, known, parts);
            let local = |parts: Seq<Seq<char>>|
                qwen_below(known.local_app_data, Root::LocalAppData, "Local"@, known, parts);
            qwen_places(Os::Windows, known) == roaming(seq!["npm"@]) + local(seq!["npm"@])
                + local(seq!["qwen-code"@, "bin"@]) + local(seq!["Programs"@, "qwen"@]) + roaming(
                seq!["qwen"@, "bin"@],
            )
        }),
{
    let roaming = roaming_dir(known);
    let local = local_dir(known);
    lemma_qwen_below(known, Root::AppData, roaming, "Roaming"@, "npm"@, None);
    lemma_qwen_below(known, Root::LocalAppData, local, "Local"@, "npm"@, None);
    lemma_qwen_below(known, Root::LocalAppData, local, "Local"@, "qwen-code"@, Some("bin"@));
    lemma_qwen_below(known, Root::LocalAppData, local, "Local"@, "Programs"@, Some("qwen"@));
    lemma_qwen_below(known, Root::AppData, roaming, "Roaming"@, "qwen"@, Some("bin"@));
}

/// One of the directories qwen is looked for in.
proof fn lemma_qwen_below(
    known: Known,
    variable: Root<Seq<char>>,
    dir: Option<Place>,
    name: Seq<char>,
    first: Seq<char>,
    second: Option<Seq<char>>,
)
    requires
        variable == Root::<Seq<char>>::AppData && dir == roaming_dir(known) && name == "Roaming"@
            || variable == Root::<Seq<char>>::LocalAppData && dir == local_dir(known) && name
            == "Local"@,
    ensures
        ({
            let set = if variable == Root::<Seq<char>>::AppData {
                known.app_data
            } else {
                known.local_app_data
            };
            match second {
                Some(second) => qwen_in(below(below(dir, first), second)) == qwen_below(
                    set,
                    variable,
                    name,
                    known,
                    seq![first, second],
                ),
                None => qwen_in(below(dir, first)) == qwen_below(
                    set,
                    variable,
                    name,
                    known,
                    seq![first],
                ),
            }
        }),
{
    let set = if variable == Root::<Seq<char>>::AppData {
        known.app_data
    } else {
        known.local_app_data
    };
    if let Some(found) = dir {
        let own = if set {
            Seq::empty()
        } else {
            seq!["AppData"@, name]
        };
        assert(found.parts =~= own);
        match second {
            Some(second) => {
                let at_last = found.join(first).join(second);
                assert(own + seq![first, second] =~= at_last.parts);
                assert(set ==> at_last.parts =~= seq![first, second]);
                lemma_qwen_files(at_last, at_last.parts);
            },
            None => {
                let at_last = found.join(first);
                assert(own + seq![first] =~= at_last.parts);
                assert(set ==> at_last.parts =~= seq![first]);
                lemma_qwen_files(at_last, at_last.parts);
            },
        }
    }
}

/// Where Qwen Code is looked for elsewhere: what is below the home
/// directory first, then what Homebrew and the system hold.
pub proof fn law_where_qwen_is_looked_for(os: Os, known: Known)
    requires
        os != Os::Windows,
    ensures
        ({
            let own = if known.home {
                seq![
                    spot(Root::Home, seq![".local"@, "bin"@, "qwen"@]),
                    spot(Root::Home, seq![".npm-global"@, "bin"@, "qwen"@]),
                    spot(Root::Home, seq![".cargo"@, "bin"@, "qwen"@]),
                ]
            } else {
                Seq::empty()
            };
            let support = if known.home && os == Os::MacOs {
                seq![
                    spot(
                        Root::Home,
                        seq!["Library"@, "Application Support"@, "qwen"@, "bin"@, "qwen"@],
                    ),
                ]
            } else {
                Seq::empty()
            };
            let nvm = if known.home && known.nvm_qwen {
                seq![spot(Root::NvmQwen, Seq::empty())]
            } else {
                Seq::empty()
            };
            let brew = if os == Os::MacOs {
                "/opt/homebrew/bin/qwen"@
            } else {
                "/home/linuxbrew/.linuxbrew/bin/qwen"@
            };
            qwen_places(os, known) == own + support + nvm + seq![
                spot(Root::Given(brew), Seq::empty()),
                spot(Root::Given("/usr/local/bin/qwen"@), Seq::empty()),
            ]
        }),
{
    let home = at(Root::Home);
    assert(home.join(".local"@).join("bin"@).join("qwen"@).parts =~= seq![
        ".local"@,
        "bin"@,
        "qwen"@,
    ]);
    assert(home.join(".npm-global"@).join("bin"@).join("qwen"@).parts =~= seq![
        ".npm-global"@,
        "bin"@,
        "qwen"@,
    ]);
    assert(home.join(".cargo"@).join("bin"@).join("qwen"@).parts =~= seq![
        ".cargo"@,
        "bin"@,
        "qwen"@,
    ]);
    assert(home.join("Library"@).join("Application Support"@).join("qwen"@).join("bin"@).join(
        "qwen"@,
    ).parts =~= seq!["Library"@, "Application Support"@, "qwen"@, "bin"@, "qwen"@]);
}

/// Where goose and Grok Build are looked for, in the home directory.
pub proof fn law_where_goose_and_grok_are_looked_for(os: Os)
    ensures
        os == Os::Windows ==> goose_places(os) == seq![
            spot(Root::Home, seq!["goose"@, "goose.exe"@]),
            spot(Root::Home, seq![".local"@, "bin"@, "goose.exe"@]),
        ],
        os != Os::Windows ==> goose_places(os) == seq![
            spot(Root::Home, seq![".local"@, "bin"@, "goose"@]),
        ],
        grok_place(os) == spot(
            Root::Home,
            seq![
                ".grok"@,
                "bin"@,
                if os == Os::Windows {
                    "grok.exe"@
                } else {
                    "grok"@
                },
            ],
        ),
{
    let home = at(Root::Home);
    assert(home.join("goose"@).join("goose.exe"@).parts =~= seq!["goose"@, "goose.exe"@]);
    assert(home.join(".local"@).join("bin"@).join("goose.exe"@).parts =~= seq![
        ".local"@,
        "bin"@,
        "goose.exe"@,
    ]);
    assert(home.join(".local"@).join("bin"@).join("goose"@).parts =~= seq![
        ".local"@,
        "bin"@,
        "goose"@,
    ]);
    let name = if os == Os::Windows {
        "grok.exe"@
    } else {
        "grok"@
    };
    assert(home.join(".grok"@).join("bin"@).join(name).parts =~= seq![".grok"@, "bin"@, name]);
}

/// `HOME` goes before `USERPROFILE`, and the platform is asked only where
/// neither is set.
pub proof fn law_where_node_finds_its_home(home_set: bool, user_profile_set: bool)
    ensures
        home_source(home_set, user_profile_set) == HomeSource::Home <==> home_set,
        home_source(home_set, user_profile_set) == HomeSource::UserProfile <==> !home_set
            && user_profile_set,
        home_source(home_set, user_profile_set) == HomeSource::Platform <==> !home_set
            && !user_profile_set,
{
}

/// Slashes of either kind.
pub open spec fn all_slashes(s: Seq<char>) -> bool {
    forall|i: int| 0 <= i < s.len() ==> (#[trigger] s[i] == '/' || s[i] == '\\')
}

/// The slashes in front of a path go, all of them, and nothing else.
pub proof fn law_leading_slashes_go(slashes: Seq<char>, rest: Seq<char>)
    requires
        all_slashes(slashes),
        rest.len() > 0 ==> rest[0] != '/' && rest[0] != '\\',
    ensures
        without_leading_slashes(slashes + rest) == rest,
    decreases slashes.len(),
{
    let all = slashes + rest;
    if slashes.len() == 0 {
        assert(all =~= rest);
    } else {
        let tail = slashes.drop_first();
        assert(all[0] == slashes[0]);
        assert(all.drop_first() =~= tail + rest);
        assert forall|i: int| 0 <= i < tail.len() implies (#[trigger] tail[i] == '/' || tail[i]
            == '\\') by {
            assert(tail[i] == slashes[i + 1]);
        }
        law_leading_slashes_go(tail, rest);
    }
}

/// What a `~` in front of a directory means: pi reads it as the home
/// directory node finds, whatever follows it; Qwen Code as the home
/// directory, where a slash or nothing follows it. Without one a directory
/// is taken as it is given.
pub proof fn law_what_a_tilde_means(slashes: Seq<char>, rest: Seq<char>, path: Seq<char>)
    requires
        all_slashes(slashes),
        rest.len() > 0 ==> rest[0] != '/' && rest[0] != '\\',
        path.len() == 0 || path[0] != '~',
    ensures
        home_expanded(seq!['~'] + slashes + rest) == spot(Root::NodeHome, seq![rest]),
        home_expanded(path) == spot(Root::Given(path), Seq::empty()),
        slashes.len() > 0 || rest.len() == 0 ==> tilde_expanded(seq!['~'] + slashes + rest)
            == spot(Root::Home, seq![rest]),
        rest.len() > 0 ==> tilde_expanded(seq!['~'] + rest) == spot(
            Root::Given(seq!['~'] + rest),
            Seq::empty(),
        ),
        tilde_expanded(path) == spot(Root::Given(path), Seq::empty()),
{
    reveal_strlit("~");
    let tilde = seq!['~'];
    assert("~"@ =~= tilde);
    let below = slashes + rest;
    law_a_prefix_is_taken_off(tilde, below, path);
    law_a_prefix_is_taken_off(tilde, rest, path);
    assert(tilde + slashes + rest =~= tilde + below);
    law_leading_slashes_go(slashes, rest);
    assert(at(Root::<Seq<char>>::NodeHome).join(rest).parts =~= seq![rest]);
    assert(at(Root::<Seq<char>>::Home).join(rest).parts =~= seq![rest]);
    if path.len() > 0 {
        assert(path[0] != tilde[0]);
    }
    if slashes.len() > 0 {
        assert(below[0] == slashes[0]);
    } else {
        assert(below =~= rest);
    }
}

/// Where pi, hermes and Qwen Code keep their configuration: where their
/// variable says, and else in the home directory. pi's is trimmed, hermes's
/// only has to hold more than white space, and Qwen Code's is taken unless
/// it is empty.
pub proof fn law_where_agents_keep_their_configuration(
    os: Os,
    dir: Seq<char>,
    local_app_data: Option<Seq<char>>,
)
    ensures
        pi_dir(None) == spot(Root::NodeHome, seq![".pi"@, "agent"@]),
        trimmed(dir).len() == 0 ==> pi_dir(Some(dir)) == pi_dir(None),
        trimmed(dir).len() > 0 ==> pi_dir(Some(dir)) == home_expanded(trimmed(dir)),
        os != Os::Windows ==> hermes_dir(os, None, local_app_data) == spot(
            Root::Home,
            seq![".hermes"@],
        ),
        trimmed(dir).len() == 0 ==> hermes_dir(os, Some(dir), local_app_data) == hermes_dir(
            os,
            None,
            local_app_data,
        ),
        trimmed(dir).len() > 0 ==> hermes_dir(os, Some(dir), local_app_data) == spot(
            Root::Given(dir),
            Seq::empty(),
        ),
        trimmed(dir).len() > 0 ==> hermes_dir(Os::Windows, None, Some(dir)) == spot(
            Root::Given(dir),
            seq!["hermes"@],
        ),
        trimmed(dir).len() == 0 ==> hermes_dir(Os::Windows, None, Some(dir)) == hermes_dir(
            Os::Windows,
            None,
            None,
        ),
        hermes_dir(Os::Windows, None, None) == spot(
            Root::Home,
            seq!["AppData"@, "Local"@, "hermes"@],
        ),
        qwen_dir(None) == spot(Root::Home, seq![".qwen"@]),
        dir.len() == 0 ==> qwen_dir(Some(dir)) == qwen_dir(None),
        dir.len() > 0 ==> qwen_dir(Some(dir)) == tilde_expanded(dir),
{
    assert(at(Root::NodeHome).join(".pi"@).join("agent"@).parts =~= seq![".pi"@, "agent"@]);
    assert(at(Root::Home).join(".hermes"@).parts =~= seq![".hermes"@]);
    assert(at(Root::Given(dir)).join("hermes"@).parts =~= seq!["hermes"@]);
    assert(at(Root::Home).join("AppData"@).join("Local"@).join("hermes"@).parts =~= seq![
        "AppData"@,
        "Local"@,
        "hermes"@,
    ]);
    assert(at(Root::Home).join(".qwen"@).parts =~= seq![".qwen"@]);
}

/// `PATH` with a directory in front of it: first the directory, then what
/// was there, in its order, but for the empty components. Nothing changes
/// where the directory is a component already.
pub proof fn law_a_directory_comes_first_on_the_path<P>(
    dir: P,
    entries: Seq<PathEntry<P>>,
    entry: PathEntry<P>,
)
    ensures
        prepended(None::<P>, entries) is None,
        prepended(Some(dir), Seq::<PathEntry<P>>::empty()) == Some(seq![dir]),
        !entry.is_empty && entry.is_wanted ==> prepended(Some(dir), entries.push(entry)) is None,
        prepended(Some(dir), entries) is None ==> prepended(Some(dir), entries.push(entry)) is None,
        prepended(Some(dir), entries) is Some && entry.is_empty ==> prepended(
            Some(dir),
            entries.push(entry),
        ) == prepended(Some(dir), entries),
        prepended(Some(dir), entries) is Some && !entry.is_empty && !entry.is_wanted ==> prepended(
            Some(dir),
            entries.push(entry),
        ) == Some((prepended(Some(dir), entries)->0).push(entry.dir)),
{
    let more = entries.push(entry);
    assert(more.drop_last() =~= entries);
    assert(more[entries.len() as int] == entry);
    if is_listed(entries) {
        let i = choose|i: int|
            0 <= i < entries.len() && !(#[trigger] entries[i]).is_empty && entries[i].is_wanted;
        assert(more[i] == entries[i]);
    }
    if is_listed(more) && (entry.is_empty || !entry.is_wanted) {
        let i = choose|i: int|
            0 <= i < more.len() && !(#[trigger] more[i]).is_empty && more[i].is_wanted;
        assert(more[i] == entries[i]);
    }
    assert(seq![dir] + filled(Seq::<PathEntry<P>>::empty()) =~= seq![dir]);
    assert(seq![dir] + filled(entries).push(entry.dir) =~= (seq![dir] + filled(entries)).push(
        entry.dir,
    ));
}

/// A location says where it is: what stands for it has its own root and
/// its own parts, and an optional one is there where it is.
pub proof fn law_a_location_says_where_it_is(location: Location, path: String)
    ensures
        location@.root is Home <==> location.root is Home,
        location@.root is NodeHome <==> location.root is NodeHome,
        location@.root is AppData <==> location.root is AppData,
        location@.root is LocalAppData <==> location.root is LocalAppData,
        location@.root is GrokHome <==> location.root is GrokHome,
        location@.root is ConfigDir <==> location.root is ConfigDir,
        location@.root is NvmQwen <==> location.root is NvmQwen,
        location.root == Root::Given(path) ==> location@.root == Root::Given(path@),
        location@.parts.len() == location.parts@.len(),
        forall|i: int|
            0 <= i < location.parts@.len() ==> #[trigger] location@.parts[i]
                == location.parts@[i]@,
        place_of(Some(location)) == Some(location@),
        place_of(None) is None,
{
}

} // verus!

use llmman_launch::paths::{
    agy_settings_dir, dsh_config_dir, expand_home, expand_tilde, goose_fallback, grok_fallback,
    grok_home, hermes_home, node_home, opencode_fallback_paths, path_candidates,
    path_with_dir_prepended, pi_agent_dir, qwen_fallback_paths, qwen_home, HomeSource, Known,
    Location, Os, PathEntry, Root,
};
use std::path::{Path, PathBuf};

/// The path of a location, with made-up directories for the roots.
fn path(location: &Location) -> PathBuf {
    let root = match &location.root {
        Root::Home => PathBuf::from("/h"),
        Root::NodeHome => PathBuf::from("/n"),
        Root::AppData => PathBuf::from("/roaming"),
        Root::LocalAppData => PathBuf::from("/local"),
        Root::GrokHome => PathBuf::from("/grok"),
        Root::ConfigDir => PathBuf::from("/conf"),
        Root::NvmQwen => PathBuf::from("/nvm/qwen"),
        Root::Given(path) => PathBuf::from(path),
    };
    location.parts.iter().fold(root, |p, part| p.join(part))
}

fn paths(list: &[Location]) -> Vec<PathBuf> {
    list.iter().map(path).collect()
}

fn known(home: bool, app_data: bool, local_app_data: bool, nvm_qwen: bool) -> Known {
    Known {
        home,
        app_data,
        local_app_data,
        nvm_qwen,
    }
}

#[test]
fn expand_tilde_reads_the_forms_qwen_code_reads() {
    assert_eq!(path(&expand_tilde("~/alt")), PathBuf::from("/h/alt"));
    assert_eq!(path(&expand_tilde("~")), PathBuf::from("/h"));
    assert_eq!(path(&expand_tilde("/abs")), PathBuf::from("/abs"));
    assert_eq!(path(&expand_tilde("~user/x")), PathBuf::from("~user/x"));
    assert_eq!(path(&expand_tilde("~\\/alt")), PathBuf::from("/h/alt"));
}

#[test]
fn expand_home_resolves_a_leading_tilde() {
    let home = Path::new("/n");
    assert_eq!(path(&expand_home("~/.config/pi")), home.join(".config/pi"));
    assert_eq!(path(&expand_home("/tmp/pi")), PathBuf::from("/tmp/pi"));
}

#[test]
fn goose_fallback_finds_the_installers_target() {
    assert_eq!(
        paths(&goose_fallback(Os::Other)),
        [PathBuf::from("/h/.local/bin/goose")]
    );
    assert_eq!(
        paths(&goose_fallback(Os::Windows)),
        [
            PathBuf::from("/h/goose/goose.exe"),
            PathBuf::from("/h/.local/bin/goose.exe")
        ]
    );
}

#[test]
fn grok_fallback_finds_the_official_installers_target() {
    assert_eq!(
        path(&grok_fallback(Os::MacOs)),
        PathBuf::from("/h/.grok/bin/grok")
    );
    assert_eq!(
        path(&grok_fallback(Os::Windows)),
        PathBuf::from("/h/.grok/bin/grok.exe")
    );
}

#[test]
fn grok_config_is_written_only_inside_the_isolated_child_home() {
    assert_eq!(path(&grok_home(true)), PathBuf::from("/grok/llmman"));
    assert_eq!(path(&grok_home(false)), PathBuf::from("/h/.grok/llmman"));
}

#[test]
fn qwen_fallback_paths_name_the_documented_targets() {
    let home = Path::new("/h");
    for os in [Os::Other, Os::MacOs] {
        let paths = paths(&qwen_fallback_paths(os, known(true, false, false, false)));
        assert!(paths.contains(&home.join(".local/bin/qwen")));
        assert!(paths.contains(&home.join(".npm-global/bin/qwen")));
        assert!(paths.contains(&home.join(".cargo/bin/qwen")));
        assert!(paths.contains(&PathBuf::from("/usr/local/bin/qwen")));
    }
}

#[test]
fn qwen_fallback_paths_follow_the_system() {
    assert_eq!(
        paths(&qwen_fallback_paths(
            Os::MacOs,
            known(true, false, false, true)
        )),
        [
            "/h/.local/bin/qwen",
            "/h/.npm-global/bin/qwen",
            "/h/.cargo/bin/qwen",
            "/h/Library/Application Support/qwen/bin/qwen",
            "/nvm/qwen",
            "/opt/homebrew/bin/qwen",
            "/usr/local/bin/qwen",
        ]
        .map(PathBuf::from)
    );
    assert_eq!(
        paths(&qwen_fallback_paths(
            Os::Other,
            known(false, true, true, true)
        )),
        ["/home/linuxbrew/.linuxbrew/bin/qwen", "/usr/local/bin/qwen"].map(PathBuf::from)
    );
    assert_eq!(
        paths(&qwen_fallback_paths(
            Os::Windows,
            known(false, false, true, false)
        )),
        [
            "/local/npm/qwen.exe",
            "/local/npm/qwen.cmd",
            "/local/npm/qwen.bat",
            "/local/qwen-code/bin/qwen.exe",
            "/local/qwen-code/bin/qwen.cmd",
            "/local/qwen-code/bin/qwen.bat",
            "/local/Programs/qwen/qwen.exe",
            "/local/Programs/qwen/qwen.cmd",
            "/local/Programs/qwen/qwen.bat",
        ]
        .map(PathBuf::from)
    );
    let all = paths(&qwen_fallback_paths(
        Os::Windows,
        known(true, true, false, false),
    ));
    assert_eq!(all.len(), 15);
    assert_eq!(all[0], PathBuf::from("/roaming/npm/qwen.exe"));
    assert_eq!(all[3], PathBuf::from("/h/AppData/Local/npm/qwen.exe"));
    assert_eq!(all[14], PathBuf::from("/roaming/qwen/bin/qwen.bat"));
}

#[test]
fn opencode_fallback_paths_follow_the_system() {
    assert_eq!(
        paths(&opencode_fallback_paths(
            Os::Other,
            known(true, true, true, true)
        )),
        [PathBuf::from("/h/.opencode/bin/opencode")]
    );
    assert!(opencode_fallback_paths(Os::Other, known(false, true, true, true)).is_empty());
    assert_eq!(
        paths(&opencode_fallback_paths(
            Os::Windows,
            known(true, false, false, false)
        )),
        [
            "/h/.opencode/bin/opencode.exe",
            "/h/AppData/Roaming/npm/opencode.exe",
            "/h/AppData/Roaming/npm/opencode.cmd",
            "/h/AppData/Roaming/npm/opencode.bat",
        ]
        .map(PathBuf::from)
    );
    assert_eq!(
        paths(&opencode_fallback_paths(
            Os::Windows,
            known(false, true, false, false)
        ))[0],
        PathBuf::from("/roaming/npm/opencode.exe")
    );
    assert!(opencode_fallback_paths(Os::Windows, known(false, false, true, false)).is_empty());
}

#[test]
fn a_command_has_an_extension_on_windows() {
    assert_eq!(path_candidates("pi", Os::Other), ["pi"]);
    assert_eq!(
        path_candidates("pi", Os::Windows),
        ["pi.exe", "pi.cmd", "pi.bat"]
    );
}

#[test]
fn configuration_directories_follow_their_variables() {
    assert_eq!(path(&pi_agent_dir(None)), PathBuf::from("/n/.pi/agent"));
    assert_eq!(path(&pi_agent_dir(Some(" "))), PathBuf::from("/n/.pi/agent"));
    assert_eq!(path(&pi_agent_dir(Some(" ~/x "))), PathBuf::from("/n/x"));
    assert_eq!(path(&pi_agent_dir(Some("/x"))), PathBuf::from("/x"));

    assert_eq!(
        path(&hermes_home(Os::Other, None, Some("/l"))),
        PathBuf::from("/h/.hermes")
    );
    assert_eq!(
        path(&hermes_home(Os::Windows, Some("  "), Some("/l"))),
        PathBuf::from("/l/hermes")
    );
    assert_eq!(
        path(&hermes_home(Os::Windows, None, Some(""))),
        PathBuf::from("/h/AppData/Local/hermes")
    );
    assert_eq!(
        path(&hermes_home(Os::Windows, Some("/mine"), Some("/l"))),
        PathBuf::from("/mine")
    );

    assert_eq!(path(&qwen_home(None)), PathBuf::from("/h/.qwen"));
    assert_eq!(path(&qwen_home(Some(""))), PathBuf::from("/h/.qwen"));
    assert_eq!(path(&qwen_home(Some("~/q"))), PathBuf::from("/h/q"));
    assert_eq!(path(&qwen_home(Some("/q"))), PathBuf::from("/q"));

    assert_eq!(path(&agy_settings_dir()), PathBuf::from("/h/.gemini/llmman"));
    assert_eq!(path(&dsh_config_dir()), PathBuf::from("/conf/launch/dsh"));
    assert_eq!(node_home(true, true), HomeSource::Home);
    assert_eq!(node_home(false, true), HomeSource::UserProfile);
    assert_eq!(node_home(false, false), HomeSource::Platform);
}

#[test]
fn path_with_dir_prepended_only_when_it_is_missing() {
    let prepended = |dir: Option<&str>, path_var: &[&str]| {
        let entries = path_var
            .iter()
            .map(|d| PathEntry {
                dir: PathBuf::from(d),
                is_empty: d.is_empty(),
                is_wanted: dir.is_some_and(|dir| Path::new(d) == Path::new(dir)),
            })
            .collect();
        path_with_dir_prepended(dir.map(PathBuf::from), entries)
    };
    let path_var = ["/usr/bin", "/bin"];
    let all = ["/opt/nvm/bin", "/usr/bin", "/bin"].map(PathBuf::from).to_vec();
    assert_eq!(prepended(Some("/usr/bin"), &path_var), None);
    assert_eq!(prepended(Some("/opt/nvm/bin"), &path_var), Some(all.clone()));
    assert_eq!(prepended(None, &path_var), None);
    assert_eq!(
        prepended(Some("/opt/nvm/bin"), &[""]),
        Some(vec![PathBuf::from("/opt/nvm/bin")])
    );
    let gappy = ["/usr/bin", "", "/bin"];
    assert_eq!(prepended(Some("/opt/nvm/bin"), &gappy), Some(all));
}

#[test]
fn candidates_stand_on_directories_that_are_known() {
    for os in [Os::Windows, Os::MacOs, Os::Other] {
        for bits in 0..16 {
            let known = known(bits & 1 != 0, bits & 2 != 0, bits & 4 != 0, bits & 8 != 0);
            let mut all = qwen_fallback_paths(os, known);
            all.extend(opencode_fallback_paths(os, known));
            for location in all {
                let stands = match &location.root {
                    Root::Home => known.home,
                    Root::AppData => known.app_data,
                    Root::LocalAppData => known.local_app_data,
                    Root::NvmQwen => known.nvm_qwen,
                    Root::Given(path) => path.starts_with('/'),
                    _ => false,
                };
                assert!(stands, "{location:?}");
            }
        }
    }
}

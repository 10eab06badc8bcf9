use llmman_launch::registry::{
    binary_for, fallback_for, how_run, integration_listing, integrations, launch, not_installed, Agent,
    Fallback, Installed, Named,
};

fn named() -> Named {
    Named {
        name: "first".to_string(),
        description: "First Agent".to_string(),
    }
}

#[test]
fn agy_is_listed_as_an_integration() {
    let list = integrations(&named());
    let agy = list.iter().find(|i| i.name == "agy").unwrap();
    assert_eq!(agy.binary, "agy");
}

#[test]
fn every_listed_integration_can_be_launched() {
    for i in integrations(&named()) {
        let agent = launch(&i.name, &named()).unwrap();
        assert_eq!(binary_for(agent, &named()), i.binary);
        assert_eq!(launch(&i.name.to_uppercase(), &named()), Ok(agent));
    }
    assert_eq!(launch("Copilot-CLI", &named()), Ok(Agent::Copilot));
}

#[test]
fn a_name_that_is_given_hides_no_agent() {
    let taken = Named {
        name: "codex".to_string(),
        description: "Other".to_string(),
    };
    assert_eq!(launch("codex", &taken), Ok(Agent::Codex));
    assert_eq!(launch("First", &named()), Ok(Agent::Claude));
    assert!(launch("first", &taken).is_err());
}

#[test]
fn an_unknown_integration_is_quoted() {
    assert_eq!(
        launch("No\"pe", &named()),
        Err("unknown integration \"no\\\"pe\"\nRun 'llmman launch' without arguments to list \
             supported integrations."
            .to_string())
    );
}

#[test]
fn an_agent_is_looked_for_where_its_installer_puts_it() {
    assert_eq!(fallback_for(Agent::Opencode), Fallback::Opencode);
    assert_eq!(fallback_for(Agent::Qwen), Fallback::Qwen);
    assert_eq!(fallback_for(Agent::Dsh), Fallback::Npx);
    assert_eq!(fallback_for(Agent::Goose), Fallback::Goose);
    assert_eq!(fallback_for(Agent::Grok), Fallback::Grok);
    assert_eq!(fallback_for(Agent::Claude), Fallback::Nowhere);
}

#[test]
fn an_agent_is_run_by_npx_or_by_itself() {
    assert_eq!(how_run(Some("npx")), Installed::ViaNpx);
    assert_eq!(how_run(Some("dsh")), Installed::Yes);
    assert_eq!(how_run(None), Installed::No);
}

#[test]
fn a_missing_agent_is_named() {
    assert_eq!(not_installed(Agent::Claude, &named()), "first is not installed");
    assert_eq!(
        not_installed(Agent::Copilot, &named()),
        "gh (GitHub CLI) is not installed"
    );
    assert_eq!(
        not_installed(Agent::Dsh, &named()),
        "dsh is not installed, and there is no npx on PATH to run it with"
    );
}

#[test]
fn the_listing_aligns_the_names() {
    let list = integrations(&named());
    let installed: Vec<Installed> = list
        .iter()
        .map(|i| match i.name.as_str() {
            "first" => Installed::Yes,
            "dsh" => Installed::ViaNpx,
            _ => Installed::No,
        })
        .collect();
    let text = integration_listing(&installed, &named());
    let lines: Vec<&str> = text.lines().collect();
    assert_eq!(lines.len(), list.len() + 5);
    assert_eq!(lines[0], "Available integrations:");
    assert_eq!(lines[1], "");
    assert_eq!(lines[2], "  first        First Agent");
    assert_eq!(lines[3], "  opencode     OpenCode (not installed)");
    assert_eq!(lines[15], "  dsh          DeepSeek Harness (via npx)");
    assert_eq!(lines[18], "");
    assert_eq!(
        lines[19],
        "Usage: llmman launch <integration> [--model <model>] [--provider <provider>]"
    );
    assert_eq!(
        lines[20],
        "       llmman providers   (the providers --provider accepts)"
    );
    assert!(text.ends_with("accepts)\n"));
}

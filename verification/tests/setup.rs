use dispatch::presenter::setup::{
    accounts_menu, accounts_step, checks_step, consents, hooks_done, hooks_question,
    initial_effort, integrations_text, login_arguments, login_prompt, login_providers,
    model_options, model_step, offered_providers, profile_choice, remaining, report, typed_row,
    usual_efforts, AccountsStep, ChecksStep, Choice, ModelOption, ModelStep,
};
use dispatch::router::{ResourceConfig, ResourceTier, SubscriptionEvidence};
use dispatch::setup::{
    agent_of, atomic_config, check_choices, discover_claude, discover_codex, executable,
    known_providers, may_replace, project_config_bytes, read_config, save_checks, set_check,
    status, with_check, AccountFacts, Agent,
    ConfigFile, Discovery, Proposal, Provider, DAY,
};

fn discovery() -> Discovery {
    Discovery {
        executable: "/fixture/codex".into(),
        version: "fixture only".into(),
        funding: "chatgpt-plus".into(),
        account: "a".repeat(64),
        claude: None,
    }
}

fn empty() -> ResourceConfig {
    ResourceConfig { version: 1, allocation_enabled: false, profiles: vec![] }
}

fn codex() -> Provider {
    Provider { agent: Agent::Codex, word: "codex".into(), name: "Codex".into(), installed: true }
}

fn agent() -> Provider {
    Provider { agent: Agent::Claude, word: "agent".into(), name: "Agent".into(), installed: false }
}

fn proposal() -> Proposal {
    Proposal::prepare(
        empty(),
        true,
        None,
        discovery(),
        &codex(),
        None,
        "fixed-model".into(),
        "medium".into(),
        ResourceTier::Standard,
        0,
    )
    .unwrap()
}

fn revalidate(
    config: ResourceConfig,
    discovery: Discovery,
    existing: Option<usize>,
) -> Result<Proposal, String> {
    Proposal::prepare(
        config,
        true,
        None,
        discovery,
        &codex(),
        existing,
        "other-model".into(),
        "low".into(),
        ResourceTier::Light,
        0,
    )
}

#[test]
fn a_proposal_authorizes_nothing_before_it_is_confirmed() {
    let p = proposal();
    assert!(!p.config.allocation_enabled);
    assert_eq!(
        p.config.profiles[0].eligibility(),
        Err("profile is not confirmed as included".to_string())
    );
    assert_eq!(p.config.profiles[0].pool, format!("codex-included-{}", "a".repeat(12)));
    assert_eq!(p.config.profiles[0].provider, "openai");
    let config = p.confirm(None).unwrap();
    assert!(config.allocation_enabled && config.profiles[0].eligibility().is_ok());
    assert_eq!(
        proposal().confirm(Some("evidence expired".into())),
        Err("evidence expired".to_string())
    );
}

#[test]
fn concurrent_and_manually_changed_configuration_cannot_be_overwritten() {
    let first = proposal();
    let stale = proposal();
    let written = b"version: 1".to_vec();
    assert_eq!(may_replace(true, ConfigFile::Missing, &first.original), Ok(()));
    assert_eq!(
        may_replace(true, ConfigFile::Regular(written.clone()), &stale.original),
        Err("configuration changed while awaiting confirmation; reopen setup to compare again"
            .to_string())
    );
    assert_eq!(may_replace(true, ConfigFile::Regular(written.clone()), &Some(written.clone())), Ok(()));
    assert!(may_replace(true, ConfigFile::Missing, &Some(written.clone())).is_err());
    assert_eq!(
        may_replace(false, ConfigFile::Missing, &None),
        Err("another setup write is in progress; re-open Resources".to_string())
    );
}

#[test]
fn revalidation_does_not_change_model_tier_pool_or_disabled_policy() {
    let config = proposal().confirm(None).unwrap();
    let update = revalidate(config, discovery(), Some(0)).unwrap();
    assert_eq!(update.config.profiles[0].model, "fixed-model");
    assert_eq!(update.config.profiles[0].tier, ResourceTier::Standard);
    assert_eq!(update.config.profiles[0].authorization_revision, 2);
    let mut config = update.confirm(None).unwrap();
    config.profiles[0].enabled = false;
    assert_eq!(
        revalidate(config, discovery(), Some(0)),
        Err("disabled resources stay disabled; enable them explicitly in advanced configuration"
            .to_string())
    );
}

#[test]
fn proposals_are_refused_with_their_reason() {
    let config = proposal().confirm(None).unwrap();
    let refusal = |config: ResourceConfig, d: Discovery, existing| {
        revalidate(config, d, existing).unwrap_err()
    };
    assert_eq!(refusal(config.clone(), discovery(), Some(3)), "resource selection changed");
    let mut remote = config.clone();
    remote.profiles[0].runtime = "remote".into();
    assert_eq!(
        refusal(remote, discovery(), Some(0)),
        "guided revalidation supports the selected provider in local standard mode only"
    );
    let mut plan = discovery();
    plan.funding = "chatgpt-pro".into();
    assert_eq!(
        refusal(config.clone(), plan, Some(0)),
        "subscription plan changed: add a new resource explicitly"
    );
    let mut moved = config.clone();
    moved.profiles[0].claude_subscription = Some(evidence("other"));
    assert_eq!(
        refusal(moved, discovery(), Some(0)),
        "account changed: add a new resource explicitly; existing account scope was preserved"
    );
    let mut mapped = config.clone();
    mapped.profiles[0].provider_buckets = vec!["codex".into()];
    assert_eq!(
        refusal(mapped, discovery(), None),
        "existing account uses explicit bucket mappings; revalidate its existing profile instead"
    );
    let mut last = config.clone();
    last.profiles[0].authorization_revision = u64::MAX;
    assert_eq!(refusal(last, discovery(), Some(0)), "authorization revision exhausted");
    assert_eq!(
        Proposal::prepare(
            config.clone(),
            false,
            None,
            discovery(),
            &codex(),
            None,
            "m".into(),
            "low".into(),
            ResourceTier::Light,
            0
        ),
        Err("shared admission is disabled; change that advanced policy explicitly before setup"
            .to_string())
    );
    let shared = revalidate(config, discovery(), None).unwrap();
    assert_eq!(shared.index, 1);
    assert_eq!(shared.config.profiles[1].pool, shared.config.profiles[0].pool);
    assert_eq!(shared.config.profiles[1].authorization_revision, 2);
}

#[test]
fn a_retained_revision_is_never_used_again() {
    let p = Proposal::prepare(
        empty(),
        true,
        None,
        discovery(),
        &codex(),
        None,
        "m".into(),
        "low".into(),
        ResourceTier::Light,
        41,
    )
    .unwrap();
    assert_eq!(p.config.profiles[0].authorization_revision, 42);
}

fn evidence(account: &str) -> SubscriptionEvidence {
    SubscriptionEvidence {
        contract_version: 1,
        cli_version: "1".into(),
        executable_sha256: "x".into(),
        account_sha256: account.into(),
        checked_at: 0,
        valid_until: 0,
        print_mode_included: false,
        usage_credits_disabled: false,
        unmanaged_account: false,
    }
}

#[test]
fn a_confirmation_asserts_what_discovery_cannot() {
    let d = discover_claude(
        "agent",
        "/bin/agent".into(),
        &b"abc".to_vec(),
        Some("2.0".into()),
        "b".repeat(64),
        1_000,
    )
    .unwrap();
    let e = d.claude.clone().unwrap();
    assert_eq!(d.funding, "agent-subscription");
    assert_eq!(e.valid_until, 1_000 + DAY);
    assert_eq!(
        e.executable_sha256,
        "ba7816bf8f01cfea414140de5dae2223b00361a396177a9cb410ff61f20015ad"
    );
    assert!(!e.print_mode_included && !e.usage_credits_disabled && !e.unmanaged_account);
    let p = Proposal::prepare(
        empty(),
        true,
        None,
        d,
        &agent(),
        None,
        "model".into(),
        "high".into(),
        ResourceTier::Strong,
        0,
    )
    .unwrap();
    assert_eq!(
        p.summary(),
        "2.0\nAccount fingerprint: bbbbbbbbbbbb\nFunding: agent-subscription · quota may be unknown\nExecutable: /bin/agent\n\nagent / model / high · Strong\nLocal runtime · standard service · included only\nFunding assertion expires in 24 hours.\n\nConfirm: this exact model and effort are included in my subscription.\nI verified that paid overage / usage credits are disabled.\nI verified controlled print mode is included and this account is unmanaged.\n\nType confirm to authorize and save, or cancel to keep configuration."
    );
    let config = p.confirm(None).unwrap();
    let e = config.profiles[0].claude_subscription.as_ref().unwrap();
    assert!(e.print_mode_included && e.usage_credits_disabled && e.unmanaged_account);
    assert_eq!(
        discover_claude("agent", "/bin/agent".into(), &vec![], None, "b".into(), 0),
        Err("provider version unavailable; install a supported CLI".to_string())
    );
}

#[test]
fn accounts_are_found_or_refused() {
    let facts = AccountFacts {
        auth_mode: Some("chatgpt".into()),
        plan: Some("plus".into()),
        paid: false,
        identity: Some("sha256:sha256:abc".into()),
    };
    let d = discover_codex("/bin/codex".into(), Some("1".into()), facts.clone()).unwrap();
    assert_eq!((d.funding.as_str(), d.account.as_str()), ("chatgpt-plus", "abc"));
    assert_eq!(
        d.summary(),
        "1\nAccount fingerprint: abc\nFunding: chatgpt-plus · quota may be unknown\nExecutable: /bin/codex"
    );
    let refusal = |f: AccountFacts| {
        discover_codex("/bin/codex".into(), Some("1".into()), f).unwrap_err()
    };
    assert!(refusal(AccountFacts { auth_mode: Some("apikey".into()), ..facts.clone() })
        .starts_with("ChatGPT subscription login was not confirmed."));
    assert_eq!(
        refusal(AccountFacts { plan: None, ..facts.clone() }),
        "subscription plan is unknown; no profile was authorized"
    );
    assert_eq!(
        refusal(AccountFacts { paid: true, ..facts.clone() }),
        "paid credits or unsupported service detected; no profile was authorized"
    );
    assert_eq!(
        refusal(AccountFacts { identity: None, ..facts.clone() }),
        "account identity is unknown; no profile was authorized"
    );
    assert_eq!(
        discover_codex("/bin/codex".into(), None, facts),
        Err("provider version unavailable; install a supported CLI".to_string())
    );
}

fn providers() -> Vec<Provider> {
    vec![codex(), agent()]
}

#[test]
fn programs_are_only_those_of_known_providers() {
    assert_eq!(executable("codex", &providers(), Some("/bin/codex".into())), Ok("/bin/codex".into()));
    assert_eq!(
        executable("curl", &providers(), Some("/bin/curl".into())),
        Err("choose codex or agent".to_string())
    );
    assert_eq!(
        executable("agent", &providers(), None),
        Err("agent is not installed on PATH. Install the provider CLI, then return to Resources."
            .to_string())
    );
}

#[test]
fn status_lists_what_is_configured_and_missing() {
    assert_eq!(
        status(&empty(), false, &providers()),
        "Accounts / Resources\nLocal operation · no Dispatch login required\nIncluded-resource allocation is not configured.\nShared admission is disabled; guided setup will not override this policy.\ncodex: installed · auth checked on revalidation\nagent: not found on PATH\nNo resource profiles. Add Codex or Agent to begin."
    );
    let mut config = proposal().confirm(None).unwrap();
    config.profiles.push(config.profiles[0].clone());
    config.profiles[1].effort = None;
    config.profiles[1].included = false;
    assert_eq!(
        status(&config, true, &vec![]),
        "Accounts / Resources\nLocal operation · no Dispatch login required\n[1] codex / fixed-model · medium\n    funding configured · launch revalidation required\n[2] codex / fixed-model · default effort\n    needs attention: profile is not confirmed as included"
    );
}

const PROJECT: &str =
    "execution:\n  timeout_secs: 123\nprivate_evidence:\n  shadow: false\n";

fn yaml(text: &str) -> serde_yaml::Value {
    serde_yaml::from_str(text).unwrap()
}

#[test]
fn checks_are_explicit_choices_preserve_configuration_and_refuse_drift() {
    let available = check_choices(Some("check.script"), true, false);
    assert_eq!(available, ["sh ./check.script", "cargo test --locked"]);
    assert_eq!(check_choices(None, false, true), ["make test"]);
    let file = ConfigFile::Regular(PROJECT.as_bytes().to_vec());
    let before = project_config_bytes(Some(file.clone())).unwrap();
    assert_eq!(before, Some(PROJECT.as_bytes().to_vec()));
    let text = save_checks("sh ./check.script", &available, &before).unwrap();
    let (file, saved) = atomic_config(true, file, &before, text.clone().into_bytes());
    assert_eq!(saved, Ok(()));
    assert_eq!(file, ConfigFile::Regular(text.clone().into_bytes()));
    let config = yaml(&text);
    assert_eq!(config["execution"]["timeout_secs"].as_u64(), Some(123));
    assert_eq!(config["private_evidence"]["shadow"].as_bool(), Some(false));
    assert_eq!(config["checks"]["verify"][0].as_str(), Some("sh ./check.script"));
    assert_eq!(config["checks"]["verify"].as_sequence().map(|s| s.len()), Some(1));
    let again = save_checks("sh ./check.script", &available, &before).unwrap();
    let (kept, refused) = atomic_config(true, file.clone(), &before, again.into_bytes());
    assert_eq!(
        refused,
        Err("configuration changed while awaiting confirmation; reopen setup to compare again"
            .to_string())
    );
    assert_eq!(kept, file);
    assert_eq!(
        save_checks("curl attacker", &available, &project_config_bytes(Some(file)).unwrap()),
        Err("check choice is no longer available".to_string())
    );
    assert_eq!(project_config_bytes(None), Ok(None));
}

#[test]
fn a_check_is_the_only_setting_that_is_written() {
    let fresh = yaml(&with_check("make test", &None).unwrap());
    assert_eq!(fresh, yaml("checks:\n  verify: [make test]\n"));
    let kept = with_check("make test", &Some(b"checks:\n  verify: [a, b]\n  lint: c\n".to_vec()));
    assert_eq!(yaml(&kept.unwrap()), yaml("checks:\n  verify: [make test]\n  lint: c\n"));
    for refused in [&b"- a\n"[..], b"checks: 1\n", b"!t null\n", b"checks: !t null\n"] {
        assert_eq!(
            with_check("make test", &Some(refused.to_vec())),
            Err("project configuration cannot be edited".to_string())
        );
    }
}

#[test]
fn unreadable_configuration_is_refused_with_the_reason() {
    let error = with_check("make test", &Some(b"a: [\n".to_vec())).unwrap_err();
    let expected = serde_yaml::from_str::<serde_yaml::Value>("a: [\n").unwrap_err().to_string();
    assert_eq!(error, expected);
}

#[test]
fn tags_order_and_odd_keys_survive_a_saved_check() {
    let file = "!project\nz: 1\n3: three\nchecks: !own\n  lint: c\n  verify: [old]\n  a: b\ny: [2.50]\n";
    let text = with_check("make test", &Some(file.as_bytes().to_vec())).unwrap();
    let expected = "!project\nz: 1\n3: three\nchecks: !own\n  lint: c\n  verify: [make test]\n  a: b\ny: [2.50]\n";
    assert_eq!(text, serde_yaml::to_string(&yaml(expected)).unwrap());
    let edited = set_check(yaml(file), "make test").unwrap();
    assert_eq!(edited, yaml(expected));
    assert_eq!(set_check(yaml("null"), "x").unwrap(), yaml("checks:\n  verify: [x]\n"));
    assert_eq!(
        set_check(yaml("[a]"), "x"),
        Err("project configuration cannot be edited".to_string())
    );
}

#[test]
fn codex_and_one_other_provider_are_known() {
    let known = known_providers("agent", "Agent", true, false);
    assert_eq!(known, providers());
    let mut offered = offered_providers("agent", "Agent", true, false);
    offered.reverse();
    assert_eq!(offered, known);
    assert_eq!(agent_of("codex", "agent"), Agent::Codex);
    assert_eq!(agent_of("agent", "agent"), Agent::Claude);
    assert_eq!(agent_of("other", "agent"), Agent::Other);
}

#[test]
fn rows_are_chosen_by_their_numbers() {
    let mut rows: Vec<Choice> = (0..11).map(|i| Choice::new(&format!("row {i}"))).collect();
    rows[1] = Choice::disabled("row 1", "no");
    assert_eq!(typed_row("  ", &rows, 4), Some(4));
    assert_eq!(typed_row(" 1 ", &rows, 4), Some(0));
    assert_eq!(typed_row("11", &rows, 4), Some(10));
    for refused in ["2", "12", "0", "x", "1 1"] {
        assert_eq!(typed_row(refused, &rows, 4), None);
    }
}

#[test]
fn a_second_confirmation_of_one_proposal_is_refused() {
    let p = proposal();
    let original = p.original.clone();
    let bytes = b"version: 1\nallocation_enabled: true\n".to_vec();
    let (file, first) = atomic_config(true, ConfigFile::Missing, &original, bytes.clone());
    assert_eq!((&file, first), (&ConfigFile::Regular(bytes.clone()), Ok(())));
    let (kept, second) = atomic_config(true, file, &original, b"other".to_vec());
    assert_eq!(
        second,
        Err("configuration changed while awaiting confirmation; reopen setup to compare again"
            .to_string())
    );
    assert_eq!(kept, ConfigFile::Regular(bytes.clone()));
    let (kept, locked) = atomic_config(false, kept, &Some(bytes.clone()), b"other".to_vec());
    assert_eq!(locked, Err("another setup write is in progress; re-open Resources".to_string()));
    assert_eq!(kept, ConfigFile::Regular(bytes));
}

#[test]
fn a_proposal_goes_by_the_agent_that_it_is_for() {
    let config = proposal().confirm(None).unwrap();
    let prepare = |provider: &Provider, config: ResourceConfig, d: Discovery| {
        Proposal::prepare(
            config,
            true,
            None,
            d,
            provider,
            Some(0),
            "m".into(),
            "low".into(),
            ResourceTier::Light,
            0,
        )
    };
    let mut plan = discovery();
    plan.funding = "chatgpt-pro".into();
    assert_eq!(
        prepare(&codex(), config.clone(), plan.clone()),
        Err("subscription plan changed: add a new resource explicitly".to_string())
    );
    let mut own = config.clone();
    own.profiles[0].harness = "agent".into();
    let p = prepare(&agent(), own, plan.clone()).unwrap();
    assert_eq!(p.agent, Agent::Claude);
    assert!(p.summary().contains("Funding assertion expires in 24 hours."));
    assert!(p.summary().contains("controlled print mode"));
    let p = prepare(&codex(), config, discovery()).unwrap();
    assert!(p.summary().contains("Launch checks current account and retained funding evidence."));
    assert!(!p.summary().contains("controlled print mode"));
}

#[test]
fn symlink_configuration_is_never_replaced() {
    assert_eq!(
        read_config(ConfigFile::Special),
        Err("configuration must be a regular file".to_string())
    );
    assert_eq!(
        may_replace(true, ConfigFile::Special, &None),
        Err("configuration must be a regular file".to_string())
    );
    assert!(project_config_bytes(Some(ConfigFile::Special)).is_err());
    assert_eq!(read_config(ConfigFile::Missing), Ok(None));
}

#[test]
fn account_menus_lead_where_they_say() {
    let config = proposal().confirm(None).unwrap();
    let rows = accounts_menu(&providers(), &config.profiles, 0);
    let labels: Vec<&str> = rows.iter().map(|r| r.label.as_str()).collect();
    assert_eq!(
        labels,
        [
            "Add Codex",
            "Add Agent",
            "Revalidate codex · fixed-model · medium · ready",
            "Provider login…",
            "Runtime integrations…",
            "Back",
        ]
    );
    assert_eq!(rows[1].disabled.as_deref(), Some("not found on PATH"));
    assert_eq!(accounts_step(Some(1), 2, 1), AccountsStep::Add(1));
    assert_eq!(accounts_step(Some(2), 2, 1), AccountsStep::Revalidate(0));
    assert_eq!(accounts_step(Some(3), 2, 1), AccountsStep::Login);
    assert_eq!(accounts_step(Some(4), 2, 1), AccountsStep::Integrations);
    assert_eq!(accounts_step(Some(5), 2, 1), AccountsStep::Leave);
    assert_eq!(accounts_step(None, 2, 1), AccountsStep::Leave);
    assert_eq!(login_providers(&providers()), [0]);
    assert_eq!(login_arguments("codex"), ["login", "--device-auth"]);
    assert_eq!(login_arguments("agent"), ["auth", "login"]);
    assert!(login_prompt("codex").starts_with("Open codex's supported login?"));
    assert!(consents(Some(0)) && !consents(Some(1)) && !consents(None));
    assert!(report("e").starts_with("Resource unchanged: e\nChoose Provider login"));
}

#[test]
fn profile_rows_tell_how_long_they_last() {
    let mut p = proposal().confirm(None).unwrap().profiles.remove(0);
    p.claude_subscription = Some(SubscriptionEvidence { valid_until: 7_300_000_000, ..evidence("a") });
    assert_eq!(
        profile_choice(&p, 0).label,
        "Revalidate codex · fixed-model · medium · ready, expires in 2 h"
    );
    p.stale_evidence = Some("expired".into());
    assert_eq!(
        profile_choice(&p, 0).label,
        "Revalidate codex · fixed-model · medium · needs revalidation: expired"
    );
    p.enabled = false;
    assert_eq!(profile_choice(&p, 0).disabled.as_deref(), Some("disabled in resources.yml"));
    assert_eq!(remaining(3_599_000_000, 0), "59 min");
    assert_eq!(remaining(0, 1_000_000_000), "1 min");
    assert_eq!(remaining(i64::MAX, i64::MIN), "5124095576 h");
}

#[test]
fn models_are_offered_once_and_configured_ones_first() {
    let mut config = proposal().confirm(None).unwrap();
    config.profiles.push(config.profiles[0].clone());
    let option = |id: &str, efforts: &[&str]| ModelOption {
        id: id.into(),
        efforts: efforts.iter().map(|e| e.to_string()).collect(),
        default_effort: None,
    };
    let usual = usual_efforts(&None);
    assert_eq!(usual, ["minimal", "low", "medium", "high", "xhigh"]);
    assert_eq!(usual_efforts(&Some(vec!["max".into()])), ["max"]);
    let listed = vec![option("a", &["low"]), option("a", &["high"]), option("b", &[])];
    let options = model_options(&config.profiles, "codex", &listed, &usual);
    let ids: Vec<&str> = options.iter().map(|o| o.id.as_str()).collect();
    assert_eq!(ids, ["fixed-model", "a", "b"]);
    assert_eq!(options[0].efforts, usual);
    assert_eq!(options[0].default_effort.as_deref(), Some("medium"));
    assert_eq!(options[1].efforts, ["low"]);
    assert_eq!(
        model_step(&options, &usual, Some(2)),
        ModelStep::Chosen(ModelOption { efforts: usual.clone(), ..option("b", &[]) })
    );
    assert_eq!(model_step(&options, &usual, Some(3)), ModelStep::Type);
    assert_eq!(model_step(&options, &usual, None), ModelStep::Leave);
    assert_eq!(initial_effort(&usual, &Some("high".into())), 3);
    assert_eq!(initial_effort(&usual, &Some("other".into())), 2);
    assert_eq!(initial_effort(&vec!["low".into()], &None), 0);
    assert_eq!(checks_step(Some(0), 1), ChecksStep::Save(0));
    assert_eq!(checks_step(Some(1), 1), ChecksStep::Type);
    assert_eq!(checks_step(Some(2), 1), ChecksStep::Without);
    assert_eq!(checks_step(Some(3), 1), ChecksStep::Cancelled);
    assert_eq!(checks_step(None, 1), ChecksStep::Cancelled);
}

#[test]
fn hooks_are_described_before_they_are_touched() {
    assert!(integrations_text("Agent", false, "/s.json")
        .starts_with("Runtime integrations\nAgent hooks: not installed (/s.json)\nWith them, a Agent session"));
    assert_eq!(
        hooks_question("agent", true, "/s.json", ""),
        "Remove Dispatch's hooks from /s.json?\nOnly the entries running `... hook agent` are removed; a backup is kept beside the file."
    );
    assert_eq!(
        hooks_question("agent", false, "/s.json", "PREVIEW"),
        "Add these hooks to /s.json?\nPREVIEW\nOther settings and hooks are kept (key order may change); a backup is kept beside the file."
    );
    assert_eq!(hooks_done("Agent", true, None), "Agent hooks removed.");
    assert_eq!(
        hooks_done("Agent", false, Some("/b")),
        "Agent hooks installed. Previous settings: /b."
    );
}

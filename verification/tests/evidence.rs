use dispatch::private_evidence::policy::{
    annotation_statement, attestation_prompt, commit_annotation, explain, inspected_context, load_proposal,
    name_proposal, narrow_alternatives, owner_attestation, owner_authority, prepare_annotation,
    prepare_review_annotation, propose, select, transition_on, transition_statement, trial_choices,
    valid_references, validate_provenance, ActiveProposal, AnnotationRequest, ReferenceFacts,
    TransitionFacts,
};
use dispatch::private_evidence::{
    active, behavior, context, policy_revision, proposal, quality_reason, routine_mapping,
    rule_parameters, same_context, sealed, source_key, summarize, Annotation, AttemptFacts, Behavior,
    ContextKey, Counts, DecisionFacts, EvidenceConfig, Feedback, GoalFacts, Mapping,
    PolicyTransition, Reference, ResultFacts, StoredAnnotation, Summary,
};
use dispatch::record::{
    ApplicationState, CheckStatus, ReviewState, VerificationState,
};
use dispatch::router::{
    select_resource, AllocationDecision, ResourceConfig, ResourceProfile, ResourceTier,
    TaskFeatures, TaskKind, TaskScope,
};

const BASE: &str = "allocation-portfolio-v3";

fn profile(model: &str, tier: ResourceTier) -> ResourceProfile {
    ResourceProfile {
        enabled: true,
        provider: "openai".into(),
        funding_source: "fixture".into(),
        harness: "codex".into(),
        model: model.into(),
        effort: Some("low".into()),
        service_mode: "standard".into(),
        runtime: "local".into(),
        pool: "fixture".into(),
        provider_buckets: vec![],
        tier,
        included: true,
        no_overage_verified: true,
        authorization_revision: 0,
        claude_subscription: None,
        stale_evidence: None,
    }
}

fn resources() -> ResourceConfig {
    ResourceConfig {
        version: 1,
        allocation_enabled: true,
        profiles: vec![
            profile("light-fixed", ResourceTier::Light),
            profile("standard-fixed", ResourceTier::Standard),
        ],
    }
}

fn features() -> TaskFeatures {
    TaskFeatures {
        language: Some("rust".into()),
        task_kind: TaskKind::Tests,
        scope: TaskScope::Localized,
    }
}

fn verify() -> Vec<String> {
    vec!["test -f result.txt".into()]
}

fn config() -> EvidenceConfig {
    EvidenceConfig {
        shadow: false,
        routine_mappings: vec![Mapping {
            id: "explicit-routine-fixture".into(),
            features: features(),
            verify: verify(),
        }],
    }
}

fn here(features: &TaskFeatures, config: &EvidenceConfig, verify: &Vec<String>) -> ContextKey {
    let keys = config.routine_mappings.iter().map(|m| format!("mapping:{}", m.id)).collect();
    context("source", features, config, verify, "checks", &keys)
}

fn behave(choice: &dispatch::router::ResourceChoice) -> Behavior {
    behavior(choice, Some("program"), "{}", "{}")
}

fn screened() -> (Summary, AllocationDecision, Vec<Behavior>) {
    let ctx = here(&features(), &config(), &verify());
    let mut summary = summarize(&vec![], &ctx, false, 1_789_603_200_000_000, 0);
    let d = select_resource(&resources(), &features(), "local", None, None, None, None).unwrap();
    let b = d.alternatives.iter().map(|a| behave(&a.choice)).collect::<Vec<_>>();
    let mut light = Counts::empty();
    light.goals = 25;
    light.reviewed = 20;
    light.accepted = 15;
    light.rejected = 5;
    light.quality_rejected = 5;
    summary.resources.insert(format!("{}|v1|unknown|unknown|{BASE}", b[0].key), light);
    let mut standard = Counts::empty();
    standard.goals = 1;
    standard.verification.insert("passed".into(), 1);
    summary.resources.insert(format!("{}|v1|unknown|unknown|{BASE}", b[1].key), standard);
    (summary, d, b)
}

#[test]
fn explicit_multifile_mapping_is_descriptive_only_and_checks_stay_exact() {
    let f = TaskFeatures {
        language: Some("c".into()),
        task_kind: TaskKind::Feature,
        scope: TaskScope::MultiFile,
    };
    let mut c = EvidenceConfig { shadow: false, routine_mappings: vec![] };
    let mut checks = vec!["sh ./check.script".to_string()];
    assert!(here(&f, &c, &checks).mapping.is_none());
    c.routine_mappings.push(Mapping {
        id: "raylib-feature-collisions".into(),
        features: f.clone(),
        verify: checks.clone(),
    });
    let ctx = here(&f, &c, &checks);
    assert!(ctx.mapping.is_some());
    // Even enough synthetic light-profile reviews cannot broaden the rule.
    let (mut summary, mut decision, behaviors) = screened();
    summary.context = ctx;
    decision.task_features = f.clone();
    let (p, reason) = proposal(&summary, &decision, &behaviors).unwrap();
    assert!(p.is_none());
    assert_eq!(reason, "task_scope_outside_trial_rule");
    for invalid in [
        TaskFeatures { language: None, ..f.clone() },
        TaskFeatures { task_kind: TaskKind::Unknown, ..f.clone() },
        TaskFeatures { scope: TaskScope::Unknown, ..f.clone() },
        TaskFeatures { scope: TaskScope::Broad, ..f.clone() },
    ] {
        c.routine_mappings[0].features = invalid.clone();
        assert!(here(&invalid, &c, &checks).mapping.is_none());
    }
    c.routine_mappings[0].features = f.clone();
    checks = vec!["true".into()];
    assert!(here(&f, &c, &checks).mapping.is_none());
    checks = vec![];
    c.routine_mappings[0].verify.clear();
    assert!(here(&f, &c, &checks).mapping.is_none());
    checks = vec!["sh ./check.script".into()];
    c.routine_mappings[0].verify = checks.clone();
    c.routine_mappings.push(c.routine_mappings[0].clone());
    assert!(here(&f, &c, &checks).mapping.is_none());
}

#[test]
fn mappings_of_one_language_stay_apart() {
    let mut c = EvidenceConfig { shadow: false, routine_mappings: vec![] };
    let mut checks = vec!["make test".to_string()];
    for (id, kind, scope) in [
        ("feature", TaskKind::Feature, TaskScope::MultiFile),
        ("tests", TaskKind::Tests, TaskScope::Localized),
    ] {
        c.routine_mappings.push(Mapping {
            id: id.into(),
            features: TaskFeatures { language: Some("c".into()), task_kind: kind, scope },
            verify: checks.clone(),
        });
    }
    let tests = c.routine_mappings[1].features.clone();
    let feature = c.routine_mappings[0].features.clone();
    let unspecified = TaskFeatures { scope: TaskScope::Unknown, ..feature.clone() };
    assert_eq!(routine_mapping(&c.routine_mappings, &tests, &checks), Some(1));
    assert_eq!(routine_mapping(&c.routine_mappings, &feature, &checks), Some(0));
    assert_ne!(here(&tests, &c, &checks).mapping, here(&feature, &c, &checks).mapping);
    assert!(here(&unspecified, &c, &checks).mapping.is_none());
    checks.push("extra check".into());
    assert!(here(&tests, &c, &checks).mapping.is_none());
    assert!(here(&feature, &c, &checks).mapping.is_none());
}

#[test]
fn malformed_proposals_fail() {
    let (summary, decision, behaviors) = screened();
    let mut p = proposal(&summary, &decision, &behaviors).unwrap().0.unwrap();
    assert_eq!(load_proposal(&p, true), Ok(()));
    assert!(load_proposal(&p, false).is_err());
    p.parameters.minimum_reviewed = 1;
    assert_eq!(
        load_proposal(&p, true),
        Err("invalid proposal content/version".to_string())
    );
}

#[test]
fn screening_parameters_are_not_calibration_or_activation() {
    let (s, d, b) = screened();
    let (p, why) = proposal(&s, &d, &b).unwrap();
    let p = p.unwrap();
    assert_eq!(why, "repeated_quality_rejections_trial_only");
    assert_eq!(p.parameters.minimum_reviewed, 20);
    assert_eq!(p.parameters, rule_parameters());
    assert_eq!(d.selected.tier, ResourceTier::Light);
    assert_eq!(p.target.tier, ResourceTier::Standard);
    assert!(p.limitations.iter().any(|s| s.contains("unproven")));
    assert_eq!(active(&vec![], "fixture"), (0, None));
}

#[test]
fn sparse_missing_conflicting_and_unmapped_cohorts_abstain() {
    let (s, d, b) = screened();
    for mode in 0..7 {
        let mut x = s.clone();
        let at = x.resources.entries.iter().position(|e| e.0.starts_with(&b[0].key)).unwrap();
        match mode {
            0 => x.resources.entries[at].1.reviewed = 19,
            1 => x.resources.entries[at].1.goals = 26,
            2 => x.resources.entries[at].1.quality_rejected = 4,
            3 => x.resources.insert(format!("{}|v2", b[0].key), Counts::empty()),
            4 => x.context.mapping = None,
            5 => x.truncated = true,
            _ => x.resources.entries.retain(|e| !e.0.starts_with(&b[1].key)),
        }
        assert!(proposal(&x, &d, &b).unwrap().0.is_none(), "mode {mode}");
    }
}

#[test]
fn constraints_unknown_identity_and_behavior_changes_are_conservative() {
    let (s, mut d, mut b) = screened();
    d.alternatives[1].eligible = false;
    assert!(proposal(&s, &d, &b).unwrap().0.is_none());
    d.alternatives[1].eligible = true;
    b[1].executable_known = false;
    assert!(proposal(&s, &d, &b).unwrap().0.is_none());
    let base = behave(&d.selected);
    let mut changed = d.selected.clone();
    changed.funding_source = "renewed-label".into();
    changed.pool = "renamed-pool".into();
    assert_eq!(base, behave(&changed));
    changed.effort = Some("high".into());
    assert_ne!(base.key, behave(&changed).key);
    let tools = behavior(&d.selected, Some("program"), "{\"extra_args\":[\"--different-tools\"]}", "{}");
    assert_ne!(base.key, tools.key);
    assert!(!behavior(&d.selected, None, "{}", "{}").executable_known);
}

#[test]
fn behavior_keys_hash_their_canonical_form() {
    let (_, d, _) = screened();
    let canonical = "{\"adapter_contract\":\"phase6-title-disabled-v1\",\"behavior\":{\"effort\":\"low\",\"executable_known\":false,\"harness\":\"codex\",\"key\":\"\",\"provider\":\"openai\",\"requested_model\":\"light-fixed\",\"resolved_model\":\"light-fixed\",\"runtime\":\"local\",\"service_mode\":\"standard\"},\"executable\":null,\"execution\":{},\"harness\":{}}";
    assert_eq!(
        behavior(&d.selected, None, "{}", "{}").key,
        dispatch::digest::text_hash(canonical)
    );
    assert_eq!(
        source_key("/a"),
        dispatch::digest::text_hash("\"/a\"")
    );
}

fn attempt() -> AttemptFacts {
    AttemptFacts {
        role: "work".into(),
        completed: true,
        reason: None,
        has_parent: false,
        launch: Some("launched".into()),
        wait_ms: Some(5),
        provider: Some("openai".into()),
        harness_id: "codex".into(),
        harness_version: Some("v1".into()),
        resolved_model: Some("light-fixed".into()),
        observed_model: None,
        resolved_effort: Some("low".into()),
        observed_effort: None,
        failure: None,
        usage_categories: vec![],
        result: Some(ResultFacts {
            exit_code: Some(0),
            timed_out: false,
            duration_ms: 100,
            check_statuses: vec![CheckStatus::Passed],
            check_ms: vec![7],
            tokens: None,
            token_semantics: None,
        }),
    }
}

fn goal(ctx: &ContextKey) -> GoalFacts {
    GoalFacts {
        run_id: "run".into(),
        mode: "allocation".into(),
        backend: "local".into(),
        machine: false,
        annotation: Some(StoredAnnotation {
            sequence: 1,
            feedback_id: Some("f".into()),
            annotation: Annotation {
                origin: "ordinary".into(),
                review: "human".into(),
                delivery: "d".into(),
                actor: "local-owner:1".into(),
                repair_minutes: None,
            },
        }),
        feedback: Some(Feedback {
            id: "f".into(),
            outcome: "rejected".into(),
            reasons: vec!["correctness".into()],
        }),
        planned: false,
        committed_check_ms: vec![],
        elapsed_ms: Some(1000),
        verification: VerificationState::Passed,
        review: ReviewState::Rejected,
        application: ApplicationState::NotApplied,
        failure: None,
        contributing_attempts: 1,
        questions: 0,
        attempts: vec![attempt()],
        decision: Some(DecisionFacts {
            context: ctx.clone(),
            selected_behavior: "behavior".into(),
            policy_version: BASE.into(),
        }),
        delivery: "d".into(),
        facts: "x".into(),
    }
}

#[test]
fn every_goal_is_counted_once_whatever_became_of_it() {
    let ctx = here(&features(), &config(), &verify());
    let rows = vec![Some(goal(&ctx)), None, Some(goal(&ctx))];
    let s = summarize(&rows, &ctx, false, 1_789_603_200_000_000, 3);
    assert_eq!(s.counts.goals, 2);
    assert_eq!(s.counts.exclusions.get("missing_projection"), Some(&1));
    assert_eq!(s.annotation_revision, 3);
    assert_eq!(s.counts.reviewed, s.counts.accepted + s.counts.rejected);
    assert!(s.counts.quality_rejected <= s.counts.rejected);
    assert_eq!(s.since, s.cutoff - 90 * 86_400_000_000);
    assert!(!s.truncated);
    let many: Vec<Option<GoalFacts>> = (0..1001).map(|_| None).collect();
    let s = summarize(&many, &ctx, false, 0, 0);
    assert!(s.truncated);
    assert_eq!(s.counts.goals, 0);
    assert_eq!(s.counts.exclusions.get("missing_projection"), Some(&1000));
}

#[test]
fn only_quality_reasons_count_against_a_resource() {
    assert!(quality_reason(&vec!["correctness".into()]));
    assert!(!quality_reason(&vec!["correctness".into(), "changed-requirements".into()]));
    assert!(!quality_reason(&vec!["style".into()]));
    assert!(!quality_reason(&vec![]));
}

fn revision(revision: u64, id: Option<&str>) -> PolicyTransition {
    PolicyTransition {
        source_key: "source".into(),
        revision,
        proposal_id: id.map(str::to_owned),
    }
}

#[test]
fn the_highest_revision_is_in_force() {
    let rows = vec![revision(1, Some("a")), revision(3, None), revision(2, Some("b"))];
    assert_eq!(active(&rows, "source"), (3, None));
    assert_eq!(policy_revision(&rows, "source"), 3);
    assert_eq!(policy_revision(&rows, "other"), 0);
}

fn approved() -> (ActiveProposal, Summary, AllocationDecision, Vec<Behavior>) {
    let (s, d, b) = screened();
    let p = proposal(&s, &d, &b).unwrap().0.unwrap();
    let active = ActiveProposal { proposal: p, status: "active".into(), references_valid: true };
    (active, s, d, b)
}

#[test]
fn only_approved_trials_change_the_resource() {
    let (active, s, d, b) = approved();
    let ctx = s.context.clone();
    let base = b[0].key.clone();
    let plain =
        select(d.clone(), &ctx, false, 0, None, None, b.clone(), &base, Some(&s), false, 0).unwrap();
    assert_eq!(plain.decision.selected, d.selected);
    assert!(plain.proposed.is_none());
    let shadow =
        select(d.clone(), &ctx, true, 0, None, None, b.clone(), &base, Some(&s), false, 0).unwrap();
    assert_eq!(shadow.decision.selected, d.selected);
    assert!(shadow.proposed.is_some());
    let trial = select(
        d.clone(),
        &ctx,
        false,
        1,
        Some(1),
        Some(&active),
        b.clone(),
        &base,
        Some(&s),
        false,
        0,
    )
    .unwrap();
    assert_eq!(trial.decision.selected.resolved_model, "standard-fixed");
    let explicit = select(
        d.clone(),
        &ctx,
        false,
        1,
        None,
        Some(&active),
        b.clone(),
        &base,
        Some(&s),
        true,
        0,
    )
    .unwrap();
    assert_eq!(explicit.decision.selected, d.selected);
    let mut stale = active.clone();
    stale.references_valid = false;
    let stale = select(
        d.clone(),
        &ctx,
        false,
        1,
        None,
        Some(&stale),
        b.clone(),
        &base,
        Some(&s),
        false,
        0,
    )
    .unwrap();
    assert!(stale.stale);
    assert_eq!(stale.decision.selected, d.selected);
    assert_eq!(
        select(d, &ctx, false, 2, Some(1), None, b, &base, Some(&s), false, 0),
        Err("authorization_required: private policy changed at selection; issue a new grant"
            .to_string())
    );
    let mut recorded = trial.decision.private_evidence.unwrap();
    name_proposal(&mut recorded, "id".into());
    assert_eq!(recorded.proposal_id.as_deref(), Some("id"));
}

#[test]
fn references_must_still_say_what_they_said() {
    let (mut active, _, _, _) = approved();
    assert!(!valid_references(&active.proposal, &vec![], 0));
    active.proposal.references = vec![Reference {
        run_id: "run".into(),
        cohort: "c".into(),
        feedback_id: "f".into(),
        annotation_sequence: 1,
        delivery: "d".into(),
        facts: "x".into(),
    }];
    let now = ReferenceFacts {
        annotation_sequence: Some(1),
        feedback_id: Some("f".into()),
        delivery: "d".into(),
        facts: "x".into(),
        created_at: 1_789_603_100_000_000,
        context: Some(active.proposal.context.clone()),
    };
    let at = 1_789_603_200_000_000;
    assert!(valid_references(&active.proposal, &vec![Some(now.clone())], at));
    assert!(!valid_references(&active.proposal, &vec![None], at));
    let moved = ReferenceFacts { facts: "y".into(), ..now.clone() };
    assert!(!valid_references(&active.proposal, &vec![Some(moved)], at));
    let old = ReferenceFacts { created_at: 0, ..now };
    assert!(!valid_references(&active.proposal, &vec![Some(old)], at));
}

#[test]
fn annotations_are_attested_once_and_stay_experiments() {
    let feedback =
        Feedback { id: "f".into(), outcome: "accepted".into(), reasons: vec![] };
    let request = prepare_annotation(
        "run",
        4,
        "ordinary",
        "human",
        Some(3),
        "local-owner:1",
        "d",
        ReviewState::Accepted,
        Some(&feedback),
        None,
    )
    .unwrap();
    assert!(prepare_review_annotation(request.clone(), 4, "d").is_ok());
    assert!(prepare_review_annotation(request.clone(), 5, "d").is_err());
    assert_eq!(commit_annotation(&request, "local-owner:1", 4, "d", Some("f"), None), Ok(true));
    let stored = StoredAnnotation {
        sequence: 1,
        feedback_id: Some("f".into()),
        annotation: request.annotation.clone(),
    };
    let mut again = request.clone();
    again.annotation_sequence = Some(1);
    assert_eq!(
        commit_annotation(&again, "local-owner:1", 4, "d", Some("f"), Some(&stored)),
        Ok(false)
    );
    assert!(commit_annotation(&request, "local-owner:2", 4, "d", Some("f"), None).is_err());
    assert!(prepare_annotation(
        "run",
        4,
        "invented",
        "human",
        None,
        "local-owner:1",
        "d",
        ReviewState::Accepted,
        Some(&feedback),
        None
    )
    .is_err());
    assert!(prepare_annotation(
        "run",
        4,
        "ordinary",
        "human",
        None,
        "local-owner:1",
        "d",
        ReviewState::Pending,
        Some(&feedback),
        None
    )
    .is_err());
    let mut synthetic = stored;
    synthetic.annotation.origin = "synthetic".into();
    assert!(validate_provenance(Some(&synthetic), "ordinary").is_err());
    assert!(validate_provenance(None, "ordinary").is_ok());
}

#[test]
fn policy_changes_are_fenced() {
    let (active, s, _, b) = approved();
    let facts = TransitionFacts {
        proposal: active.proposal.clone(),
        status: "proposed".into(),
        context: s.context.clone(),
        references_valid: true,
        trial_behaviors: vec![b[1].key.clone()],
        base_behavior: b[0].key.clone(),
        summary: s,
    };
    let change = |actor: &str, expected, facts: &TransitionFacts| {
        transition_on(actor, "source", 2, Some("old"), expected, Some("new"), Some(facts))
    };
    let done = change("local-owner:1", 2, &facts).unwrap();
    assert_eq!(done.row.revision, 3);
    assert_eq!(done.row.proposal_id.as_deref(), Some("new"));
    assert_eq!(done.retired, Some(("old".into(), "superseded".into())));
    assert_eq!(
        change("machine", 2, &facts),
        Err("explicit local owner required".to_string())
    );
    assert_eq!(change("local-owner:1", 1, &facts), Err("stale policy revision".to_string()));
    let refused = |f: TransitionFacts| change("local-owner:1", 2, &f).unwrap_err();
    assert_eq!(
        refused(TransitionFacts { status: "stale".into(), ..facts.clone() }),
        "stale, superseded, or incompatible proposal"
    );
    assert_eq!(
        refused(TransitionFacts { trial_behaviors: vec![], ..facts.clone() }),
        "target configuration unavailable"
    );
    assert_eq!(
        refused(TransitionFacts { base_behavior: "x".into(), ..facts.clone() }),
        "source profile changed; proposal no longer applies"
    );
    let mut other = facts.clone();
    other.summary.resources.entries.clear();
    assert_eq!(refused(other), "screening evidence changed; inspect a new proposal");
    let back = transition_on("local-owner:1", "source", 3, Some("new"), 3, None, None).unwrap();
    assert_eq!(back.row.proposal_id, None);
    assert_eq!(back.retired, Some(("new".into(), "revoked".into())));
}

#[test]
fn past_decisions_are_screened_against_what_is_offered_now() {
    let (active, s, d, b) = approved();
    let ctx = s.context.clone();
    let trial = select(
        d.clone(),
        &ctx,
        false,
        1,
        None,
        Some(&active),
        b.clone(),
        &b[0].key,
        Some(&s),
        false,
        0,
    )
    .unwrap()
    .decision;
    let (again, context) = propose(trial.clone(), &ctx, &resources()).unwrap();
    assert!(same_context(&context, &ctx));
    assert_eq!(again.selected, d.selected);
    assert!(again.private_evidence.is_none());
    assert!(again.alternatives[1].eligible);
    let mut other = ctx.clone();
    other.verification = "changed".into();
    assert_eq!(
        propose(trial.clone(), &other, &resources()),
        Err("task/check configuration changed".to_string())
    );
    assert_eq!(
        propose(d.clone(), &ctx, &resources()),
        Err("no compatible pre-execution evidence context".to_string())
    );
    let mut fewer = resources();
    fewer.profiles[1].enabled = false;
    let mut narrowed = d.clone();
    narrow_alternatives(&mut narrowed, &fewer);
    assert!(narrowed.alternatives[0].eligible && !narrowed.alternatives[1].eligible);
    assert_eq!(inspected_context(&trial, "k"), ctx);
    assert_eq!(inspected_context(&d, "k").verification, "unknown");
    let lines = explain(trial.private_evidence.as_ref(), &s, "run");
    assert_eq!(lines.len(), 4);
    assert!(lines[1].starts_with("  Current project window: 0 goals;"));
    let choices = trial_choices(&resources(), &features(), "local");
    assert_eq!(choices.len(), 2);
    assert_eq!(choices[1].as_ref().unwrap().resolved_model, "standard-fixed");
}

#[test]
fn only_the_owner_of_the_state_attests() {
    assert_eq!(owner_authority(7, 7), Ok("local-owner:7".to_string()));
    assert_eq!(owner_authority(0, 7), Err("state owner required".to_string()));
    assert_eq!(
        attestation_prompt("S", "C"),
        "S\nType C to attest this exact statement:"
    );
    assert_eq!(owner_attestation(" C\n", "C"), Ok(()));
    assert_eq!(
        owner_attestation("yes", "C"),
        Err("owner attestation declined".to_string())
    );
}

#[test]
fn the_owner_sees_exactly_what_they_attest_to() {
    let mut request = AnnotationRequest {
        run_id: "01RUN".into(),
        state_revision: 1,
        feedback_id: Some("f\"1".into()),
        annotation_sequence: None,
        annotation: Annotation {
            origin: "ordinary".into(),
            review: "human".into(),
            delivery: "d".into(),
            actor: "local-owner:1".into(),
            repair_minutes: Some(15),
        },
    };
    assert_eq!(
        annotation_statement("01", &request),
        "Annotate goal 01, delivery d, feedback Some(\"f\\\"1\"): origin=ordinary, review=human, repair_minutes=Some(15). Human means an actual person's judgment, never scripted approval. This creates no outcome label."
    );
    request.feedback_id = None;
    request.annotation.repair_minutes = None;
    assert!(annotation_statement("01", &request).contains("feedback None: "));
    assert_eq!(
        transition_statement("/source", 3, "null"),
        "Change future private policy for /source at revision 3. Proposal: null. Rollback restores allocation-portfolio-v3; no historical goal or permission is rewritten."
    );
}

#[test]
fn default_config_preserves_historical_grant_digest_and_malformed_proposals_fail() {
    let default = EvidenceConfig { shadow: false, routine_mappings: vec![] };
    assert!(default.is_disabled());
    let (summary, decision, behaviors) = screened();
    let mut p = proposal(&summary, &decision, &behaviors).unwrap().0.unwrap();
    p.parameters.minimum_reviewed = 1;
    assert!(load_proposal(&p, true).is_err());
}

#[test]
fn a_summary_is_sealed_with_the_hash_of_its_text() {
    let ctx = here(&features(), &config(), &verify());
    let open = summarize(&vec![], &ctx, false, 0, 0);
    assert_eq!(open.snapshot_hash, "");
    let closed = sealed(open.clone(), &b"abc".to_vec());
    assert_eq!(
        closed.snapshot_hash,
        "ba7816bf8f01cfea414140de5dae2223b00361a396177a9cb410ff61f20015ad"
    );
    assert_eq!(Summary { snapshot_hash: String::new(), ..closed }, open);
}

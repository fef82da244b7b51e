use dispatch::router::{
    select_resource, select_resource_filtered, select_resource_filtered_lane, ResourceConfig,
    ResourceProfile, ResourceTier, TaskFeatures, TaskKind, TaskScope,
};

fn profile(tier: ResourceTier, model: &str, effort: &str) -> ResourceProfile {
    ResourceProfile {
        enabled: true,
        claude_subscription: None,
        provider: "openai".into(),
        funding_source: "chatgpt-plus".into(),
        harness: "codex".into(),
        model: model.into(),
        effort: Some(effort.into()),
        service_mode: "standard".into(),
        runtime: "local".into(),
        pool: "chatgpt-codex".into(),
        provider_buckets: vec!["codex".into()],
        tier,
        included: true,
        no_overage_verified: true,
        authorization_revision: 1,
        stale_evidence: None,
    }
}

fn resources() -> ResourceConfig {
    ResourceConfig {
        version: 1,
        allocation_enabled: true,
        profiles: vec![
            profile(ResourceTier::Light, "light-model", "low"),
            profile(ResourceTier::Standard, "standard-model", "medium"),
            profile(ResourceTier::Strong, "strong-model", "high"),
        ],
    }
}

#[test]
fn treats_models_of_one_harness_as_distinct_deterministic_choices() {
    let features = TaskFeatures {
        language: Some("rust".into()),
        task_kind: TaskKind::Tests,
        scope: TaskScope::Localized,
    };
    let decision =
        select_resource(&resources(), &features, "local", None, None, None, None).unwrap();
    assert_eq!(decision.selected.requested_model, "light-model");
    assert_eq!(decision.alternatives.len(), 3);
    assert_eq!(decision.capability.models.len(), 3);
}

#[test]
fn uncertain_scope_does_not_require_strong_or_qualify_for_light() {
    for kind in [TaskKind::Tests, TaskKind::BugFix, TaskKind::Unknown] {
        for scope in [
            TaskScope::Localized,
            TaskScope::MultiFile,
            TaskScope::Unknown,
            TaskScope::Broad,
        ] {
            let features = TaskFeatures {
                language: None,
                task_kind: kind.clone(),
                scope: scope.clone(),
            };
            let decision =
                select_resource(&resources(), &features, "local", None, None, None, None).unwrap();
            let expected = if scope == TaskScope::Broad {
                ResourceTier::Strong
            } else if kind == TaskKind::Tests && scope == TaskScope::Localized {
                ResourceTier::Light
            } else {
                ResourceTier::Standard
            };
            assert_eq!(decision.selected.tier, expected);
        }
    }
    for kind in [TaskKind::Feature, TaskKind::Refactor] {
        let features = TaskFeatures {
            task_kind: kind,
            ..TaskFeatures::default()
        };
        let mut resources = resources();
        assert_eq!(
            select_resource(&resources, &features, "local", None, None, None, None)
                .unwrap()
                .selected
                .tier,
            ResourceTier::Strong
        );
        resources
            .profiles
            .retain(|p| p.tier != ResourceTier::Strong);
        assert!(select_resource(&resources, &features, "local", None, None, None, None).is_err());
    }
}

#[test]
fn fixed_constraints_win_and_unverified_overage_is_ineligible() {
    let mut resources = resources();
    resources.profiles[2].no_overage_verified = false;
    let features = TaskFeatures::default();
    let error = select_resource(
        &resources,
        &features,
        "local",
        Some("strong-model"),
        None,
        Some("strong-model"),
        None,
    )
    .unwrap_err();
    assert!(error.to_string().contains("no-overage-verified"));

    let decision = select_resource(
        &resources,
        &features,
        "local",
        Some("standard-model"),
        Some("medium"),
        Some("standard-model"),
        Some("medium"),
    )
    .unwrap();
    assert_eq!(decision.selected.tier, ResourceTier::Standard);
}

#[test]
fn conflicting_cli_and_project_constraints_fail_instead_of_substituting() {
    let error = select_resource(
        &resources(),
        &TaskFeatures::default(),
        "local",
        Some("light-model"),
        None,
        Some("strong-model"),
        None,
    )
    .unwrap_err();
    assert!(error.to_string().contains("conflicts"));
}

#[test]
fn unknown_work_uses_standard_and_keeps_its_features() {
    let features = TaskFeatures::default();
    let mut resources = resources();
    resources
        .profiles
        .retain(|p| p.tier != ResourceTier::Strong);
    let decision = select_resource(&resources, &features, "local", None, None, None, None).unwrap();
    assert_eq!(decision.selected.requested_model, "standard-model");
    assert_eq!(decision.task_features, features);
    assert!(decision.reason.contains("unknown"));
    assert_eq!(decision.policy_version, "allocation-portfolio-v3");
    assert!(decision.capability.observed_at > 0);
    resources.profiles[1].no_overage_verified = false;
    assert!(select_resource(&resources, &features, "local", None, None, None, None).is_err());
}

#[test]
fn features_need_the_strong_tier_whatever_the_language() {
    let features = TaskFeatures {
        language: Some("c".into()),
        task_kind: TaskKind::Feature,
        scope: TaskScope::MultiFile,
    };
    let mut r = resources();
    let d = select_resource(&r, &features, "local", None, None, None, None).unwrap();
    assert_eq!(d.selected.tier, ResourceTier::Strong);
    r.profiles.retain(|p| p.tier != ResourceTier::Strong);
    assert!(select_resource(&r, &features, "local", None, None, None, None).is_err());
}

#[test]
fn an_excluded_profile_is_passed_over_and_says_why() {
    let features = TaskFeatures {
        language: None,
        task_kind: TaskKind::Tests,
        scope: TaskScope::Localized,
    };
    let exclusions = vec![Some("pool is exhausted".to_string()), None, None];
    let d = select_resource_filtered(
        &resources(),
        &features,
        "local",
        None,
        None,
        None,
        None,
        &exclusions,
    )
    .unwrap();
    assert_eq!(d.selected.requested_model, "standard-model");
    assert!(!d.alternatives[0].eligible);
    assert_eq!(
        d.alternatives[0].exclusion.as_deref(),
        Some("pool is exhausted")
    );
}

#[test]
fn a_lane_lowers_or_raises_the_least_tier() {
    let features = TaskFeatures::default();
    let none = vec![None, None, None];
    for tier in [
        ResourceTier::Light,
        ResourceTier::Standard,
        ResourceTier::Strong,
    ] {
        let d = select_resource_filtered_lane(
            &resources(),
            &features,
            "local",
            None,
            None,
            None,
            None,
            &none,
            Some(tier),
        )
        .unwrap();
        assert_eq!(d.selected.tier, tier);
    }
}

#[test]
fn recognizing_c_does_not_lower_feature_suitability() {
    let features = TaskFeatures {
        language: Some("c".into()),
        task_kind: TaskKind::Feature,
        scope: TaskScope::MultiFile,
    };
    let mut r = resources();
    let d = select_resource(&r, &features, "local", None, None, None, None).unwrap();
    assert_eq!(d.selected.tier, ResourceTier::Strong);
    r.profiles.retain(|p| p.tier != ResourceTier::Strong);
    assert!(select_resource(&r, &features, "local", None, None, None, None).is_err());
}

#[test]
fn natural_goal_without_paths_uses_standard_and_preserves_unknown_features() {
    let features = TaskFeatures {
        language: Some("c".into()),
        task_kind: TaskKind::Unknown,
        scope: TaskScope::Unknown,
    };
    let mut resources = resources();
    resources.profiles.retain(|p| p.tier != ResourceTier::Strong);
    let decision =
        select_resource(&resources, &features, "local", None, None, None, None).unwrap();
    assert_eq!(decision.selected.requested_model, "standard-model");
    assert_eq!(decision.task_features, features);
    assert!(decision.reason.contains("unknown"));
    assert_eq!(decision.policy_version, "allocation-portfolio-v3");
    resources.profiles[1].no_overage_verified = false;
    assert!(select_resource(&resources, &features, "local", None, None, None, None).is_err());
}

#[test]
fn the_first_suitable_profile_in_order_is_selected() {
    let features = TaskFeatures {
        language: None,
        task_kind: TaskKind::BugFix,
        scope: TaskScope::Localized,
    };
    let mut r = resources();
    r.profiles.reverse();
    let d = select_resource(&r, &features, "local", None, None, None, None).unwrap();
    assert_eq!(d.selected.requested_model, "strong-model");
    assert_eq!(
        d.reason,
        "Minimum suitable lane is standard; the first available configured strong resource was selected."
    );
    r.profiles[0].enabled = false;
    let d = select_resource(&r, &features, "local", None, None, None, None).unwrap();
    assert_eq!(d.selected.requested_model, "standard-model");
}

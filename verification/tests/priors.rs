use dispatch::digest::text_hash;
use dispatch::public_priors::{
    content_id, open_database, opened, place_entries, refresh, BenchmarkPrior, InstalledSnapshot, Place,
    PublicPriorEntryV1, PublicPriorSnapshotV1, RefreshResult,
};
use dispatch::router::{TaskKind, TaskScope};

fn prior(harness: &str, updated_at: i64) -> BenchmarkPrior {
    BenchmarkPrior {
        source: "public".into(),
        dataset: "set".into(),
        dataset_version: "1".into(),
        harness: harness.into(),
        model: None,
        language: Some("rust".into()),
        task_kind: TaskKind::Tests,
        scope: TaskScope::Localized,
        successes: 3,
        attempts: 4,
        updated_at,
    }
}

#[test]
fn snapshots_are_canonical_and_valid() {
    let s = PublicPriorSnapshotV1::from_priors(vec![prior("codex", 5), prior("agent", 9)]).unwrap();
    assert_eq!(s.generated_at, 9);
    let order: Vec<&str> = s.entries.iter().map(|e| e.harness.as_str()).collect();
    assert_eq!(order, ["agent", "codex"]);
    assert_eq!(s.validate(), Ok(()));
    assert_eq!(s.snapshot_id, content_id(&s.entries));
    assert_eq!(
        PublicPriorSnapshotV1::from_priors(vec![]),
        Err("public prior snapshot has no entries".to_string())
    );
    let mut swapped = s.clone();
    swapped.entries.swap(0, 1);
    assert_eq!(
        swapped.validate(),
        Err("public prior entries are not canonically sorted".to_string())
    );
    let mut renamed = s.clone();
    renamed.snapshot_id = text_hash("other");
    assert_eq!(
        renamed.validate(),
        Err("public prior snapshot ID does not match its entries".to_string())
    );
    let mut newer = s;
    newer.schema_version = 2;
    assert_eq!(
        newer.validate(),
        Err("unsupported public prior schema version 2".to_string())
    );
}

#[test]
fn entries_count_truthfully_and_survive_the_round_trip() {
    let e = PublicPriorEntryV1::from_prior(prior("codex", 5));
    assert_eq!(e.to_prior(5), prior("codex", 5));
    assert_eq!(e.validate(), Ok(()));
    assert!(PublicPriorEntryV1 { successes: 5, ..e.clone() }.validate().is_err());
    assert_eq!(
        PublicPriorEntryV1 { source: " x".into(), ..e.clone() }.validate(),
        Err("public prior source must be non-empty without surrounding whitespace".to_string())
    );
    assert_eq!(
        PublicPriorEntryV1 { harness: "a\u{7}b".into(), ..e.clone() }.validate(),
        Err("public prior harness is malformed".to_string())
    );
    let later = PublicPriorEntryV1 { harness: "zeta".into(), ..e.clone() };
    assert_eq!(place_entries(&later, &e), Place::Last);
    assert_ne!(place_entries(&e, &later), Place::Last);
}

#[test]
fn downloaded_priors_stay_and_bundled_ones_are_renewed() {
    let installed = |from: &str| InstalledSnapshot {
        snapshot_id: "id".into(),
        installed_from: from.into(),
    };
    assert!(open_database(None, "id"));
    assert!(!open_database(Some(&installed("bundled")), "id"));
    assert!(open_database(Some(&installed("bundled")), "new"));
    assert!(!open_database(Some(&installed("download")), "new"));
    assert_eq!(refresh(Some(&installed("download")), "id"), RefreshResult::Current);
    assert_eq!(refresh(Some(&installed("download")), "new"), RefreshResult::Updated);
    assert_eq!(refresh(None, "new"), RefreshResult::Updated);
}

#[test]
fn a_second_open_installs_nothing() {
    for installed in [
        None,
        Some(InstalledSnapshot { snapshot_id: "old".into(), installed_from: "bundled".into() }),
        Some(InstalledSnapshot { snapshot_id: "new".into(), installed_from: "download".into() }),
    ] {
        let fetched = installed.clone().filter(|i| i.installed_from == "download");
        let first = opened(installed, "bundle");
        match fetched {
            Some(kept) => assert_eq!(first, kept),
            None => assert_eq!(
                (first.snapshot_id.as_str(), first.installed_from.as_str()),
                ("bundle", "bundled")
            ),
        }
        assert!(!open_database(Some(&first), "bundle"));
        assert_eq!(opened(Some(first.clone()), "bundle"), first);
    }
}

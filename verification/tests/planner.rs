use cosa_rojig_repoize::model::{RetainedBuild, SyncState, UncompressedImage};
use cosa_rojig_repoize::paths::{artifact_rel_path, meta_rel_path, object_key, state_key};
use cosa_rojig_repoize::planner::{
    RunError, build_inventory, latest_of, needs_update, plan_of, window_ids,
};
use cosa_rojig_repoize::basename;
use cosa_rojig_repoize::model::{Build, Builds};

fn retained(id: &str, path: &str, size: u64) -> RetainedBuild {
    RetainedBuild {
        buildid: String::from(id),
        rojig: UncompressedImage {
            path: String::from(path),
            size,
            sha256: String::from("0000"),
        },
    }
}

fn index(ids: &[&str]) -> Builds {
    Builds {
        schema_version: String::from("1.0.0"),
        builds: ids
            .iter()
            .map(|id| Build { id: String::from(*id), arches: vec![String::from("x86_64")] })
            .collect(),
    }
}

#[test]
fn basename_extracts_final_segment() {
    assert_eq!(basename(b"repo/prefix/foo-1.0.rpm"), b"foo-1.0.rpm".to_vec());
    assert_eq!(basename(b"foo-1.0.rpm"), b"foo-1.0.rpm".to_vec());
    assert_eq!(basename(b"a/b/c/d"), b"d".to_vec());
    assert_eq!(basename(b"trailing/"), b"".to_vec());
    assert_eq!(basename(b""), b"".to_vec());
}

#[test]
fn inventory_reduces_keys_to_basenames() {
    let keys = vec![
        Some(b"repo/prefix/foo-1.0.rpm".to_vec()),
        Some(b"repo/prefix/bar-2.0.rpm".to_vec()),
        Some(b"plain.rpm".to_vec()),
    ];
    let inv = build_inventory(&keys).unwrap();
    assert_eq!(
        inv,
        vec![b"foo-1.0.rpm".to_vec(), b"bar-2.0.rpm".to_vec(), b"plain.rpm".to_vec()]
    );
}

#[test]
fn inventory_missing_key_is_fatal() {
    let keys = vec![Some(b"repo/a.rpm".to_vec()), None];
    assert_eq!(build_inventory(&keys), Err(RunError::MissingKey));
}

#[test]
fn plan_keeps_only_absent_artifacts() {
    let r = vec![
        retained("B1", "foo-1.0.rpm", 10),
        retained("B2", "bar-2.0.rpm", 20),
        retained("B3", "baz-3.0.rpm", 30),
    ];
    let inv = vec![b"bar-2.0.rpm".to_vec()];
    let plan = plan_of(&r, &inv);
    let ids: Vec<&str> = plan.iter().map(|b| b.buildid.as_str()).collect();
    assert_eq!(ids, vec!["B1", "B3"]);
}

#[test]
fn plan_matches_regardless_of_prefix() {
    // An inventory key "repo/prefix/foo-1.0.rpm" is reduced to the
    // membership key "foo-1.0.rpm", which the manifest path matches.
    let keys = vec![Some(b"repo/prefix/foo-1.0.rpm".to_vec())];
    let inv = build_inventory(&keys).unwrap();
    let r = vec![retained("B1", "foo-1.0.rpm", 10)];
    let plan = plan_of(&r, &inv);
    assert!(plan.is_empty());
}

#[test]
fn plan_rerun_after_upload_is_empty() {
    let r = vec![
        retained("B1", "foo-1.0.rpm", 10),
        retained("B2", "bar-2.0.rpm", 20),
    ];
    let mut inv = vec![b"bar-2.0.rpm".to_vec()];
    let plan = plan_of(&r, &inv);
    assert_eq!(plan.len(), 1);
    // Upload everything the plan names, then plan again with the grown
    // inventory: nothing is left to do.
    for b in plan.iter() {
        inv.push(b.rojig.path.as_bytes().to_vec());
    }
    let again = plan_of(&r, &inv);
    assert!(again.is_empty());
}

#[test]
fn zero_history_inspects_nothing() {
    let idx = index(&["B1", "B2", "B3"]);
    assert!(window_ids(&idx, 0).is_empty());
}

#[test]
fn window_caps_at_history() {
    let idx = index(&["B1", "B2", "B3"]);
    assert_eq!(window_ids(&idx, 2), vec![String::from("B1"), String::from("B2")]);
    assert_eq!(window_ids(&idx, 10).len(), 3);
}

#[test]
fn latest_is_last_retained() {
    let r = vec![retained("B1", "a.rpm", 1), retained("B2", "b.rpm", 2)];
    assert_eq!(latest_of(&r), String::from("B2"));
}

#[test]
fn marker_update_decision() {
    let latest = String::from("B1");
    assert!(needs_update(&None, &latest));
    assert!(needs_update(&Some(SyncState { build: String::from("B0") }), &latest));
    assert!(!needs_update(&Some(SyncState { build: String::from("B1") }), &latest));
}

#[test]
fn relative_paths_and_keys() {
    let id = String::from("32.20201018.1.0");
    let arch = String::from("x86_64");
    let path = String::from("fedora-coreos-32-x86_64.rpm");
    let prefix = String::from("repo/prefix");
    assert_eq!(meta_rel_path(&id, &arch), "32.20201018.1.0/x86_64/meta.json");
    assert_eq!(
        artifact_rel_path(&id, &arch, &path),
        "32.20201018.1.0/x86_64/fedora-coreos-32-x86_64.rpm"
    );
    assert_eq!(object_key(&prefix, &path), "repo/prefix/fedora-coreos-32-x86_64.rpm");
    assert_eq!(state_key(&prefix), "repo/prefix/cosa-rojig-repoize-state.json");
}

use cosa_rojig_repoize::machine::{Action, Event, Outcome, Run};
use cosa_rojig_repoize::model::{
    Build, BuildMeta, BuildMetaImages, Builds, SyncState, UncompressedImage,
};
use cosa_rojig_repoize::planner::RunError;

fn index(ids: &[&str]) -> Builds {
    Builds {
        schema_version: String::from("1.0.0"),
        builds: ids
            .iter()
            .map(|id| Build { id: String::from(*id), arches: vec![String::from("x86_64")] })
            .collect(),
    }
}

fn meta_with_rojig(id: &str, path: &str, size: u64) -> BuildMeta {
    BuildMeta {
        buildid: String::from(id),
        images: BuildMetaImages {
            qemu: None,
            rojig: Some(UncompressedImage {
                path: String::from(path),
                size,
                sha256: String::from("0000"),
            }),
        },
    }
}

fn meta_without_rojig(id: &str) -> BuildMeta {
    BuildMeta {
        buildid: String::from(id),
        images: BuildMetaImages { qemu: None, rojig: None },
    }
}

#[test]
fn full_run_uploads_and_writes_marker() {
    let (run, action) = Run::new(String::from("x86_64"), 10);
    assert!(matches!(action, Action::ListInventory));

    let keys = vec![Some(b"repo/old-1.rpm".to_vec())];
    let (run, action) = run.step(Event::Inventory { keys });
    assert!(matches!(action, Ok(Action::FetchIndex)));

    let (run, action) = run.step(Event::Index { index: index(&["B1", "B2"]) });
    match action.unwrap() {
        Action::FetchMeta { id, arch } => {
            assert_eq!(id, "B1");
            assert_eq!(arch, "x86_64");
        },
        _ => panic!("expected a metadata fetch"),
    }

    let (run, action) = run.step(Event::Meta { meta: meta_with_rojig("B1", "new-1.rpm", 11) });
    match action.unwrap() {
        Action::FetchMeta { id, .. } => assert_eq!(id, "B2"),
        _ => panic!("expected a metadata fetch"),
    }

    let (run, action) = run.step(Event::Meta { meta: meta_with_rojig("B2", "new-2.rpm", 22) });
    assert!(matches!(action, Ok(Action::GetState)));

    let marker = Some(SyncState { build: String::from("B0") });
    let (run, action) = run.step(Event::State { marker });
    match action.unwrap() {
        Action::Upload { buildid, path, size } => {
            assert_eq!(buildid, "B1");
            assert_eq!(path, "new-1.rpm");
            assert_eq!(size, 11);
        },
        _ => panic!("expected an upload"),
    }

    let (run, action) = run.step(Event::Uploaded);
    match action.unwrap() {
        Action::Upload { buildid, path, size } => {
            assert_eq!(buildid, "B2");
            assert_eq!(path, "new-2.rpm");
            assert_eq!(size, 22);
        },
        _ => panic!("expected an upload"),
    }

    let (run, action) = run.step(Event::Uploaded);
    match action.unwrap() {
        Action::PutState { build } => assert_eq!(build, "B2"),
        _ => panic!("expected a marker write"),
    }

    let (_, action) = run.step(Event::MarkerWritten);
    match action.unwrap() {
        Action::Finish { outcome: Outcome::Synchronized { build } } => assert_eq!(build, "B2"),
        _ => panic!("expected a synchronized finish"),
    }
}

#[test]
fn no_rojig_builds_mutates_nothing() {
    let (run, _) = Run::new(String::from("x86_64"), 10);
    let (run, action) = run.step(Event::Inventory { keys: vec![] });
    assert!(matches!(action, Ok(Action::FetchIndex)));
    let (run, _) = run.step(Event::Index { index: index(&["B1", "B2"]) });
    let (run, action) = run.step(Event::Meta { meta: meta_without_rojig("B1") });
    assert!(matches!(action, Ok(Action::FetchMeta { .. })));
    let (_, action) = run.step(Event::Meta { meta: meta_without_rojig("B2") });
    match action.unwrap() {
        Action::Finish { outcome } => assert!(matches!(outcome, Outcome::NoRojigBuilds)),
        _ => panic!("expected the run to finish without storage mutations"),
    }
}

#[test]
fn empty_index_finishes_at_once() {
    let (run, _) = Run::new(String::from("x86_64"), 10);
    let (run, _) = run.step(Event::Inventory { keys: vec![] });
    let (_, action) = run.step(Event::Index { index: index(&[]) });
    match action.unwrap() {
        Action::Finish { outcome } => assert!(matches!(outcome, Outcome::NoRojigBuilds)),
        _ => panic!("expected the run to finish"),
    }
}

#[test]
fn zero_history_finishes_at_once() {
    let (run, _) = Run::new(String::from("x86_64"), 0);
    let (run, _) = run.step(Event::Inventory { keys: vec![] });
    let (_, action) = run.step(Event::Index { index: index(&["B1", "B2", "B3"]) });
    match action.unwrap() {
        Action::Finish { outcome } => assert!(matches!(outcome, Outcome::NoRojigBuilds)),
        _ => panic!("expected the run to finish"),
    }
}

#[test]
fn inspects_trailing_window_and_reports_already_synchronized() {
    // Index [B1, B2, B3] newest-first with history 2: only B1 and B2 are
    // inspected. Only B1 declares a rojig artifact, which storage already
    // holds; the stale marker is rewritten and the run reports the
    // location as already synchronized.
    let (run, _) = Run::new(String::from("x86_64"), 2);
    let keys = vec![Some(b"repo/prefix/rojig-b1.rpm".to_vec())];
    let (run, action) = run.step(Event::Inventory { keys });
    assert!(matches!(action, Ok(Action::FetchIndex)));

    let (run, action) = run.step(Event::Index { index: index(&["B1", "B2", "B3"]) });
    match action.unwrap() {
        Action::FetchMeta { id, .. } => assert_eq!(id, "B1"),
        _ => panic!("expected a metadata fetch"),
    }

    let (run, action) = run.step(Event::Meta { meta: meta_with_rojig("B1", "rojig-b1.rpm", 5) });
    match action.unwrap() {
        Action::FetchMeta { id, .. } => assert_eq!(id, "B2"),
        _ => panic!("expected a metadata fetch for the second build only"),
    }

    let (run, action) = run.step(Event::Meta { meta: meta_without_rojig("B2") });
    assert!(matches!(action, Ok(Action::GetState)));

    let marker = Some(SyncState { build: String::from("B0") });
    let (run, action) = run.step(Event::State { marker });
    match action.unwrap() {
        Action::PutState { build } => assert_eq!(build, "B1"),
        _ => panic!("expected a marker write, not an upload"),
    }

    let (_, action) = run.step(Event::MarkerWritten);
    match action.unwrap() {
        Action::Finish { outcome: Outcome::AlreadySynchronized { build } } => {
            assert_eq!(build, "B1")
        },
        _ => panic!("expected an already-synchronized finish"),
    }
}

#[test]
fn current_marker_is_not_rewritten() {
    let (run, _) = Run::new(String::from("x86_64"), 10);
    let keys = vec![Some(b"repo/rojig-b1.rpm".to_vec())];
    let (run, _) = run.step(Event::Inventory { keys });
    let (run, _) = run.step(Event::Index { index: index(&["B1"]) });
    let (run, action) = run.step(Event::Meta { meta: meta_with_rojig("B1", "rojig-b1.rpm", 5) });
    assert!(matches!(action, Ok(Action::GetState)));
    let marker = Some(SyncState { build: String::from("B1") });
    let (_, action) = run.step(Event::State { marker });
    match action.unwrap() {
        Action::Finish { outcome: Outcome::AlreadySynchronized { build } } => {
            assert_eq!(build, "B1")
        },
        _ => panic!("expected no marker write and no upload"),
    }
}

#[test]
fn listing_error_aborts_before_index_fetch() {
    let (run, _) = Run::new(String::from("x86_64"), 10);
    let keys = vec![Some(b"repo/a.rpm".to_vec()), None];
    let (_, action) = run.step(Event::Inventory { keys });
    assert!(matches!(action, Err(RunError::MissingKey)));
}

#[test]
fn out_of_order_event_is_refused() {
    let (run, _) = Run::new(String::from("x86_64"), 10);
    let (_, action) = run.step(Event::Uploaded);
    assert!(matches!(action, Err(RunError::UnexpectedEvent)));
}

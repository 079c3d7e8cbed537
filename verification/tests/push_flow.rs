use atomic_sync::error::CliError;
use atomic_sync::push::attach::{all_covered, select_attached, upload_warning, Attached};
use atomic_sync::push::{
    calculate_push_delta, has_diverged, start_push, Push, PushAction, PushEvent, PushPhase,
    PushSession, PushStart,
};
use atomic_sync::remote::RemoteLookup;
use atomic_sync::types::{ChangeHash, ChangeSet, LocalEntry, Merkle, RemoteEntry};

fn hash(n: u8) -> ChangeHash {
    ChangeHash::from_bytes([n; 32])
}

fn local(n: u8, sequence: u64) -> LocalEntry {
    LocalEntry {
        hash: hash(n),
        sequence,
        state: Merkle::zero(),
        message: Some(format!("change {}", n)),
        tagged: false,
    }
}

fn state(n: u8) -> Merkle {
    Merkle { bytes: [n; 32] }
}

/// A change after which the state is tagged.
fn tagged(n: u8, sequence: u64) -> LocalEntry {
    LocalEntry {
        state: state(n),
        tagged: true,
        ..local(n, sequence)
    }
}

fn remote(n: u8, sequence: u64) -> RemoteEntry {
    RemoteEntry {
        hash: hash(n),
        sequence,
        state: Merkle::zero(),
        message: None,
        tagged: false,
    }
}

fn begin(push: Push) -> PushSession {
    let lookup = RemoteLookup::Found("http://remote/code".to_string());
    match start_push(push, lookup, "main") {
        Ok(PushStart::Http(session, PushAction::Connect { url, config })) => {
            assert_eq!(url, "http://remote/code");
            assert_eq!(config.timeout_secs, 30);
            session
        }
        other => panic!("{:?}", other),
    }
}

/// Up to the point where the remote view's changelist is asked for.
fn until_changelist(push: Push, entries: Vec<LocalEntry>) -> PushSession {
    let mut session = begin(push);
    match session.step(PushEvent::Connected) {
        PushAction::QueryState { view } => assert_eq!(view, session.remote_view),
        other => panic!("{:?}", other),
    }
    match session.step(PushEvent::State { empty: false }) {
        PushAction::LoadHistory { view } => assert_eq!(view, session.local_view),
        other => panic!("{:?}", other),
    }
    match session.step(PushEvent::History(entries)) {
        PushAction::FetchChangelist { view, from } => {
            assert_eq!(view, session.remote_view);
            assert_eq!(from, 0);
        }
        other => panic!("{:?}", other),
    }
    session
}

fn uploaded(action: &PushAction) -> (ChangeHash, usize, usize) {
    match action {
        PushAction::Upload { change, number, total, .. } => (change.hash, *number, *total),
        other => panic!("{:?}", other),
    }
}

#[test]
fn delta_is_what_the_remote_lacks_in_dependency_order() {
    let mine = vec![local(3, 2), local(1, 0), local(2, 1), local(4, 3)];
    let theirs = vec![remote(1, 0)];
    let mut graph = ChangeSet::new();
    assert!(graph.insert(hash(4)));
    assert!(!graph.insert(hash(4)));
    let delta = calculate_push_delta(&mine, &theirs, &graph, false);
    let hashes: Vec<ChangeHash> = delta.iter().map(|c| c.hash).collect();
    assert_eq!(hashes, vec![hash(2), hash(3), hash(4)]);
    assert!(delta[0].needs_upload());
    assert!(!delta[2].needs_upload());
    assert_eq!(delta[1].message, Some("change 3".to_string()));

    let all = calculate_push_delta(&mine, &theirs, &graph, true);
    assert_eq!(all.len(), 4);
    assert_eq!(all[0].hash, hash(1));
    assert!(all[0].needs_upload());
    assert!(all[3].needs_upload());

    let up_to_date = calculate_push_delta(&vec![local(1, 0)], &theirs, &graph, false);
    assert!(up_to_date.is_empty());
}

#[test]
fn changes_of_the_same_place_keep_their_order() {
    let mine = vec![local(3, 5), local(1, 5), local(2, 4)];
    let delta = calculate_push_delta(&mine, &Vec::new(), &ChangeSet::new(), false);
    let hashes: Vec<ChangeHash> = delta.iter().map(|c| c.hash).collect();
    assert_eq!(hashes, vec![hash(2), hash(3), hash(1)]);
}

#[test]
fn divergence_is_a_remote_change_that_is_not_local() {
    let mine = vec![local(1, 0), local(2, 1)];
    assert!(!has_diverged(&mine, &vec![remote(1, 0)]));
    assert!(!has_diverged(&mine, &Vec::new()));
    assert!(has_diverged(&mine, &vec![remote(1, 0), remote(9, 1)]));
}

#[test]
fn grpc_addresses_leave_the_http_path() {
    let push = Push::new().with_remote("grpc://h:7777/o/r").with_dry_run(true);
    match start_push(push, RemoteLookup::NotFound, "main") {
        Ok(PushStart::Grpc { url, view, dry_run }) => {
            assert_eq!(url, "grpc://h:7777/o/r");
            assert_eq!(view, "main");
            assert!(dry_run);
        }
        other => panic!("{:?}", other),
    }
}

#[test]
fn unknown_remotes_are_refused() {
    match start_push(Push::new(), RemoteLookup::NotFound, "main") {
        Err(CliError::RemoteNotFound { name }) => assert_eq!(name, "origin"),
        other => panic!("{:?}", other),
    }
}

#[test]
fn dry_run_shows_and_stops() {
    let mut session = until_changelist(
        Push::new().with_dry_run(true),
        vec![local(1, 0), local(2, 1)],
    );
    match session.step(PushEvent::Changelist(vec![remote(1, 0)])) {
        PushAction::ShowPreview(preview) => {
            assert_eq!(preview.headline, "Would push 1 change to origin:");
            assert_eq!(preview.rows[0].hash, hash(2));
            assert_eq!(
                preview.hint,
                Some("Remote URL: http://remote/code".to_string())
            );
        }
        other => panic!("{:?}", other),
    }
    assert_eq!(session.phase, PushPhase::Finished);
    assert!(matches!(
        session.step(PushEvent::Uploaded),
        PushAction::Unexpected
    ));
}

#[test]
fn nothing_to_push() {
    let mut session = until_changelist(Push::new(), vec![local(1, 0)]);
    match session.step(PushEvent::Changelist(vec![remote(1, 0)])) {
        PushAction::UpToDate { text } => assert_eq!(text, "Already up to date"),
        other => panic!("{:?}", other),
    }
}

#[test]
fn diverged_histories_need_force() {
    let mut session = until_changelist(Push::new(), vec![local(1, 0), local(2, 1)]);
    match session.step(PushEvent::Changelist(vec![remote(1, 0), remote(9, 1)])) {
        PushAction::Refuse(CliError::Conflict { description }) => {
            assert_eq!(description, "Remote has changes not present locally");
        }
        other => panic!("{:?}", other),
    }

    let mut session = until_changelist(
        Push::new().with_force(true),
        vec![local(1, 0), local(2, 1)],
    );
    let action = session.step(PushEvent::Changelist(vec![remote(1, 0), remote(9, 1)]));
    assert_eq!(uploaded(&action), (hash(2), 1, 1));
}

#[test]
fn uploads_in_order_then_attestations_then_provenance() {
    let mut session = until_changelist(
        Push::new(),
        vec![local(3, 2), local(2, 1), local(1, 0)],
    );
    let action = session.step(PushEvent::Changelist(vec![remote(1, 0)]));
    assert_eq!(uploaded(&action), (hash(2), 1, 2));
    let action = session.step(PushEvent::Uploaded);
    assert_eq!(uploaded(&action), (hash(3), 2, 2));
    match session.step(PushEvent::Uploaded) {
        PushAction::FindAttestations { pushed } => assert_eq!(pushed, vec![hash(2), hash(3)]),
        other => panic!("{:?}", other),
    }
    let found = vec![
        Attached { hash: hash(50), covers: vec![hash(2)] },
        Attached { hash: hash(51), covers: vec![hash(2), hash(1)] },
        Attached { hash: hash(50), covers: vec![hash(2)] },
        Attached { hash: hash(52), covers: vec![hash(3), hash(2)] },
    ];
    match session.step(PushEvent::Found(found)) {
        PushAction::SendAttestation { hash: h } => assert_eq!(h, hash(50)),
        other => panic!("{:?}", other),
    }
    match session.step(PushEvent::Uploaded) {
        PushAction::SendAttestation { hash: h } => assert_eq!(h, hash(52)),
        other => panic!("{:?}", other),
    }
    match session.step(PushEvent::Failed) {
        PushAction::FindProvenance { pushed } => assert_eq!(pushed, vec![hash(2), hash(3)]),
        other => panic!("{:?}", other),
    }
    let graphs = vec![
        Attached { hash: hash(60), covers: vec![hash(3)] },
        Attached { hash: hash(61), covers: vec![] },
    ];
    match session.step(PushEvent::Found(graphs)) {
        PushAction::SendProvenance { hash: h } => assert_eq!(h, hash(60)),
        other => panic!("{:?}", other),
    }
    match session.step(PushEvent::Uploaded) {
        PushAction::SendProvenance { hash: h } => assert_eq!(h, hash(61)),
        other => panic!("{:?}", other),
    }
    match session.step(PushEvent::Uploaded) {
        PushAction::Complete { text } => assert_eq!(
            text,
            "Push complete: 2 changes uploaded, 1 attestation synced, \
             2 provenance graphs synced"
        ),
        other => panic!("{:?}", other),
    }
    assert_eq!(session.stats.total_uploaded(), 2);
    assert_eq!(session.stats.attestations_synced, 1);
}

#[test]
fn tagged_states_follow_the_changes() {
    let mine = vec![local(1, 0), tagged(2, 1), local(3, 2), tagged(4, 3)];
    let delta = calculate_push_delta(&mine, &Vec::new(), &ChangeSet::new(), false);
    let marks: Vec<bool> = delta.iter().map(|c| c.tagged).collect();
    assert_eq!(marks, vec![false, true, false, true]);

    let mut session = until_changelist(Push::new(), mine);
    session.step(PushEvent::Changelist(vec![remote(1, 0)]));
    session.step(PushEvent::Uploaded);
    session.step(PushEvent::Uploaded);
    for n in [2, 4] {
        match session.step(PushEvent::Uploaded) {
            PushAction::UploadTag { view, state: of } => {
                assert_eq!(view, "main");
                assert_eq!(of, state(n));
            }
            other => panic!("{:?}", other),
        }
    }
    assert!(matches!(
        session.step(PushEvent::Uploaded),
        PushAction::FindAttestations { .. }
    ));
    assert_eq!(session.stats.tags_uploaded, 2);
}

#[test]
fn a_tag_that_cannot_be_uploaded_ends_the_push() {
    let mut session = until_changelist(Push::new(), vec![tagged(1, 0), local(2, 1)]);
    session.step(PushEvent::Changelist(vec![remote(2, 1)]));
    assert!(matches!(
        session.step(PushEvent::Uploaded),
        PushAction::UploadTag { .. }
    ));
    assert!(matches!(session.step(PushEvent::Failed), PushAction::Abort));
}

#[test]
fn a_forked_view_gets_the_tags_of_its_changes() {
    let mut session = begin(Push::new().with_to_view("feature"));
    session.step(PushEvent::Connected);
    session.step(PushEvent::State { empty: true });
    session.step(PushEvent::History(vec![tagged(1, 0)]));
    session.step(PushEvent::State { empty: false });
    session.step(PushEvent::Changelist(vec![remote(1, 0)]));
    match session.step(PushEvent::Forked) {
        PushAction::UploadTag { view, state: of } => {
            assert_eq!(view, "feature");
            assert_eq!(of, state(1));
        }
        other => panic!("{:?}", other),
    }
    match session.step(PushEvent::Uploaded) {
        PushAction::Complete { text } => {
            assert_eq!(text, "Push complete: feature view created on origin");
        }
        other => panic!("{:?}", other),
    }
}

#[test]
fn the_history_of_the_pushed_view_is_loaded() {
    let mut session = begin(Push::new().with_from_view("feature"));
    session.step(PushEvent::Connected);
    match session.step(PushEvent::State { empty: false }) {
        PushAction::LoadHistory { view } => assert_eq!(view, "feature"),
        other => panic!("{:?}", other),
    }
}

#[test]
fn a_failed_upload_ends_the_push() {
    let mut session = until_changelist(Push::new(), vec![local(1, 0), local(2, 1)]);
    let action = session.step(PushEvent::Changelist(Vec::new()));
    match action {
        PushAction::QueryState { view } => assert_eq!(view, "dev"),
        other => panic!("{:?}", other),
    }
    let action = session.step(PushEvent::Failed);
    assert_eq!(uploaded(&action), (hash(1), 1, 2));
    assert!(matches!(session.step(PushEvent::Failed), PushAction::Abort));
    assert!(matches!(
        session.step(PushEvent::Uploaded),
        PushAction::Unexpected
    ));
}

#[test]
fn new_views_are_forked_from_the_default_view() {
    let mut session = begin(Push::new().with_to_view("feature"));
    session.step(PushEvent::Connected);
    session.step(PushEvent::State { empty: true });
    match session.step(PushEvent::History(vec![local(1, 0), local(2, 1)])) {
        PushAction::QueryState { view } => assert_eq!(view, "dev"),
        other => panic!("{:?}", other),
    }
    match session.step(PushEvent::State { empty: false }) {
        PushAction::FetchChangelist { view, from } => {
            assert_eq!(view, "dev");
            assert_eq!(from, 0);
        }
        other => panic!("{:?}", other),
    }
    match session.step(PushEvent::Changelist(vec![remote(1, 0), remote(7, 1)])) {
        PushAction::Fork { view, source } => {
            assert_eq!(view, "feature");
            assert_eq!(source, "dev");
        }
        other => panic!("{:?}", other),
    }
    let action = session.step(PushEvent::Forked);
    assert_eq!(uploaded(&action), (hash(2), 1, 1));
    session.step(PushEvent::Uploaded);
    session.step(PushEvent::Found(Vec::new()));
    match session.step(PushEvent::Found(Vec::new())) {
        PushAction::Complete { text } => assert_eq!(
            text,
            "Push complete: 1 change uploaded (forked 1 change from dev)"
        ),
        other => panic!("{:?}", other),
    }
}

#[test]
fn a_fork_can_be_all_there_is_to_do() {
    let mut session = begin(Push::new().with_to_view("feature"));
    session.step(PushEvent::Connected);
    session.step(PushEvent::State { empty: true });
    session.step(PushEvent::History(vec![local(1, 0)]));
    session.step(PushEvent::State { empty: false });
    assert!(matches!(
        session.step(PushEvent::Changelist(vec![remote(1, 0)])),
        PushAction::Fork { .. }
    ));
    match session.step(PushEvent::Forked) {
        PushAction::Complete { text } => {
            assert_eq!(text, "Push complete: feature view created on origin");
        }
        other => panic!("{:?}", other),
    }
}

#[test]
fn an_empty_default_view_is_no_source() {
    let mut session = begin(Push::new());
    session.step(PushEvent::Connected);
    session.step(PushEvent::State { empty: true });
    session.step(PushEvent::History(vec![local(1, 0)]));
    let action = session.step(PushEvent::State { empty: true });
    assert_eq!(uploaded(&action), (hash(1), 1, 1));
}

#[test]
fn the_default_view_is_not_its_own_source() {
    let mut session = begin(Push::new().with_to_view("dev"));
    session.step(PushEvent::Connected);
    session.step(PushEvent::State { empty: true });
    let action = session.step(PushEvent::History(vec![local(1, 0)]));
    assert_eq!(uploaded(&action), (hash(1), 1, 1));
}

#[test]
fn pushing_all_uploads_what_the_remote_has_too() {
    let mut session = until_changelist(
        Push::new().with_all(true),
        vec![local(2, 1), local(1, 0)],
    );
    let action = session.step(PushEvent::Changelist(vec![remote(1, 0)]));
    assert_eq!(uploaded(&action), (hash(1), 1, 2));
    let action = session.step(PushEvent::Uploaded);
    assert_eq!(uploaded(&action), (hash(2), 2, 2));
    session.step(PushEvent::Uploaded);
    session.step(PushEvent::Found(Vec::new()));
    match session.step(PushEvent::Found(Vec::new())) {
        PushAction::Complete { text } => {
            assert_eq!(text, "Push complete: 2 changes uploaded");
        }
        other => panic!("{:?}", other),
    }
}

#[test]
fn pushing_all_to_a_new_view_uploads_instead_of_forking() {
    let mut session = begin(Push::new().with_to_view("feature").with_all(true));
    session.step(PushEvent::Connected);
    session.step(PushEvent::State { empty: true });
    session.step(PushEvent::History(vec![local(1, 0)]));
    session.step(PushEvent::State { empty: false });
    let action = session.step(PushEvent::Changelist(vec![remote(1, 0)]));
    assert_eq!(uploaded(&action), (hash(1), 1, 1));
}

#[test]
fn steps_that_a_push_needs_end_it_when_they_fail() {
    let mut session = begin(Push::new());
    assert!(matches!(session.step(PushEvent::Failed), PushAction::Abort));

    let mut session = begin(Push::new());
    session.step(PushEvent::Connected);
    assert!(matches!(session.step(PushEvent::Failed), PushAction::Abort));

    let mut session = until_changelist(Push::new(), Vec::new());
    assert!(matches!(session.step(PushEvent::Failed), PushAction::Abort));
}

#[test]
fn attached_items_go_once_and_only_when_covered() {
    let pushed = vec![hash(1), hash(2)];
    assert!(all_covered(&vec![hash(2), hash(1)], &pushed));
    assert!(all_covered(&Vec::new(), &pushed));
    assert!(!all_covered(&vec![hash(3)], &pushed));
    let found = vec![
        Attached { hash: hash(9), covers: vec![hash(3)] },
        Attached { hash: hash(9), covers: vec![hash(1)] },
        Attached { hash: hash(8), covers: vec![hash(1)] },
        Attached { hash: hash(8), covers: vec![hash(1)] },
    ];
    assert_eq!(select_attached(&found, &pushed), vec![hash(8)]);
}

#[test]
fn upload_warning_shows_the_beginning_of_the_hash() {
    assert_eq!(
        upload_warning("attestation", "ABCDEFGHIJKLMNOP", "timed out"),
        "Failed to upload attestation ABCDEFGHIJKL: timed out"
    );
    assert_eq!(
        upload_warning("provenance graph", "ABCDEFGHIJKL", "no"),
        "Failed to upload provenance graph ABCDEFGHIJKL: no"
    );
}

use atomic_sync::error::CliError;
use atomic_sync::pull::grpc::{GrpcPullAction, GrpcPullEvent, GrpcPullStep};
use atomic_sync::pull::{
    calculate_pull_delta, find_local_only_changes, has_local_only_changes, run_grpc_pull,
    start_pull, Pull, PullAction, PullEvent, PullPhase, PullSession, PullStart,
};
use atomic_sync::remote::RemoteLookup;
use atomic_sync::transport::TokenRequest;
use atomic_sync::types::{ChangeHash, LocalEntry, Merkle, RemoteEntry};

fn hash(n: u8) -> ChangeHash {
    ChangeHash::from_bytes([n; 32])
}

fn local(n: u8, sequence: u64) -> LocalEntry {
    LocalEntry {
        hash: hash(n),
        sequence,
        state: Merkle::zero(),
        message: None,
        tagged: false,
    }
}

fn remote(n: u8, sequence: u64) -> RemoteEntry {
    RemoteEntry {
        hash: hash(n),
        sequence,
        state: Merkle::zero(),
        message: Some(format!("change {}", n)),
        tagged: n == 6,
    }
}

/// A change after which the state is tagged.
fn tagged(n: u8, sequence: u64) -> RemoteEntry {
    RemoteEntry {
        state: Merkle { bytes: [n; 32] },
        tagged: true,
        ..remote(n, sequence)
    }
}

fn begin(pull: Pull) -> PullSession {
    let lookup = RemoteLookup::Found("http://remote/code".to_string());
    match start_pull(pull, lookup, "main") {
        Ok(PullStart::Http(session, PullAction::Connect { url, .. })) => {
            assert_eq!(url, "http://remote/code");
            session
        }
        other => panic!("{:?}", other),
    }
}

fn until_history(pull: Pull, entries: Vec<RemoteEntry>) -> PullSession {
    let mut session = begin(pull);
    match session.step(PullEvent::Connected) {
        PullAction::QueryState { view } => assert_eq!(view, session.remote_view),
        other => panic!("{:?}", other),
    }
    match session.step(PullEvent::State) {
        PullAction::FetchChangelist { view, from } => {
            assert_eq!(view, session.remote_view);
            assert_eq!(from, 0);
        }
        other => panic!("{:?}", other),
    }
    match session.step(PullEvent::Changelist(entries)) {
        PullAction::LoadHistory { view } => assert_eq!(view, session.local_view),
        other => panic!("{:?}", other),
    }
    session
}

fn downloading(action: &PullAction) -> (ChangeHash, usize, usize) {
    match action {
        PullAction::Download { change, number, total } => (change.hash, *number, *total),
        other => panic!("{:?}", other),
    }
}

fn applying(action: &PullAction) -> ChangeHash {
    match action {
        PullAction::Apply { hash, view } => {
            assert_eq!(view, "main");
            *hash
        }
        other => panic!("{:?}", other),
    }
}

/// Local: A, B, C, D; remote: A, B, C, E, F.
#[test]
fn diverged_histories_warn_and_still_pull() {
    let mine = vec![local(1, 0), local(2, 1), local(3, 2), local(4, 3)];
    let theirs = vec![remote(1, 0), remote(2, 1), remote(3, 2), remote(5, 3), remote(6, 4)];
    assert!(has_local_only_changes(&mine, &theirs));
    assert_eq!(find_local_only_changes(&mine, &theirs), vec![hash(4)]);
    let delta = calculate_pull_delta(&theirs, &mine, false);
    let hashes: Vec<ChangeHash> = delta.iter().map(|c| c.hash).collect();
    assert_eq!(hashes, vec![hash(5), hash(6)]);
    assert!(!delta[0].tagged);
    assert!(delta[1].tagged);

    let mut session = until_history(Pull::new(), theirs);
    let action = session.step(PullEvent::History(mine));
    assert_eq!(session.local_only, vec![hash(4)]);
    assert_eq!(downloading(&action), (hash(5), 1, 2));
}

#[test]
fn pull_delta_is_in_dependency_order() {
    let theirs = vec![remote(3, 2), remote(1, 0), remote(2, 1)];
    let delta = calculate_pull_delta(&theirs, &vec![local(1, 0)], true);
    let hashes: Vec<ChangeHash> = delta.iter().map(|c| c.hash).collect();
    assert_eq!(hashes, vec![hash(1), hash(2), hash(3)]);
    assert_eq!(delta[0].message, Some("change 1".to_string()));
    assert!(!has_local_only_changes(&vec![local(1, 0)], &theirs));
    assert!(calculate_pull_delta(&vec![remote(1, 0)], &vec![local(1, 0)], false).is_empty());
}

#[test]
fn pull_dry_run_shows_and_stops() {
    let mut session = until_history(Pull::new().with_dry_run(true), vec![remote(1, 0)]);
    match session.step(PullEvent::History(Vec::new())) {
        PullAction::ShowPreview(preview) => {
            assert_eq!(preview.headline, "Would pull 1 change from origin:");
        }
        other => panic!("{:?}", other),
    }
    assert_eq!(session.phase, PullPhase::Finished);
}

#[test]
fn nothing_to_pull() {
    let mut session = until_history(Pull::new(), vec![remote(1, 0)]);
    match session.step(PullEvent::History(vec![local(1, 0)])) {
        PullAction::UpToDate { text } => assert_eq!(text, "Already up to date"),
        other => panic!("{:?}", other),
    }
}

#[test]
fn downloads_then_applies_then_updates_the_working_copy() {
    let mut session = until_history(Pull::new(), vec![remote(2, 1), remote(1, 0)]);
    let action = session.step(PullEvent::History(Vec::new()));
    assert_eq!(downloading(&action), (hash(1), 1, 2));
    let action = session.step(PullEvent::Saved { bytes: 10 });
    assert_eq!(downloading(&action), (hash(2), 2, 2));
    let action = session.step(PullEvent::Saved { bytes: 5 });
    assert_eq!(session.stats.bytes_transferred, 15);
    assert_eq!(applying(&action), hash(1));
    let action = session.step(PullEvent::Succeeded);
    assert_eq!(applying(&action), hash(2));
    assert!(matches!(
        session.step(PullEvent::Succeeded),
        PullAction::Materialize
    ));
    assert!(matches!(
        session.step(PullEvent::Failed),
        PullAction::QueryVault
    ));
    assert!(matches!(
        session.step(PullEvent::Vault(true)),
        PullAction::Enrich
    ));
    assert!(matches!(
        session.step(PullEvent::Failed),
        PullAction::MaterializeVault
    ));
    match session.step(PullEvent::Succeeded) {
        PullAction::Complete { text } => {
            assert_eq!(text, "Pull complete: 2 changes downloaded and applied");
        }
        other => panic!("{:?}", other),
    }
}

#[test]
fn a_change_that_cannot_be_saved_fails_the_pull() {
    let mut session = until_history(Pull::new(), vec![remote(1, 0), remote(2, 1)]);
    session.step(PullEvent::History(Vec::new()));
    let action = session.step(PullEvent::NotSaved);
    assert_eq!(downloading(&action), (hash(2), 2, 2));
    let action = session.step(PullEvent::Saved { bytes: 1 });
    assert_eq!(applying(&action), hash(1));
    let action = session.step(PullEvent::Failed);
    assert_eq!(applying(&action), hash(2));
    assert!(matches!(
        session.step(PullEvent::Succeeded),
        PullAction::Materialize
    ));
    session.step(PullEvent::Succeeded);
    match session.step(PullEvent::Vault(false)) {
        PullAction::Fail(CliError::Internal(text)) => {
            assert_eq!(text, "Pull completed with errors: 1 downloaded, 1 failed");
        }
        other => panic!("{:?}", other),
    }
    assert_eq!(session.phase, PullPhase::Finished);
}

#[test]
fn a_change_that_cannot_be_saved_fails_a_download() {
    let pull = Pull::new().with_download_only(true);
    let mut session = until_history(pull, vec![remote(1, 0), remote(2, 1)]);
    session.step(PullEvent::History(Vec::new()));
    session.step(PullEvent::Saved { bytes: 1 });
    match session.step(PullEvent::NotSaved) {
        PullAction::Fail(CliError::Internal(text)) => {
            assert_eq!(text, "Pull completed with errors: 1 downloaded, 1 failed");
        }
        other => panic!("{:?}", other),
    }
}

#[test]
fn tags_follow_the_changes() {
    let entries = vec![tagged(1, 0), remote(2, 1), tagged(3, 2)];
    let pull = Pull::new().with_download_only(true);
    let mut session = until_history(pull, entries);
    session.step(PullEvent::History(Vec::new()));
    session.step(PullEvent::Saved { bytes: 1 });
    session.step(PullEvent::Saved { bytes: 1 });
    match session.step(PullEvent::Saved { bytes: 1 }) {
        PullAction::DownloadTag { state } => assert_eq!(state, Merkle { bytes: [1; 32] }),
        other => panic!("{:?}", other),
    }
    match session.step(PullEvent::Succeeded) {
        PullAction::DownloadTag { state } => assert_eq!(state, Merkle { bytes: [3; 32] }),
        other => panic!("{:?}", other),
    }
    match session.step(PullEvent::Succeeded) {
        PullAction::Downloaded { text } => {
            assert_eq!(text, "Downloaded 3 changes (not applied)");
        }
        other => panic!("{:?}", other),
    }
}

#[test]
fn tags_come_after_the_working_copy_is_updated() {
    let mut session = until_history(Pull::new(), vec![tagged(1, 0)]);
    session.step(PullEvent::History(Vec::new()));
    session.step(PullEvent::Saved { bytes: 1 });
    session.step(PullEvent::Succeeded);
    session.step(PullEvent::Succeeded);
    assert!(matches!(
        session.step(PullEvent::Vault(false)),
        PullAction::DownloadTag { .. }
    ));
    assert!(matches!(session.step(PullEvent::Failed), PullAction::Abort));
}

#[test]
fn the_history_of_the_view_pulled_into_is_loaded() {
    let mut session = begin(Pull::new().with_to_view("mine").with_from_view("theirs"));
    session.step(PullEvent::Connected);
    session.step(PullEvent::State);
    match session.step(PullEvent::Changelist(Vec::new())) {
        PullAction::LoadHistory { view } => assert_eq!(view, "mine"),
        other => panic!("{:?}", other),
    }
}

#[test]
fn nothing_applied_leaves_the_working_copy() {
    let mut session = until_history(Pull::new(), vec![remote(1, 0)]);
    session.step(PullEvent::History(Vec::new()));
    session.step(PullEvent::Saved { bytes: 1 });
    match session.step(PullEvent::Failed) {
        PullAction::Complete { text } => {
            assert_eq!(text, "Pull complete: 1 change downloaded and applied");
        }
        other => panic!("{:?}", other),
    }
}

#[test]
fn a_failed_download_ends_the_pull() {
    let mut session = until_history(Pull::new(), vec![remote(1, 0), remote(2, 1)]);
    session.step(PullEvent::History(Vec::new()));
    assert!(matches!(session.step(PullEvent::Failed), PullAction::Abort));
    assert_eq!(session.stats.changes_failed, 1);
    assert!(matches!(
        session.step(PullEvent::Saved { bytes: 1 }),
        PullAction::Unexpected
    ));
}

#[test]
fn download_only_stops_before_applying() {
    let mut session = until_history(Pull::new().with_download_only(true), vec![remote(1, 0)]);
    session.step(PullEvent::History(Vec::new()));
    match session.step(PullEvent::Saved { bytes: 1 }) {
        PullAction::Downloaded { text } => {
            assert_eq!(text, "Downloaded 1 change (not applied)");
        }
        other => panic!("{:?}", other),
    }
    assert_eq!(session.phase, PullPhase::Finished);
}

#[test]
fn pull_over_grpc_is_told_apart() {
    let pull = Pull::new()
        .with_remote("grpcs://h/o/r")
        .with_from_view("prod")
        .with_download_only(true);
    match start_pull(pull, RemoteLookup::NotFound, "main") {
        Ok(PullStart::Grpc { url, view, local_view, dry_run, download_only }) => {
            assert_eq!(url, "grpcs://h/o/r");
            assert_eq!(view, "prod");
            assert_eq!(local_view, "main");
            assert!(!dry_run);
            assert!(download_only);
        }
        other => panic!("{:?}", other),
    }
    match start_pull(Pull::new(), RemoteLookup::Failed("gone".to_string()), "main") {
        Err(CliError::Repository(why)) => assert_eq!(why, "gone"),
        other => panic!("{:?}", other),
    }
}

#[test]
fn grpc_dry_run_says_what_it_would_do() {
    let (pull, action) = run_grpc_pull("grpc://h:7777/ann/proj", "dev", "main", true, false);
    match action {
        GrpcPullAction::ShowDryRun { headline, remark } => {
            assert_eq!(headline, "Dry run: would pull from ann/proj view=dev");
            assert_eq!(
                remark,
                "(gRPC dry run does not compute exact delta without connecting)"
            );
        }
        other => panic!("{:?}", other),
    }
    assert_eq!(pull.step, GrpcPullStep::Finished);
}

#[test]
fn grpc_pull_with_a_token_from_the_environment() {
    let (mut pull, action) = run_grpc_pull("grpc://h:7777/ann/proj", "dev", "main", false, false);
    assert!(matches!(
        action,
        GrpcPullAction::ReadEnv { name: "ATOMIC_GRPC_TOKEN" }
    ));
    match pull.advance(GrpcPullEvent::Env(Some("jwt".to_string()))) {
        GrpcPullAction::Connect { grpc_url, token } => {
            assert_eq!(grpc_url, "grpc://h:7777/ann/proj");
            assert_eq!(token, "jwt");
        }
        other => panic!("{:?}", other),
    }
    match pull.advance(GrpcPullEvent::Connected) {
        GrpcPullAction::Pull { owner, repo, view } => {
            assert_eq!(owner, "ann");
            assert_eq!(repo, "proj");
            assert_eq!(view, "dev");
        }
        other => panic!("{:?}", other),
    }
    let changes: Vec<ChangeHash> = (1..13).map(hash).collect();
    let mut action = pull.advance(GrpcPullEvent::Pulled { changes: changes.clone() });
    for (i, change) in changes.iter().enumerate() {
        match action {
            GrpcPullAction::Apply { hash, view } => {
                assert_eq!(hash, *change);
                assert_eq!(view, "main");
            }
            other => panic!("{:?}", other),
        }
        action = if i == 3 {
            pull.advance(GrpcPullEvent::Failed("missing dependency".to_string()))
        } else {
            pull.advance(GrpcPullEvent::Applied)
        };
    }
    match action {
        GrpcPullAction::Complete { text } => {
            assert_eq!(text, "Pull complete: 12 new change(s) downloaded");
        }
        other => panic!("{:?}", other),
    }
    assert_eq!(pull.step, GrpcPullStep::Finished);
}

#[test]
fn grpc_download_only_applies_nothing() {
    let (mut pull, _) = run_grpc_pull("grpc://h:7777/ann/proj", "dev", "main", false, true);
    pull.advance(GrpcPullEvent::Env(Some("jwt".to_string())));
    pull.advance(GrpcPullEvent::Connected);
    match pull.advance(GrpcPullEvent::Pulled { changes: vec![hash(1), hash(2)] }) {
        GrpcPullAction::Complete { text } => {
            assert_eq!(text, "Downloaded 2 changes (not applied)");
        }
        other => panic!("{:?}", other),
    }
    assert!(matches!(
        pull.advance(GrpcPullEvent::Applied),
        GrpcPullAction::Unexpected
    ));
}

#[test]
fn grpc_pull_asks_for_credentials() {
    let (mut pull, _) = run_grpc_pull("grpc://h:7777", "dev", "main", false, false);
    assert_eq!(pull.owner, "default");
    assert_eq!(pull.repo, "default");
    assert!(matches!(
        pull.advance(GrpcPullEvent::Env(Some(String::new()))),
        GrpcPullAction::Prompt
    ));
    let request = TokenRequest {
        username: "ann".to_string(),
        password: "pw".to_string(),
    };
    match pull.advance(GrpcPullEvent::Credentials(request)) {
        GrpcPullAction::RequestToken { request, .. } => assert_eq!(request.username, "ann"),
        other => panic!("{:?}", other),
    }
    assert!(matches!(
        pull.advance(GrpcPullEvent::Token("t".to_string())),
        GrpcPullAction::Connect { .. }
    ));
    pull.advance(GrpcPullEvent::Connected);
    match pull.advance(GrpcPullEvent::Pulled { changes: Vec::new() }) {
        GrpcPullAction::Complete { text } => assert_eq!(text, "Already up to date"),
        other => panic!("{:?}", other),
    }
}

#[test]
fn grpc_pull_blames_the_step_that_failed() {
    let fail = || GrpcPullEvent::Failed("why".to_string());
    let text = |action: GrpcPullAction| match action {
        GrpcPullAction::Fail(CliError::Internal(text)) => text,
        other => panic!("{:?}", other),
    };
    let start = || {
        let (mut pull, _) = run_grpc_pull("grpc://h:7777/o/r", "dev", "main", false, false);
        pull.advance(GrpcPullEvent::Env(None));
        pull
    };
    let request = || TokenRequest {
        username: "u".to_string(),
        password: "p".to_string(),
    };
    let mut pull = start();
    assert_eq!(text(pull.advance(fail())), "prompt error: why");
    let mut pull = start();
    pull.advance(GrpcPullEvent::Credentials(request()));
    assert_eq!(text(pull.advance(fail())), "authentication failed: why");
    let mut pull = start();
    pull.advance(GrpcPullEvent::Credentials(request()));
    pull.advance(GrpcPullEvent::Token("t".to_string()));
    assert_eq!(text(pull.advance(fail())), "gRPC connect: why");
    let mut pull = start();
    pull.advance(GrpcPullEvent::Credentials(request()));
    pull.advance(GrpcPullEvent::Token("t".to_string()));
    pull.advance(GrpcPullEvent::Connected);
    assert_eq!(text(pull.advance(fail())), "gRPC pull: why");
    assert!(matches!(
        pull.advance(GrpcPullEvent::Connected),
        GrpcPullAction::Unexpected
    ));
}

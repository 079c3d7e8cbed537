use std::time::Duration;

use atomic_sync::error::CliError;
use atomic_sync::push::{
    Push, PushChange, PushOutcome, PushStats, DEFAULT_REMOTE, DEFAULT_TIMEOUT_SECS,
};
use atomic_sync::remote::RemoteLookup;
use atomic_sync::text::format_count;
use atomic_sync::types::{ChangeHash, Merkle};

fn hash(n: u8) -> ChangeHash {
    ChangeHash::from_bytes([n; 32])
}

#[test]
fn test_push_new() {
    let push = Push::new();
    assert_eq!(push.remote, "origin");
    assert!(push.to_view.is_none());
    assert!(push.from_view.is_none());
    assert!(!push.dry_run);
    assert!(!push.force);
    assert!(!push.all);
    assert!(!push.insecure);
    assert_eq!(push.timeout, DEFAULT_TIMEOUT_SECS);
}

#[test]
fn test_push_default() {
    let push = Push::default();
    assert_eq!(push.remote, "origin");
}

#[test]
fn test_push_with_remote() {
    let push = Push::new().with_remote("upstream");
    assert_eq!(push.remote, "upstream");
}

#[test]
fn test_push_with_remote_url() {
    let push = Push::new().with_remote("https://example.com/repo");
    assert_eq!(push.remote, "https://example.com/repo");
}

#[test]
fn test_push_with_to_view() {
    let push = Push::new().with_to_view("main");
    assert_eq!(push.to_view, Some("main".to_string()));
}

#[test]
fn test_push_with_from_view() {
    let push = Push::new().with_from_view("dev");
    assert_eq!(push.from_view, Some("dev".to_string()));
}

#[test]
fn test_push_with_dry_run() {
    let push = Push::new().with_dry_run(true);
    assert!(push.dry_run);

    let push2 = push.with_dry_run(false);
    assert!(!push2.dry_run);
}

#[test]
fn test_push_with_force() {
    let push = Push::new().with_force(true);
    assert!(push.force);
}

#[test]
fn test_push_with_all() {
    let push = Push::new().with_all(true);
    assert!(push.all);
}

#[test]
fn test_push_with_insecure() {
    let push = Push::new().with_insecure(true);
    assert!(push.insecure);
}

#[test]
fn test_push_with_timeout() {
    let push = Push::new().with_timeout(60);
    assert_eq!(push.timeout, 60);
}

#[test]
fn test_push_builder_chain() {
    let push = Push::new()
        .with_remote("upstream")
        .with_to_view("main")
        .with_from_view("feature")
        .with_dry_run(true)
        .with_force(false)
        .with_all(true)
        .with_insecure(true)
        .with_timeout(120);

    assert_eq!(push.remote, "upstream");
    assert_eq!(push.to_view, Some("main".to_string()));
    assert_eq!(push.from_view, Some("feature".to_string()));
    assert!(push.dry_run);
    assert!(!push.force);
    assert!(push.all);
    assert!(push.insecure);
    assert_eq!(push.timeout, 120);
}

#[test]
fn test_push_clone() {
    let push = Push::new().with_remote("test").with_dry_run(true);
    let cloned = push.clone();

    assert_eq!(push.remote, cloned.remote);
    assert_eq!(push.dry_run, cloned.dry_run);
}

#[test]
fn test_push_debug() {
    let push = Push::new();
    let debug_str = format!("{:?}", push);

    assert!(debug_str.contains("Push"));
    assert!(debug_str.contains("origin"));
}

#[test]
fn command_test_get_remote_view_explicit() {
    let push = Push::new().with_to_view("main");
    assert_eq!(push.get_remote_view("dev"), "main");
}

#[test]
fn command_test_get_remote_view_default() {
    let push = Push::new();
    assert_eq!(push.get_remote_view("dev"), "dev");
}

#[test]
fn command_test_build_remote_config_default() {
    let push = Push::new();
    let config = push.build_remote_config("http://test.localhost:8080/code");

    assert_eq!(
        Duration::from_secs(config.timeout_secs),
        Duration::from_secs(DEFAULT_TIMEOUT_SECS)
    );
    assert!(!config.danger_accept_invalid_certs);
    assert_eq!(config.identity_url, "http://test.localhost:8080/code");
}

#[test]
fn command_test_build_remote_config_custom_timeout() {
    let push = Push::new().with_timeout(120);
    let config = push.build_remote_config("http://test.localhost:8080/code");

    assert_eq!(
        Duration::from_secs(config.timeout_secs),
        Duration::from_secs(120)
    );
}

#[test]
fn command_test_build_remote_config_insecure() {
    let push = Push::new().with_insecure(true);
    let config = push.build_remote_config("http://test.localhost:8080/code");

    assert!(config.danger_accept_invalid_certs);
}

#[test]
fn command_test_default_remote() {
    assert_eq!(DEFAULT_REMOTE, "origin");
}

#[test]
fn command_test_default_timeout() {
    assert_eq!(DEFAULT_TIMEOUT_SECS, 30);
}

#[test]
fn test_push_reexported() {
    let push = Push::new();
    assert_eq!(push.remote, DEFAULT_REMOTE);
}

#[test]
fn test_push_change_reexported() {
    let mut bytes = [0u8; 32];
    bytes[..4].copy_from_slice(b"test");
    let change = PushChange::new(ChangeHash::from_bytes(bytes), 0, Merkle::zero());
    assert_eq!(change.sequence, 0);
    assert!(change.needs_upload());
    assert!(change.message.is_none());
}

#[test]
fn test_push_stats_reexported() {
    let stats = PushStats::new();
    assert_eq!(stats.total_uploaded(), 0);
}

#[test]
fn test_push_outcome_reexported() {
    let outcome = PushOutcome::default();
    assert!(outcome.is_success());
}

#[test]
fn mod_test_format_count_reexported() {
    assert_eq!(format_count(1, "change"), "1 change");
    assert_eq!(format_count(5, "change"), "5 changes");
}

#[test]
fn mod_test_default_constants() {
    assert_eq!(DEFAULT_REMOTE, "origin");
    assert_eq!(DEFAULT_TIMEOUT_SECS, 30);
}

#[test]
fn push_local_view_is_the_chosen_or_the_current_one() {
    assert_eq!(Push::new().get_local_view("dev"), "dev");
    assert_eq!(Push::new().with_from_view("x").get_local_view("dev"), "x");
}

#[test]
fn push_resolves_addresses_and_names() {
    let push = Push::new().with_remote("https://example.com/repo");
    let url = push.resolve_remote_url(RemoteLookup::NotFound);
    assert_eq!(url.unwrap(), "https://example.com/repo");

    let push = Push::new().with_remote("upstream");
    let url = push.resolve_remote_url(RemoteLookup::Found("http://up".to_string()));
    assert_eq!(url.unwrap(), "http://up");

    match push.resolve_remote_url(RemoteLookup::NotFound) {
        Err(CliError::RemoteNotFound { name }) => assert_eq!(name, "upstream"),
        other => panic!("{:?}", other),
    }
    match push.resolve_remote_url(RemoteLookup::Failed("no config".to_string())) {
        Err(CliError::Repository(why)) => assert_eq!(why, "no config"),
        other => panic!("{:?}", other),
    }
}

#[test]
fn push_preview_lists_the_changes() {
    let push = Push::new();
    let nothing = push.display_dry_run("http://r", &Vec::new());
    assert_eq!(nothing.headline, "Already up to date - nothing to push");
    assert!(nothing.rows.is_empty());
    assert!(nothing.hint.is_none());

    let mut first = PushChange::new(hash(1), 0, Merkle::zero());
    first.message = Some("Add authentication module".to_string());
    let changes = vec![
        first,
        PushChange::new(hash(2), 1, Merkle::zero()),
        PushChange::new(hash(3), 2, Merkle::zero()),
    ];
    let preview = push.display_dry_run("http://r", &changes);
    assert_eq!(preview.headline, "Would push 3 changes to origin:");
    assert_eq!(preview.rows.len(), 3);
    assert_eq!(preview.rows[0].hash, hash(1));
    assert_eq!(
        preview.rows[0].message,
        Some("Add authentication module".to_string())
    );
    assert_eq!(preview.rows[1].message, None);
    assert_eq!(preview.rows[2].marker, "");
    assert_eq!(preview.hint, Some("Remote URL: http://r".to_string()));
}

use atomic_sync::error::CliError;
use atomic_sync::pull::{
    Pull, PullChange, PullOutcome, PullStats, DEFAULT_REMOTE, DEFAULT_TIMEOUT_SECS,
};
use atomic_sync::remote::RemoteLookup;
use atomic_sync::text::format_count;
use atomic_sync::types::{ChangeHash, Merkle};

fn hash(n: u8) -> ChangeHash {
    ChangeHash::from_bytes([n; 32])
}

#[test]
fn test_pull_new() {
    let pull = Pull::new();

    assert_eq!(pull.remote, DEFAULT_REMOTE);
    assert!(pull.to_view.is_none());
    assert!(pull.from_view.is_none());
    assert!(!pull.dry_run);
    assert!(!pull.all);
    assert!(!pull.insecure);
    assert_eq!(pull.timeout, DEFAULT_TIMEOUT_SECS);
    assert!(!pull.download_only);
}

#[test]
fn test_pull_default() {
    let pull: Pull = Default::default();
    assert_eq!(pull.remote, DEFAULT_REMOTE);
}

#[test]
fn test_pull_with_remote() {
    let pull = Pull::new().with_remote("upstream");
    assert_eq!(pull.remote, "upstream");
}

#[test]
fn test_pull_with_remote_url() {
    let pull = Pull::new().with_remote("https://example.com/repo");
    assert_eq!(pull.remote, "https://example.com/repo");
}

#[test]
fn test_pull_with_to_view() {
    let pull = Pull::new().with_to_view("feature");
    assert_eq!(pull.to_view, Some("feature".to_string()));
}

#[test]
fn test_pull_with_from_view() {
    let pull = Pull::new().with_from_view("main");
    assert_eq!(pull.from_view, Some("main".to_string()));
}

#[test]
fn test_pull_with_dry_run() {
    let pull = Pull::new().with_dry_run(true);
    assert!(pull.dry_run);

    let pull = Pull::new().with_dry_run(false);
    assert!(!pull.dry_run);
}

#[test]
fn test_pull_with_all() {
    let pull = Pull::new().with_all(true);
    assert!(pull.all);
}

#[test]
fn test_pull_with_insecure() {
    let pull = Pull::new().with_insecure(true);
    assert!(pull.insecure);
}

#[test]
fn test_pull_with_timeout() {
    let pull = Pull::new().with_timeout(60);
    assert_eq!(pull.timeout, 60);
}

#[test]
fn test_pull_with_download_only() {
    let pull = Pull::new().with_download_only(true);
    assert!(pull.download_only);
}

#[test]
fn test_pull_builder_chain() {
    let pull = Pull::new()
        .with_remote("upstream")
        .with_to_view("feature")
        .with_from_view("main")
        .with_dry_run(true)
        .with_all(true)
        .with_insecure(true)
        .with_timeout(120)
        .with_download_only(true);

    assert_eq!(pull.remote, "upstream");
    assert_eq!(pull.to_view, Some("feature".to_string()));
    assert_eq!(pull.from_view, Some("main".to_string()));
    assert!(pull.dry_run);
    assert!(pull.all);
    assert!(pull.insecure);
    assert_eq!(pull.timeout, 120);
    assert!(pull.download_only);
}

#[test]
fn test_pull_clone() {
    let original = Pull::new().with_remote("test").with_dry_run(true);

    let cloned = original.clone();

    assert_eq!(cloned.remote, "test");
    assert!(cloned.dry_run);
}

#[test]
fn test_pull_debug() {
    let pull = Pull::new();
    let debug_str = format!("{:?}", pull);

    assert!(debug_str.contains("Pull"));
}

#[test]
fn test_get_remote_view_explicit() {
    let pull = Pull::new().with_from_view("production");
    assert_eq!(pull.get_remote_view("dev"), "production");
}

#[test]
fn test_get_remote_view_default() {
    let pull = Pull::new();
    assert_eq!(pull.get_remote_view("feature"), "feature");
}

#[test]
fn test_build_remote_config_default() {
    let pull = Pull::new();
    let config = pull.build_remote_config("http://test.localhost:8080/code");
    assert!(std::mem::size_of_val(&config) > 0);
    assert_eq!(config.timeout_secs, 30);
    assert!(!config.danger_accept_invalid_certs);
    assert_eq!(config.identity_url, "http://test.localhost:8080/code");
}

#[test]
fn test_build_remote_config_custom_timeout() {
    let pull = Pull::new().with_timeout(120);
    let config = pull.build_remote_config("http://test.localhost:8080/code");
    assert!(std::mem::size_of_val(&config) > 0);
    assert_eq!(config.timeout_secs, 120);
}

#[test]
fn test_build_remote_config_insecure() {
    let pull = Pull::new().with_insecure(true);
    let config = pull.build_remote_config("http://test.localhost:8080/code");
    assert!(std::mem::size_of_val(&config) > 0);
    assert!(config.danger_accept_invalid_certs);
}

#[test]
fn test_default_remote() {
    assert_eq!(DEFAULT_REMOTE, "origin");
}

#[test]
fn test_default_timeout() {
    assert_eq!(DEFAULT_TIMEOUT_SECS, 30);
}

#[test]
fn test_pull_reexported() {
    let pull = Pull::new();
    assert_eq!(pull.remote, DEFAULT_REMOTE);
}

#[test]
fn test_pull_change_reexported() {
    let mut bytes = [0u8; 32];
    bytes[..4].copy_from_slice(b"test");
    let change = PullChange::new(ChangeHash::from_bytes(bytes), 0, Merkle::zero());
    assert_eq!(change.sequence, 0);
    assert!(!change.tagged);
}

#[test]
fn test_pull_stats_reexported() {
    let stats = PullStats::new();
    assert_eq!(stats.total_downloaded(), 0);
}

#[test]
fn test_pull_outcome_reexported() {
    let outcome = PullOutcome::default();
    assert!(outcome.is_success());
}

#[test]
fn test_format_count_reexported() {
    assert_eq!(format_count(1, "change"), "1 change");
    assert_eq!(format_count(5, "change"), "5 changes");
}

#[test]
fn test_default_constants() {
    assert_eq!(DEFAULT_REMOTE, "origin");
    assert_eq!(DEFAULT_TIMEOUT_SECS, 30);
}

#[test]
fn test_pull_outcome_dry_run() {
    let outcome = PullOutcome::dry_run(PullStats::new());
    assert!(outcome.dry_run);
    assert!(outcome.is_success());
}

#[test]
fn test_pull_stats_tracking() {
    let mut stats = PullStats::new();
    assert!(!stats.has_downloads());

    stats.record_change_downloaded(1024);
    assert!(stats.has_downloads());
    assert_eq!(stats.changes_downloaded, 1);
    assert_eq!(stats.bytes_transferred, 1024);
}

#[test]
fn pull_stats_tell_failures_and_applied_changes() {
    let mut stats = PullStats::new();
    stats.record_applied();
    assert!(stats.has_applied());
    assert!(!stats.has_failures());
    stats.record_failed();
    assert!(stats.has_failures());
    assert_eq!(stats.changes_failed, 1);
    let outcome = PullOutcome { stats, dry_run: false };
    assert!(!outcome.is_success());
}

#[test]
fn pull_stats_stop_at_their_highest() {
    let mut stats = PullStats::new();
    stats.record_change_downloaded(u64::MAX);
    stats.record_change_downloaded(1);
    assert_eq!(stats.bytes_transferred, u64::MAX);
    assert_eq!(stats.changes_downloaded, 2);
}

#[test]
fn pull_local_view_is_the_chosen_or_the_current_one() {
    assert_eq!(Pull::new().get_local_view("dev"), "dev");
    assert_eq!(Pull::new().with_to_view("x").get_local_view("dev"), "x");
}

#[test]
fn pull_resolves_addresses_and_names() {
    let pull = Pull::new().with_remote("grpc://h:1/o/r");
    let url = pull.resolve_remote_url(RemoteLookup::Failed("x".to_string()));
    assert_eq!(url.unwrap(), "grpc://h:1/o/r");
    match Pull::new().resolve_remote_url(RemoteLookup::NotFound) {
        Err(CliError::RemoteNotFound { name }) => assert_eq!(name, "origin"),
        other => panic!("{:?}", other),
    }
}

#[test]
fn pull_preview_marks_tagged_changes() {
    let pull = Pull::new().with_remote("upstream");
    let nothing = pull.display_dry_run("http://r", &Vec::new());
    assert_eq!(nothing.headline, "Already up to date - nothing to pull");
    assert!(nothing.hint.is_none());

    let mut tagged = PullChange::new(hash(2), 1, Merkle::zero());
    tagged.tagged = true;
    let changes = vec![PullChange::new(hash(1), 0, Merkle::zero()), tagged];
    let preview = pull.display_dry_run("http://r", &changes);
    assert_eq!(preview.headline, "Would pull 2 changes from upstream:");
    assert_eq!(preview.rows[0].marker, "");
    assert_eq!(preview.rows[1].marker, " [tagged]");
    assert_eq!(preview.rows[1].hash, hash(2));
    assert_eq!(preview.hint, Some("Remote URL: http://r".to_string()));

    let one = pull.display_dry_run("http://r", &vec![changes.into_iter().next().unwrap()]);
    assert_eq!(one.headline, "Would pull 1 change from upstream:");
}

#[test]
fn local_only_warning_names_up_to_five_changes() {
    let pull = Pull::new();
    let one = pull.display_local_only_warning(&vec!["ABCDEFGHIJKLMNOP".to_string()]);
    assert_eq!(one.headline, "You have 1 local change not on the remote:");
    assert_eq!(one.shown, vec!["ABCDEFGHIJKL".to_string()]);
    assert!(one.more.is_none());

    let mut names: Vec<String> = Vec::new();
    for i in 0..7 {
        names.push(format!("{}", i));
    }
    let many = pull.display_local_only_warning(&names);
    assert_eq!(many.headline, "You have 7 local changes not on the remote:");
    assert_eq!(many.shown, vec!["0", "1", "2", "3", "4"]);
    assert_eq!(many.more, Some("... and 2 more".to_string()));

    let five = pull.display_local_only_warning(&names[..5].to_vec());
    assert_eq!(five.shown.len(), 5);
    assert!(five.more.is_none());
}

#[test]
fn local_only_warning_cuts_by_bytes() {
    let pull = Pull::new();
    let name = "\u{e9}\u{e9}\u{e9}\u{e9}\u{e9}\u{e9}tail".to_string();
    let warning = pull.display_local_only_warning(&vec![name]);
    assert_eq!(
        warning.shown,
        vec!["\u{e9}\u{e9}\u{e9}\u{e9}\u{e9}\u{e9}".to_string()]
    );
}

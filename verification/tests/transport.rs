use atomic_sync::transport::auth::{is_success_status, TokenReply};
use atomic_sync::transport::client::{judge_endpoint, open_endpoint};
use atomic_sync::transport::messages::{have_list, readable_hashes};
use atomic_sync::transport::pull::{PullReply, PullStats, PullTask};
use atomic_sync::transport::push::{find_absent, PushReply, PushStats, PushTask};
use atomic_sync::transport::url::origin_of;
use atomic_sync::transport::watch::{WatchReply, WatchTask};
use atomic_sync::transport::{
    is_grpc_url, parse_owner_repo, pull_changes, push_changes, to_tonic_endpoint, watch_and_sync,
    AuthInterceptor, TokenClient, TokenRequest, TransportError,
};
use atomic_sync::types::{contains_hash, ChangeHash, ChangeSet};

fn hash(n: u8) -> ChangeHash {
    ChangeHash::from_bytes([n; 32])
}

#[test]
fn grpc_addresses_are_told_by_their_scheme() {
    assert!(is_grpc_url("grpc://localhost:7777"));
    assert!(is_grpc_url("grpcs://localhost:7777"));
    assert!(!is_grpc_url("https://localhost:7777"));
    assert!(!is_grpc_url("grpc:/localhost"));
    assert!(!is_grpc_url(""));
}

#[test]
fn endpoints_have_the_scheme_of_the_channel() {
    assert_eq!(to_tonic_endpoint("grpc://h:1"), "http://h:1");
    assert_eq!(to_tonic_endpoint("grpcs://h:1"), "https://h:1");
    assert_eq!(to_tonic_endpoint("http://h:1"), "http://h:1");
    assert_eq!(to_tonic_endpoint("grpc://grpc://h"), "http://grpc://h");
}

#[test]
fn owner_and_repository_stand_in_the_path() {
    let names = |url: &str| parse_owner_repo(url);
    assert_eq!(names("grpc://h:1/ann/proj"), ("ann".to_string(), "proj".to_string()));
    assert_eq!(names("grpc://h:1/ann"), ("ann".to_string(), "default".to_string()));
    assert_eq!(names("grpc://h:1/ann/"), ("ann".to_string(), "default".to_string()));
    assert_eq!(names("grpc://h:1//proj"), ("default".to_string(), "proj".to_string()));
    assert_eq!(names("grpc://h:1"), ("default".to_string(), "default".to_string()));
    assert_eq!(names("h/ann/a/b"), ("ann".to_string(), "a/b".to_string()));
}

#[test]
fn tokens_are_asked_for_at_the_rest_api() {
    let client = TokenClient::new("grpcs://h:7777");
    assert_eq!(client.base_url, "https://h:7777");
    let post = client.token_post(TokenRequest {
        username: "ann".to_string(),
        password: "pw".to_string(),
    });
    assert_eq!(post.url, "https://h:7777/api/auth/token");
    assert_eq!(post.request.username, "ann");
    assert_eq!(post.request.password, "pw");
}

#[test]
fn the_rest_api_is_on_the_host_of_the_address() {
    let address = |url: &str| {
        let client = TokenClient::new(url);
        let request = TokenRequest {
            username: "u".to_string(),
            password: "p".to_string(),
        };
        client.token_post(request).url
    };
    assert_eq!(
        address("grpc://localhost:7777/alice/proj"),
        "http://localhost:7777/api/auth/token"
    );
    assert_eq!(address("grpcs://h/alice/a/b"), "https://h/api/auth/token");
    assert_eq!(address("grpc://h:7777/"), "http://h:7777/api/auth/token");
    assert_eq!(address("http://h:1/o/r"), "http://h:1/api/auth/token");
    assert_eq!(origin_of("http://h:1/o/r"), "http://h:1");
    assert_eq!(origin_of("h:1/o/r"), "h:1");
    assert_eq!(origin_of("http://"), "http://");
    assert_eq!(origin_of(""), "");
}

#[test]
fn token_replies_are_judged_by_their_status() {
    let client = TokenClient::new("grpc://h:7777");
    let given = client.read_reply(TokenReply::Given("jwt".to_string()));
    assert_eq!(given, Ok("jwt".to_string()));
    let refused = client.read_reply(TokenReply::Refused {
        status: "401 Unauthorized".to_string(),
        body: "bad password".to_string(),
    });
    let error = refused.unwrap_err();
    assert_eq!(error.message(), "auth failed (401 Unauthorized): bad password");
    assert!(is_success_status(200) && is_success_status(201) && is_success_status(299));
    assert!(!is_success_status(199) && !is_success_status(300) && !is_success_status(401));
}

#[test]
fn endpoints_are_parsed_before_a_connection() {
    assert_eq!(open_endpoint("grpc://h:7777"), Ok("http://h:7777".to_string()));
    assert_eq!(open_endpoint("grpc://h h"), Err(TransportError::InvalidEndpoint));
    assert_eq!(open_endpoint(""), Err(TransportError::InvalidEndpoint));
    assert_eq!(
        TransportError::InvalidEndpoint.message(),
        "invalid gRPC endpoint URL"
    );
    assert_eq!(judge_endpoint("x".to_string(), true), Ok("x".to_string()));
    assert_eq!(
        judge_endpoint("x".to_string(), false),
        Err(TransportError::InvalidEndpoint)
    );
}

#[test]
fn tokens_go_into_the_metadata() {
    let none = AuthInterceptor::new(None).unwrap();
    assert!(none.metadata().is_none());
    let auth = AuthInterceptor::new(Some("jwt-token")).unwrap();
    assert_eq!(
        auth.metadata(),
        Some(("authorization", "Bearer jwt-token".to_string()))
    );
    assert!(AuthInterceptor::new(Some("a\tb")).is_ok());
    assert!(AuthInterceptor::new(Some("\u{e9}")).is_ok());
    assert!(AuthInterceptor::new(Some("")).is_ok());
    for bad in ["a\nb", "a\u{0}b", "\u{7f}", "\r"] {
        let error = AuthInterceptor::new(Some(bad)).unwrap_err();
        assert_eq!(error, TransportError::InvalidToken);
        assert_eq!(error.message(), "invalid JWT token (non-ASCII characters)");
    }
}

#[test]
fn hashes_have_as_many_bytes_as_they_should() {
    assert_eq!(ChangeHash::from_slice(&vec![7u8; 32]), Some(hash(7)));
    assert!(ChangeHash::from_slice(&vec![7u8; 31]).is_none());
    assert!(ChangeHash::from_slice(&vec![7u8; 33]).is_none());
    assert_eq!(hash(7).to_vec(), vec![7u8; 32]);
    assert_eq!(*hash(7).as_bytes(), [7u8; 32]);
    assert!(hash(7).same(&hash(7)));
    assert!(!hash(7).same(&hash(8)));
    assert!(contains_hash(&vec![hash(1), hash(2)], &hash(2)));
    assert!(!contains_hash(&vec![hash(1), hash(2)], &hash(3)));
}

#[test]
fn unreadable_hashes_are_left_out() {
    let listed = vec![Some(hash(1)), None, Some(hash(2))];
    let hashes = readable_hashes(&listed);
    assert_eq!(hashes, vec![hash(1), hash(2)]);
    assert_eq!(have_list(&hashes), vec![vec![1u8; 32], vec![2u8; 32]]);
}

#[test]
fn only_absent_changes_are_sent() {
    let mut server = ChangeSet::new();
    server.insert(hash(2));
    let local = vec![hash(3), hash(2), hash(1)];
    assert_eq!(find_absent(&local, &server), vec![hash(3), hash(1)]);
}

#[test]
fn push_exchange_sends_what_the_server_lacks() {
    let listed = vec![Some(hash(1)), Some(hash(2)), None, Some(hash(3))];
    let (mut push, task) = push_changes("ann", "proj", "dev", &listed);
    match task {
        PushTask::ListHashes(request) => {
            assert_eq!(request.owner, "ann");
            assert_eq!(request.repo, "proj");
            assert_eq!(request.view, "dev");
            assert_eq!(request.token, "");
        }
        other => panic!("{:?}", other),
    }
    assert!(matches!(
        push.advance(PushReply::Entry(vec![2u8; 32])),
        PushTask::NextEntry
    ));
    assert!(matches!(
        push.advance(PushReply::Entry(vec![1u8; 31])),
        PushTask::NextEntry
    ));
    match push.advance(PushReply::End) {
        PushTask::SendHeader(header) => assert_eq!(header.owner, "ann"),
        other => panic!("{:?}", other),
    }
    match push.advance(PushReply::Sent) {
        PushTask::SendHave { hashes } => {
            assert_eq!(hashes, vec![vec![1u8; 32], vec![2u8; 32], vec![3u8; 32]]);
        }
        other => panic!("{:?}", other),
    }
    match push.advance(PushReply::Sent) {
        PushTask::Load { hash: h } => assert_eq!(h, hash(1)),
        other => panic!("{:?}", other),
    }
    match push.advance(PushReply::Loaded(vec![9, 9])) {
        PushTask::SendChange { bytes } => assert_eq!(bytes, vec![9, 9]),
        other => panic!("{:?}", other),
    }
    match push.advance(PushReply::Sent) {
        PushTask::Load { hash: h } => assert_eq!(h, hash(3)),
        other => panic!("{:?}", other),
    }
    push.advance(PushReply::Loaded(vec![8]));
    assert!(matches!(
        push.advance(PushReply::Sent),
        PushTask::AwaitResult
    ));
    match push.advance(PushReply::Result { rejected: 1 }) {
        PushTask::Done(stats) => assert_eq!(
            stats,
            PushStats { uploaded: 2, already_present: 1, rejected: 1 }
        ),
        other => panic!("{:?}", other),
    }
    assert!(matches!(
        push.advance(PushReply::Failed),
        PushTask::Unexpected
    ));
}

#[test]
fn push_exchange_with_nothing_to_send() {
    let (mut push, _) = push_changes("o", "r", "v", &vec![Some(hash(1))]);
    push.advance(PushReply::Entry(vec![1u8; 32]));
    match push.advance(PushReply::End) {
        PushTask::Done(stats) => assert_eq!(
            stats,
            PushStats { uploaded: 0, already_present: 1, rejected: 0 }
        ),
        other => panic!("{:?}", other),
    }
    assert_eq!(
        PushStats::default(),
        PushStats { uploaded: 0, already_present: 0, rejected: 0 }
    );
}

#[test]
fn push_exchange_says_what_failed() {
    let context = |task: PushTask| match task {
        PushTask::Abort { context } => context,
        other => panic!("{:?}", other),
    };
    let start = || push_changes("o", "r", "v", &vec![Some(hash(1))]).0;
    let steps = [
        (0, ""),
        (1, "send push header"),
        (2, "send SyncHave"),
        (3, "load change"),
        (4, "send ChangeData"),
        (5, "push RPC"),
    ];
    for (steps_before, expected) in steps {
        let mut push = start();
        let replies = vec![
            PushReply::End,
            PushReply::Sent,
            PushReply::Sent,
            PushReply::Loaded(vec![1]),
            PushReply::Sent,
        ];
        for reply in replies.into_iter().take(steps_before) {
            push.advance(reply);
        }
        assert_eq!(context(push.advance(PushReply::Failed)), expected);
    }
    let mut push = start();
    push.advance(PushReply::End);
    push.advance(PushReply::Sent);
    push.advance(PushReply::Sent);
    assert_eq!(context(push.advance(PushReply::NotSerialized)), "serialize change");
}

#[test]
fn pull_exchange_saves_what_it_can_decode() {
    let saved = |n: u8| PullReply::Saved { hash: hash(n) };
    let (mut pull, task) = pull_changes("ann", "proj", "dev", &vec![Some(hash(1)), None]);
    match task {
        PullTask::Request(request) => {
            assert_eq!(request.target.owner, "ann");
            assert_eq!(request.target.repo, "proj");
            assert_eq!(request.target.view, "dev");
            assert_eq!(request.target.token, "");
            assert_eq!(request.have_hashes, vec![vec![1u8; 32]]);
        }
        other => panic!("{:?}", other),
    }
    assert!(matches!(pull.advance(PullReply::Opened), PullTask::Receive));
    assert!(matches!(
        pull.advance(PullReply::Data(Vec::new())),
        PullTask::Receive
    ));
    match pull.advance(PullReply::Data(vec![1, 2])) {
        PullTask::Decode { bytes } => assert_eq!(bytes, vec![1, 2]),
        other => panic!("{:?}", other),
    }
    assert!(matches!(pull.advance(PullReply::Failed), PullTask::Receive));
    pull.advance(PullReply::Data(vec![3]));
    assert!(matches!(pull.advance(PullReply::Decoded), PullTask::Save));
    assert!(matches!(pull.advance(saved(7)), PullTask::Receive));
    pull.advance(PullReply::Data(vec![4]));
    pull.advance(PullReply::Decoded);
    pull.advance(saved(5));
    assert_eq!(pull.saved, vec![hash(7), hash(5)]);
    match pull.advance(PullReply::End) {
        PullTask::Done(stats) => assert_eq!(
            stats,
            PullStats { downloaded: 2, already_present: 1 }
        ),
        other => panic!("{:?}", other),
    }
}

#[test]
fn pull_exchange_says_what_failed() {
    let context = |task: PullTask| match task {
        PullTask::Abort { context } => context,
        other => panic!("{:?}", other),
    };
    let start = || pull_changes("o", "r", "v", &Vec::new()).0;
    let mut pull = start();
    assert_eq!(context(pull.advance(PullReply::Failed)), "pull RPC");
    let mut pull = start();
    pull.advance(PullReply::Opened);
    assert_eq!(context(pull.advance(PullReply::Failed)), "receive ChangeData");
    let mut pull = start();
    pull.advance(PullReply::Opened);
    pull.advance(PullReply::Data(vec![1]));
    pull.advance(PullReply::Decoded);
    assert_eq!(context(pull.advance(PullReply::Failed)), "save pulled change");
    assert_eq!(
        PullStats::default(),
        PullStats { downloaded: 0, already_present: 0 }
    );
}

#[test]
fn watch_follows_notifications() {
    let (mut watch, task) = watch_and_sync("ann", "proj", "dev");
    match task {
        WatchTask::Watch(request) => {
            assert_eq!(request.owner, "ann");
            assert_eq!(request.token, "");
        }
        other => panic!("{:?}", other),
    }
    assert!(matches!(watch.advance(WatchReply::Opened), WatchTask::Listen));
    assert!(matches!(
        watch.advance(WatchReply::Notified(vec![1u8; 5])),
        WatchTask::Listen
    ));
    assert!(matches!(
        watch.advance(WatchReply::Notified(vec![1u8; 32])),
        WatchTask::ListLocal
    ));
    match watch.advance(WatchReply::Local(vec![None, Some(hash(4))])) {
        WatchTask::Request(request) => {
            assert_eq!(request.target.view, "dev");
            assert_eq!(request.have_hashes, vec![vec![4u8; 32]]);
        }
        other => panic!("{:?}", other),
    }
    assert!(matches!(watch.advance(WatchReply::Opened), WatchTask::Receive));
    assert!(matches!(
        watch.advance(WatchReply::Data(Vec::new())),
        WatchTask::Receive
    ));
    match watch.advance(WatchReply::Data(vec![1])) {
        WatchTask::Decode { bytes } => assert_eq!(bytes, vec![1]),
        other => panic!("{:?}", other),
    }
    assert!(matches!(watch.advance(WatchReply::Decoded), WatchTask::Save));
    match watch.advance(WatchReply::Saved { hash: hash(6) }) {
        WatchTask::Apply { view, hash: change } => {
            assert_eq!(view, "dev");
            assert_eq!(change, hash(6));
        }
        other => panic!("{:?}", other),
    }
    assert!(matches!(watch.advance(WatchReply::Applied), WatchTask::Receive));
    assert_eq!(watch.count, 1);
    assert!(matches!(watch.advance(WatchReply::End), WatchTask::Listen));
    assert!(matches!(watch.advance(WatchReply::Closed), WatchTask::Done));
}

#[test]
fn watch_outlives_failed_pulls() {
    let (mut watch, _) = watch_and_sync("o", "r", "v");
    watch.advance(WatchReply::Opened);
    watch.advance(WatchReply::Notified(vec![1u8; 32]));
    watch.advance(WatchReply::Local(Vec::new()));
    assert!(matches!(watch.advance(WatchReply::Failed), WatchTask::Listen));
    watch.advance(WatchReply::Notified(vec![1u8; 32]));
    watch.advance(WatchReply::Local(Vec::new()));
    watch.advance(WatchReply::Opened);
    watch.advance(WatchReply::Data(vec![1]));
    assert!(matches!(watch.advance(WatchReply::Failed), WatchTask::Receive));
    watch.advance(WatchReply::Data(vec![1]));
    watch.advance(WatchReply::Decoded);
    assert!(matches!(watch.advance(WatchReply::Failed), WatchTask::Receive));
    assert_eq!(watch.count, 0);
    watch.advance(WatchReply::Data(vec![1]));
    watch.advance(WatchReply::Decoded);
    assert!(matches!(
        watch.advance(WatchReply::Saved { hash: hash(2) }),
        WatchTask::Apply { .. }
    ));
    assert!(matches!(watch.advance(WatchReply::Failed), WatchTask::Receive));
    assert_eq!(watch.count, 1);
    assert!(matches!(watch.advance(WatchReply::Failed), WatchTask::Listen));
    match watch.advance(WatchReply::Failed) {
        WatchTask::Abort { context } => assert_eq!(context, "receive ChangeNotification"),
        other => panic!("{:?}", other),
    }
    let (mut watch, _) = watch_and_sync("o", "r", "v");
    match watch.advance(WatchReply::Failed) {
        WatchTask::Abort { context } => assert_eq!(context, "watch RPC"),
        other => panic!("{:?}", other),
    }
}

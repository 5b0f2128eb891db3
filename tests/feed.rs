use firehose_graph::backfill::{
    block_rows, follow_rows, is_record_not_found, list_url, page_pairs, page_url, split_into,
};
use firehose_graph::fetch::{
    bind_cursor, compose_reply, merge_posts, post_from_row, sentinel_response, text_lt,
    Coordinator, FetchDecision, PostMsg, FEED_LIMIT,
};
use firehose_graph::drift::{DriftMonitor, SAMPLE_BOUND};
use firehose_graph::monitor::{
    host_of, link_action, needs_failover, next_endpoint, retry_delay_ms, subscribe_url, Endpoint, LinkAction,
    LinkEvent,
};
use firehose_graph::server::{check_claims, feed_response, JWT};
use firehose_graph::types::{Follow, FollowVal, FollowsResp};

fn post(uri: &str, reason: &str, ts: u64) -> PostMsg {
    PostMsg { uri: uri.to_string(), reason: reason.to_string(), timestamp: ts }
}

#[test]
fn empty_did_gets_sentinel() {
    let mut c = Coordinator::new();
    assert!(matches!(c.begin_request("", None, 5), FetchDecision::Sentinel));
    assert!(c.in_flight.is_empty());
    let s = sentinel_response();
    assert_eq!(s.posts, vec![post("", "", 0)]);
    assert_eq!(s.cursor, Some("EMPTY_DID".to_string()));
}

#[test]
fn duplicate_in_flight_gets_sentinel() {
    let mut c = Coordinator::new();
    match c.begin_request("did:plc:zzz", None, 42) {
        FetchDecision::Serve { cursor, cached } => {
            assert_eq!(cursor, "42");
            assert!(cached.is_empty());
        }
        FetchDecision::Sentinel => panic!("first request must be served"),
    }
    assert!(c.is_in_flight("did:plc:zzz"));
    assert!(matches!(c.begin_request("did:plc:zzz", None, 43), FetchDecision::Sentinel));
    c.finish_backfill("did:plc:zzz");
    assert!(!c.is_in_flight("did:plc:zzz"));
    assert!(matches!(c.begin_request("did:plc:zzz", None, 44), FetchDecision::Serve { .. }));
}

#[test]
fn cursor_is_bound_into_queries() {
    let mut c = Coordinator::new();
    let cursor = match c.begin_request("did:plc:zzz", Some("1700000000000000".to_string()), 1) {
        FetchDecision::Serve { cursor, .. } => cursor,
        FetchDecision::Sentinel => panic!("must be served"),
    };
    assert_eq!(cursor, "1700000000000000");
    let q = bind_cursor("WHERE ts < {} AND (ts - {}) <= 1", &cursor);
    assert_eq!(q, "WHERE ts < 1700000000000000 AND (ts - 1700000000000000) <= 1");
    let merged = merge_posts(vec![
        post_from_row("did:a".into(), "k1".into(), 1_699_999_999_000_000, "BEST_FOLLOWING"),
        post_from_row("did:b".into(), "k2".into(), 1_699_999_999_500_000, "FPLUS_LIKES"),
    ]);
    let (resp, rest) = compose_reply(merged);
    assert!(rest.is_empty());
    assert_eq!(resp.posts.len(), 2);
    assert_eq!(resp.posts[0].uri, "at://did:b/app.bsky.feed.post/k2");
    assert_eq!(resp.cursor, Some("1699999999000000".to_string()));
    assert_eq!(resp.cursor.clone().unwrap(), resp.posts[1].timestamp.to_string());
}

#[test]
fn merge_dedupes_and_orders() {
    let merged = merge_posts(vec![
        post("at://b", "Q1", 10),
        post("at://a", "Q1", 10),
        post("at://c", "Q2", 30),
        post("at://b", "Q3", 10),
        post("at://d", "Q2", 5),
    ]);
    assert_eq!(
        merged,
        vec![post("at://c", "Q2", 30), post("at://a", "Q1", 10), post("at://b", "Q3", 10), post("at://d", "Q2", 5)]
    );
    assert!(merge_posts(vec![]).is_empty());
    assert!(text_lt("abc", "abd"));
    assert!(text_lt("ab", "abc"));
    assert!(!text_lt("abc", "abc"));
}

#[test]
fn overflow_is_cached_and_served() {
    let posts: Vec<PostMsg> = (0..45u64).map(|i| post(&format!("at://p{i:02}"), "R", 1_000_000 - i)).collect();
    let merged = merge_posts(posts);
    let (resp, rest) = compose_reply(merged);
    assert_eq!(resp.posts.len(), FEED_LIMIT);
    assert_eq!(rest.len(), 15);
    assert_eq!(resp.cursor, Some((1_000_000 - 29).to_string()));
    let mut c = Coordinator::new();
    c.store_overflow("did:x".to_string(), rest);
    match c.begin_request("did:x", None, 1_000_000 + 10) {
        FetchDecision::Serve { cursor, cached } => {
            assert_eq!(cached.len(), 15);
            assert_eq!(cursor, (1_000_000 - 44).to_string());
        }
        FetchDecision::Sentinel => panic!("must be served"),
    }
    assert!(c.take_cached("did:x").is_empty());
    // Stale overflow is dropped and the request cursor is used.
    let mut c2 = Coordinator::new();
    c2.store_overflow("did:y".to_string(), vec![post("at://z", "R", 1)]);
    match c2.begin_request("did:y", Some("77".into()), 400_000_000) {
        FetchDecision::Serve { cursor, cached } => {
            assert_eq!(cursor, "77");
            assert!(cached.is_empty());
        }
        FetchDecision::Sentinel => panic!("must be served"),
    }
    let (empty, _) = compose_reply(vec![]);
    assert!(empty.posts.is_empty());
    assert_eq!(empty.cursor, None);
}

#[test]
fn split_and_rows() {
    let parts = split_into((0..50).collect::<Vec<u32>>(), 20);
    assert_eq!(parts.len(), 25);
    assert!(parts.iter().all(|p| p.len() == 2));
    let small = split_into(vec![1, 2, 3], 20);
    assert_eq!(small, vec![vec![1], vec![2], vec![3]]);
    let odd = split_into((0..50).collect::<Vec<u32>>(), 24);
    assert_eq!(odd.len(), 25);
    assert_eq!(odd[24], vec![48, 49]);
    assert_eq!(odd.concat(), (0..50).collect::<Vec<u32>>());
    let rows = follow_rows(vec![("did:s".into(), "rk".into())], &"did:me".to_string());
    assert_eq!(rows[0].get("out").unwrap(), "did:s");
    assert_eq!(rows[0].get("rkey").unwrap(), "rk");
    assert_eq!(rows[0].get("did").unwrap(), "did:me");
    let b = block_rows(vec![("did:s".into(), "rk".into())], &"did:me".to_string());
    assert_eq!(b[0].entries[1].0, "did");
}

#[test]
fn listing_pages() {
    let page = FollowsResp {
        cursor: Some("c1".into()),
        records: vec![Follow {
            uri: "at://did:me/app.bsky.graph.follow/3kfollowrkey1".into(),
            cid: String::new(),
            value: FollowVal { type_field: None, subject: "did:them".into(), created_at: String::new() },
        }],
    };
    let pairs = page_pairs(&page);
    assert_eq!(pairs, vec![("did:them".to_string(), "3kfollowrkey1".to_string())]);
    let base = list_url("did:me", "app.bsky.graph.follow");
    assert_eq!(base, "https://bsky.social/xrpc/com.atproto.repo.listRecords?repo=did:me&collection=app.bsky.graph.follow&limit=100");
    assert_eq!(page_url(&base, "c1"), format!("{base}&cursor=c1"));
    assert!(is_record_not_found("Error(\"missing field `records`\", line: 1)", Some(400)));
    assert!(!is_record_not_found("Error(\"missing field `records`\", line: 1)", Some(500)));
    assert!(!is_record_not_found("timeout", Some(400)));
    assert!(!is_record_not_found("missing field `records`", None));
}

#[test]
fn transport_decisions() {
    assert!(needs_failover(10_001));
    assert!(needs_failover(-1));
    assert!(!needs_failover(10_000));
    assert_eq!(link_action(LinkEvent::Timeout, 9), LinkAction::Reconnect { endpoint: Endpoint::Primary, cursor: Some(9) });
    assert_eq!(link_action(LinkEvent::Closed, 9), LinkAction::Reconnect { endpoint: Endpoint::Primary, cursor: None });
    assert_eq!(link_action(LinkEvent::Processed { drift_ms: 20_000 }, 9), LinkAction::Reconnect { endpoint: Endpoint::Secondary, cursor: Some(9) });
    assert_eq!(link_action(LinkEvent::Processed { drift_ms: 5 }, 9), LinkAction::Continue);
    assert_eq!(
        subscribe_url(host_of(Endpoint::Secondary), true, Some(17)),
        "wss://jetstream2.us-east.bsky.network/subscribe?wantedCollections=app.bsky.graph.*&wantedCollections=app.bsky.feed.*&compress=true&cursor=17"
    );
    assert_eq!(
        subscribe_url(host_of(Endpoint::Primary), false, None),
        "wss://jetstream1.us-east.bsky.network/subscribe?wantedCollections=app.bsky.graph.*&wantedCollections=app.bsky.feed.*&compress=false"
    );
}

#[test]
fn token_claims() {
    let c = JWT { iss: "did:plc:me".into(), aud: "did:web:feed".into(), exp: 100 };
    assert_eq!(check_claims(&c, 100, &"did:web:feed".to_string()), Some("did:plc:me".to_string()));
    assert_eq!(check_claims(&c, 101, &"did:web:feed".to_string()), None);
    assert_eq!(check_claims(&c, 1, &"did:web:other".to_string()), None);
    let r = feed_response(&sentinel_response());
    assert_eq!(r.feed.len(), 1);
    assert_eq!(r.cursor, Some("EMPTY_DID".to_string()));
}

#[test]
fn rolling_drift_average() {
    let mut m = DriftMonitor::new();
    assert_eq!(m.average(), 0);
    assert!(!m.is_fatal());
    assert!(m.record(10));
    assert!(m.record(20));
    assert!(m.record(-3));
    assert_eq!(m.average(), 9);
    assert!(!m.record(SAMPLE_BOUND + 1));
    assert_eq!(m.average(), 9);
    let mut w = DriftMonitor::new();
    assert!(w.record(-7));
    assert_eq!(w.average(), -7);
    let mut big = DriftMonitor::new();
    assert!(big.record(10_000_000));
    for _ in 0..25_000 {
        assert!(big.record(50_001));
    }
    assert_eq!(big.average(), 50_001);
    assert!(big.is_fatal());
    let mut edge = DriftMonitor::new();
    assert!(edge.record(50_000));
    assert!(!edge.is_fatal());
}

#[test]
fn reconnect_policy() {
    assert_eq!(next_endpoint(Endpoint::Primary, 2), Endpoint::Primary);
    assert_eq!(next_endpoint(Endpoint::Primary, 3), Endpoint::Secondary);
    assert_eq!(next_endpoint(Endpoint::Secondary, 0), Endpoint::Secondary);
    assert_eq!(retry_delay_ms(0), 100);
    assert_eq!(retry_delay_ms(1), 200);
    assert_eq!(retry_delay_ms(8), 25_600);
    assert_eq!(retry_delay_ms(9), 30_000);
    assert_eq!(retry_delay_ms(u32::MAX), 30_000);
}

#[test]
fn cache_expires_at_five_minutes() {
    let mut c = Coordinator::new();
    c.store_overflow("did:y".to_string(), vec![post("at://z", "R", 1_000)]);
    match c.begin_request("did:y", None, 1_000 + 299_999_999) {
        FetchDecision::Serve { cursor, cached } => {
            assert_eq!(cached.len(), 1);
            assert_eq!(cursor, "1000");
        }
        FetchDecision::Sentinel => panic!("must be served"),
    }
    let mut c2 = Coordinator::new();
    c2.store_overflow("did:y".to_string(), vec![post("at://z", "R", 1_000)]);
    match c2.begin_request("did:y", None, 1_000 + 300_000_000) {
        FetchDecision::Serve { cursor, cached } => {
            assert!(cached.is_empty());
            assert_eq!(cursor, "300001000");
        }
        FetchDecision::Sentinel => panic!("must be served"),
    }
}

use firehose_graph::dispatch::{dispatch_event, get_rkey};
use firehose_graph::filter::{
    date_filter_at, parse_created_at, spam_filter, FilterChain, FilterKind, DAY_US,
};
use firehose_graph::queue::{
    Batch, CommitToken, GraphModel, ParamMap, QueryOp, TxPipeline, Q_LIMIT, TX_Q_LEN,
};
use firehose_graph::text::{get_post_uri, i64_to_decimal, parse_rkey, pluralize};
use firehose_graph::types::{
    ATEventType, BskyEvent, Commit, CommitTypeable, Embed, Parent, Record, Reply, Subj, Subject,
};

const NOW: i64 = 1_700_000_000_000_000;

fn event(did: &str, time_us: i64, op: &str, collection: &str, rkey: &str, record: Option<Record>) -> BskyEvent {
    BskyEvent {
        did: did.to_string(),
        time_us,
        kind: "commit".to_string(),
        type_field: None,
        commit: Some(Commit {
            rev: String::new(),
            operation: op.to_string(),
            collection: collection.to_string(),
            rkey: rkey.to_string(),
            record,
            cid: None,
        }),
    }
}

fn post_record(created_at: &str) -> Record {
    Record {
        created_at: created_at.to_string(),
        text: Some("hi".to_string()),
        ..Default::default()
    }
}

fn val(m: &ParamMap, k: &str) -> String {
    m.get(k).unwrap()
}

#[test]
fn check_single_query() {
    let mut tg = GraphModel::new();
    tg.add_block(
        "did:blockee".to_owned(),
        "did:user1".to_owned(),
        "rkey_block".to_owned(),
        None,
    );
    assert_eq!(tg.block_queue.len(), 1);
    let v = &tg.block_queue[0];
    assert_eq!(v.len(), 3);
    assert_eq!(v.get("blockee").unwrap(), "did:blockee");
    assert_eq!(v.get("rkey").unwrap(), "rkey_block");
    assert_eq!(v.get("did").unwrap(), "did:user1");
}

#[test]
fn check_multiple_query() {
    let mut tg = GraphModel::new();
    tg.add_block("did:blockee".to_owned(), "did:user1".to_owned(), "rkey_block".to_owned(), None);
    tg.add_block("did:blockee2".to_owned(), "did:user1".to_owned(), "rkey_block2".to_owned(), None);
    tg.add_block("did:blockee3".to_owned(), "did:user1".to_owned(), "rkey_block3".to_owned(), None);
    assert_eq!(tg.block_queue.len(), 3);
    for v in tg.block_queue.iter() {
        assert_eq!(v.len(), 3);
        let rkey = v.get("rkey").unwrap();
        if rkey == "rkey_block" {
            assert_eq!(v.get("blockee").unwrap(), "did:blockee");
            assert_eq!(v.get("did").unwrap(), "did:user1");
        } else if rkey == "rkey_block2" {
            assert_eq!(v.get("blockee").unwrap(), "did:blockee2");
            assert_eq!(v.get("did").unwrap(), "did:user1");
        } else if rkey == "rkey_block3" {
            assert_eq!(v.get("blockee").unwrap(), "did:blockee3");
            assert_eq!(v.get("did").unwrap(), "did:user1");
        } else {
            panic!("unexpected rkey {rkey}");
        }
    }
}

#[test]
fn create_post_queues_one_post_row() {
    let mut g = GraphModel::new();
    let chain = FilterChain::standard();
    let created = NOW - 60_000_000;
    let evt = event("did:plc:aaa", 1, "create", "app.bsky.feed.post", "rkeyPOST00001", Some(post_record("2023-11-14T22:12:20Z")));
    let (drift, token) = dispatch_event(&mut g, &chain, &evt, NOW, Some(created), None);
    assert_eq!(drift, (NOW - 1) / 1000);
    assert_eq!(token, None);
    assert_eq!(g.post_queue.len(), 1);
    assert_eq!(g.reply_queue.len(), 0);
    let row = &g.post_queue[0];
    assert_eq!(val(row, "did"), "did:plc:aaa");
    assert_eq!(val(row, "rkey"), "rkeyPOST00001");
    assert_eq!(val(row, "is_reply"), "n");
    assert_eq!(val(row, "is_image"), "n");
    assert_eq!(val(row, "timestamp"), created.to_string());
}

#[test]
fn create_reply_queues_reply_before_post() {
    let mut g = GraphModel::new();
    let chain = FilterChain::standard();
    let created = NOW - 60_000_000;
    let mut rec = post_record("2023-11-14T22:12:20Z");
    rec.reply = Some(Reply {
        parent: Parent { cid: String::new(), uri: "at://did:plc:bbb/app.bsky.feed.post/rkeyPOST00001".to_string() },
        root: Parent { cid: String::new(), uri: "at://did:plc:bbb/app.bsky.feed.post/rkeyPOST00001".to_string() },
    });
    let evt = event("did:plc:aaa", 1, "create", "app.bsky.feed.post", "rkeyREPLY0001", Some(rec));
    dispatch_event(&mut g, &chain, &evt, NOW, Some(created), None);
    assert_eq!(g.reply_queue.len(), 1);
    let reply = &g.reply_queue[0];
    assert_eq!(val(reply, "did"), "did:plc:aaa");
    assert_eq!(val(reply, "rkey"), "rkeyREPLY0001");
    assert_eq!(val(reply, "parent"), "rkeyPOST00001");
    assert_eq!(g.post_queue.len(), 1);
    assert_eq!(val(&g.post_queue[0], "is_reply"), "y");
}

#[test]
fn reply_commit_precedes_post_commit() {
    // With the pipeline full and both queues one row short, the reply's batch
    // triggers a flush that waits for the token handed in and starts the next
    // transaction; the post's batch follows it there, and the flush's token
    // comes back.
    let mut g = GraphModel::new();
    for i in 0..TX_Q_LEN {
        let b = Batch { op: QueryOp::Like, removal: false, name: "likes".to_string(), rows: vec![] };
        assert_eq!(g.pipeline.enqueue_query(b, None), None, "batch {i}");
    }
    for i in 0..Q_LIMIT - 1 {
        g.add_reply("did:x".into(), format!("r{i}"), "p".into(), None);
        g.add_post("did:x".into(), format!("p{i}"), &1, false, false, None);
    }
    let chain = FilterChain::standard();
    let mut rec = post_record("x");
    rec.reply = Some(Reply {
        parent: Parent { cid: String::new(), uri: "at://did:plc:bbb/app.bsky.feed.post/rkeyPOST00001".to_string() },
        root: Parent::default(),
    });
    let evt = event("did:plc:aaa", NOW, "create", "app.bsky.feed.post", "rkeyREPLY0001", Some(rec));
    let before = Some(CommitToken { id: 99 });
    let (_, token) = dispatch_event(&mut g, &chain, &evt, NOW, None, before);
    let flushes = g.take_flushes();
    assert_eq!(flushes.len(), 1);
    assert_eq!(flushes[0].wait_for, before);
    assert_eq!(token, Some(flushes[0].signal));
    assert_eq!(flushes[0].batches.len(), TX_Q_LEN);
    assert_eq!(g.pipeline.pending.len(), 2);
    assert_eq!(g.pipeline.pending[0].op, QueryOp::Reply);
    assert_eq!(g.pipeline.pending[0].name, "replies");
    assert_eq!(g.pipeline.pending[1].op, QueryOp::Post);
    assert_eq!(g.pipeline.pending[1].name, "posts");
}

#[test]
fn delete_follow_queues_removal() {
    let mut g = GraphModel::new();
    let chain = FilterChain::standard();
    let evt = event("did:plc:bbb", NOW, "delete", "app.bsky.graph.follow", "rkeyFOL000001", None);
    dispatch_event(&mut g, &chain, &evt, NOW, None, None);
    assert_eq!(g.rm_follow_queue.len(), 1);
    let row = &g.rm_follow_queue[0];
    assert_eq!(row.len(), 2);
    assert_eq!(val(row, "did"), "did:plc:bbb");
    assert_eq!(val(row, "rkey"), "rkeyFOL000001");
}

#[test]
fn spam_author_queues_nothing() {
    let mut g = GraphModel::new();
    let chain = FilterChain::standard();
    let evt = event("did:plc:xdx2v7gyd5dmfqt7v77gf457", NOW, "create", "app.bsky.feed.post", "rkeyPOST00001", Some(post_record("x")));
    let r = dispatch_event(&mut g, &chain, &evt, NOW, Some(NOW), Some(CommitToken { id: 4 }));
    assert_eq!(r, (0, Some(CommitToken { id: 4 })));
    assert_eq!(g.post_queue.len(), 0);
    assert!(!spam_filter(&evt));
    let ok = event("did:plc:aaa", NOW, "create", "app.bsky.feed.post", "k", None);
    assert!(spam_filter(&ok));
}

#[test]
fn stale_record_is_dropped_by_date_filter() {
    let mut g = GraphModel::new();
    let chain = FilterChain::standard();
    let evt = event("did:plc:aaa", NOW, "create", "app.bsky.feed.post", "rkeyPOST00001", Some(post_record("x")));
    let stale = NOW - DAY_US - 1;
    assert!(!date_filter_at(&evt, NOW, Some(stale)));
    let r = dispatch_event(&mut g, &chain, &evt, NOW, Some(stale), None);
    assert_eq!(r, (0, None));
    assert_eq!(g.post_queue.len(), 0);
    // Exactly one day old is already too old; just under passes.
    assert!(!date_filter_at(&evt, NOW, Some(NOW - DAY_US)));
    assert!(date_filter_at(&evt, NOW, Some(NOW - DAY_US + 1)));
    // Unparseable creation time falls back to the event time.
    let old_evt = event("did:plc:aaa", NOW - DAY_US, "create", "app.bsky.feed.post", "k", Some(post_record("x")));
    assert!(!date_filter_at(&old_evt, NOW, None));
    // No record: passes.
    let bare = event("did:plc:aaa", 0, "delete", "app.bsky.feed.post", "k", None);
    assert!(date_filter_at(&bare, NOW, None));
}

#[test]
fn rejecting_filter_short_circuits() {
    let mut g = GraphModel::new();
    let chain = FilterChain {
        global: vec![],
        post: vec![],
        repost: vec![],
        like: vec![],
        follow: vec![FilterKind::Spam],
        block: vec![],
    };
    let mut rec = post_record("x");
    rec.subject = Some(Subj::T1("did:plc:target".to_string()));
    let evt = event("did:plc:ss7fj6p6yfirwq2hnlkfuntt", NOW, "create", "app.bsky.graph.follow", "k", Some(rec.clone()));
    assert_eq!(dispatch_event(&mut g, &chain, &evt, NOW, None, None), (0, None));
    assert_eq!(g.follow_queue.len(), 0);
    let good = event("did:plc:aaa", NOW, "create", "app.bsky.graph.follow", "k", Some(rec));
    dispatch_event(&mut g, &chain, &good, NOW, None, None);
    assert_eq!(g.follow_queue.len(), 1);
    assert_eq!(val(&g.follow_queue[0], "out"), "did:plc:target");
    assert_eq!(val(&g.follow_queue[0], "did"), "did:plc:aaa");
}

#[test]
fn like_and_repost_take_parent_rkey() {
    let mut g = GraphModel::new();
    let chain = FilterChain::standard();
    let mut rec = post_record("x");
    rec.subject = Some(Subj::T2(Subject { cid: None, uri: "at://did:plc:bbb/app.bsky.feed.post/3kabcdefghijk".to_string() }));
    let like = event("did:plc:aaa", NOW, "create", "app.bsky.feed.like", "likeRKEY00001", Some(rec.clone()));
    assert_eq!(get_rkey(like.commit.as_ref().unwrap()), "3kabcdefghijk");
    dispatch_event(&mut g, &chain, &like, NOW, Some(NOW), None);
    assert_eq!(g.like_queue.len(), 1);
    assert_eq!(val(&g.like_queue[0], "rkey_parent"), "3kabcdefghijk");
    assert_eq!(val(&g.like_queue[0], "rkey"), "likeRKEY00001");
    let repost = event("did:plc:aaa", NOW, "create", "app.bsky.feed.repost", "rpRKEY0000001", Some(rec));
    dispatch_event(&mut g, &chain, &repost, NOW, Some(NOW), None);
    assert_eq!(g.repost_queue.len(), 1);
    // A like whose subject is a bare DID has no parent: dropped.
    let mut bad = post_record("x");
    bad.subject = Some(Subj::T1("did:plc:zzz".to_string()));
    let bad_like = event("did:plc:aaa", NOW, "create", "app.bsky.feed.like", "k", Some(bad));
    assert_eq!(dispatch_event(&mut g, &chain, &bad_like, NOW, Some(NOW), None), (0, None));
    assert_eq!(g.like_queue.len(), 1);
}

#[test]
fn block_and_image_post() {
    let mut g = GraphModel::new();
    let chain = FilterChain::standard();
    let mut rec = post_record("x");
    rec.subject = Some(Subj::T1("did:plc:blocked".to_string()));
    let blk = event("did:plc:aaa", NOW, "create", "app.bsky.graph.block", "blkRKEY000001", Some(rec));
    dispatch_event(&mut g, &chain, &blk, NOW, Some(NOW), None);
    assert_eq!(val(&g.block_queue[0], "blockee"), "did:plc:blocked");
    assert_eq!(val(&g.block_queue[0], "did"), "did:plc:aaa");
    let mut img = post_record("x");
    img.embed = Some(Embed { type_field: Some("app.bsky.embed.images".to_string()), ..Default::default() });
    let p = event("did:plc:aaa", NOW, "create", "app.bsky.feed.post", "k", Some(img));
    dispatch_event(&mut g, &chain, &p, NOW, Some(NOW - 5), None);
    assert_eq!(val(&g.post_queue[0], "is_image"), "y");
    assert_eq!(val(&g.post_queue[0], "timestamp"), (NOW - 5).to_string());
}

#[test]
fn unknown_and_update_events_are_dropped() {
    let mut g = GraphModel::new();
    let chain = FilterChain::standard();
    let unk = event("did:plc:aaa", NOW, "create", "app.bsky.feed.generator", "k", None);
    assert_eq!(unk.commit.get_type(), ATEventType::Unknown);
    assert_eq!(dispatch_event(&mut g, &chain, &unk, NOW, None, None), (0, None));
    let upd = event("did:plc:aaa", NOW, "update", "app.bsky.feed.post", "k", None);
    assert_eq!(upd.commit.get_type(), ATEventType::Post);
    assert_eq!(dispatch_event(&mut g, &chain, &upd, NOW, None, None), (0, None));
    let none = BskyEvent::default();
    assert_eq!(none.commit.get_type(), ATEventType::Unknown);
    assert_eq!(g.post_queue.len(), 0);
}

#[test]
fn queue_returns_to_empty_every_q_limit_rows() {
    let mut g = GraphModel::new();
    for i in 0..(2 * Q_LIMIT) {
        g.add_follow("did:a".into(), format!("did:b{i}"), format!("k{i}"), None);
        assert_eq!(g.follow_queue.len(), (i + 1) % Q_LIMIT);
    }
    assert_eq!(g.follow_queue.len(), 0);
    assert_eq!(g.pipeline.pending.len(), 2);
    assert_eq!(g.pipeline.pending[0].name, "follows");
    assert_eq!(g.pipeline.pending[0].rows.len(), Q_LIMIT);
    assert!(!g.pipeline.pending[0].removal);
}

#[test]
fn commit_tokens_form_a_chain() {
    let mut p = TxPipeline::new();
    let batch = || Batch { op: QueryOp::Post, removal: true, name: "posts".to_string(), rows: vec![] };
    let start = Some(CommitToken { id: 7 });
    for _ in 0..TX_Q_LEN {
        assert_eq!(p.enqueue_query(batch(), start), start);
    }
    let t1 = p.enqueue_query(batch(), start);
    assert_eq!(t1, Some(CommitToken { id: 0 }));
    assert_eq!(p.pending.len(), 1);
    for _ in 0..TX_Q_LEN - 1 {
        assert_eq!(p.enqueue_query(batch(), t1), t1);
    }
    let t2 = p.enqueue_query(batch(), t1);
    assert_eq!(t2, Some(CommitToken { id: 1 }));
    let f = p.take_flushes();
    assert_eq!(f.len(), 2);
    assert_eq!(f[0].wait_for, start);
    assert_eq!(Some(f[0].signal), t1);
    assert_eq!(f[1].wait_for, t1);
    assert_eq!(Some(f[1].signal), t2);
    assert_eq!(f[0].batches.len(), TX_Q_LEN);
    assert!(p.take_flushes().is_empty());
}

#[test]
fn rkey_counts_characters() {
    assert_eq!(parse_rkey("at://did:plc:aaa/app.bsky.feed.post/3kabcdefghijk"), "3kabcdefghijk");
    let uni = "at://x/ééééééééééééé";
    let r = parse_rkey(uni);
    assert_eq!(r.chars().count(), 13);
    assert_eq!(r, "ééééééééééééé");
    assert_eq!(parse_rkey(""), "");
    assert_eq!(parse_rkey("short"), "short");
}

#[test]
fn plurals_and_uris() {
    assert_eq!(pluralize("post"), "posts");
    assert_eq!(pluralize("reply"), "replies");
    assert_eq!(pluralize("block"), "blocks");
    assert_eq!(pluralize("box"), "boxes");
    assert_eq!(pluralize("hero"), "heroes");
    assert_eq!(pluralize("zoo"), "zoos");
    assert_eq!(pluralize("emu"), "emi");
    assert_eq!(get_post_uri("did:plc:aaa".into(), "3kabc".into()), "at://did:plc:aaa/app.bsky.feed.post/3kabc");
    assert_eq!(i64_to_decimal(0), "0");
    assert_eq!(i64_to_decimal(-120), "-120");
    assert_eq!(i64_to_decimal(i64::MIN), "-9223372036854775808");
}

#[test]
fn rfc3339_parse() {
    let at = |s: &str| event("did:plc:aaa", 0, "create", "app.bsky.feed.post", "k", Some(post_record(s)));
    assert_eq!(parse_created_at(&at("2024-01-01T00:00:00Z")), Some(1_704_067_200_000_000));
    assert_eq!(parse_created_at(&at("2024-01-01T00:00:00.5+01:00")), Some(1_704_063_600_500_000));
    assert_eq!(parse_created_at(&at("yesterday")), None);
    let bare = event("did:plc:aaa", 0, "delete", "app.bsky.feed.post", "k", None);
    assert_eq!(parse_created_at(&bare), None);
}

#[test]
fn removal_batches_are_named_by_plural() {
    let mut g = GraphModel::new();
    for i in 0..Q_LIMIT {
        g.rm_reply("did:a".into(), format!("k{i}"), None);
    }
    assert_eq!(g.rm_reply_queue.len(), 0);
    assert_eq!(g.pipeline.pending.len(), 1);
    let b = &g.pipeline.pending[0];
    assert_eq!(b.op, QueryOp::Reply);
    assert!(b.removal);
    assert_eq!(b.name, "replies");
    assert_eq!(b.rows.len(), Q_LIMIT);
    assert_eq!(b.rows[Q_LIMIT - 1].get("rkey").unwrap(), format!("k{}", Q_LIMIT - 1));
    assert_eq!(b.rows[0].get("parent"), None);
    for i in 0..Q_LIMIT {
        g.rm_like("did:a".into(), format!("k{i}"), None);
        g.rm_repost("did:a".into(), format!("k{i}"), None);
    }
    assert_eq!(g.pipeline.pending[1].name, "likes");
    assert_eq!(g.pipeline.pending[2].name, "reposts");
}

#[test]
fn record_not_found_message() {
    assert_eq!(firehose_graph::types::RecNotFound {}.to_string(), "RecordNotFound");
}

use crate::filter::{
    all_pass, created_at_micros, kind_passes, now_micros, parse_created_at, record_of, DAY_US,
    FilterChain, FilterKind,
};
use crate::queue::{post_row, row2, row3, CommitToken, GraphModel, QueryOp};
use crate::text::{parse_rkey, rkey_of};
use crate::types::{collection_type, ATEventType, BskyEvent, Commit, CommitTypeable, Subj};
use vstd::prelude::*;
use vstd::string::*;

verus! {

/// One queued mutation: the operation, whether it is a removal, and its row.
pub type PlanStep = (QueryOp, bool, Seq<(Seq<char>, Seq<char>)>);

/// Adding the rows of `steps` in order takes `g0` to `g1`, each step handed the
/// token the previous one returned, starting from `rec` and ending with `r`.
pub open spec fn runs(
    g0: GraphModel,
    g1: GraphModel,
    steps: Seq<PlanStep>,
    rec: Option<CommitToken>,
    r: Option<CommitToken>,
) -> bool
    decreases steps.len(),
{
    if steps.len() == 0 {
        g1 == g0 && r == rec
    } else {
        exists|gm: GraphModel, tm: Option<CommitToken>|
            #[trigger] g0.step(gm, steps[0].0, steps[0].1, steps[0].2, rec, tm) && runs(
                gm,
                g1,
                steps.drop_first(),
                tm,
                r,
            )
    }
}

proof fn lemma_runs_one(
    g0: GraphModel,
    g1: GraphModel,
    s: PlanStep,
    rec: Option<CommitToken>,
    r: Option<CommitToken>,
)
    requires
        g0.step(g1, s.0, s.1, s.2, rec, r),
    ensures
        runs(g0, g1, seq![s], rec, r),
{
    let ss = seq![s];
    assert(ss[0] == s);
    assert(ss.drop_first() =~= Seq::<PlanStep>::empty());
    assert(runs(g1, g1, ss.drop_first(), r, r));
    assert(g0.step(g1, ss[0].0, ss[0].1, ss[0].2, rec, r));
}

proof fn lemma_runs_two(
    g0: GraphModel,
    gm: GraphModel,
    g1: GraphModel,
    s1: PlanStep,
    s2: PlanStep,
    rec: Option<CommitToken>,
    tm: Option<CommitToken>,
    r: Option<CommitToken>,
)
    requires
        g0.step(gm, s1.0, s1.1, s1.2, rec, tm),
        gm.step(g1, s2.0, s2.1, s2.2, tm, r),
    ensures
        runs(g0, g1, seq![s1, s2], rec, r),
{
    lemma_runs_one(gm, g1, s2, tm, r);
    assert(seq![s1, s2].drop_first() =~= seq![s2]);
}

/// The record key of the record a like or repost points at; empty when the
/// subject is missing or a bare DID.
pub open spec fn subject_rkey(c: Commit) -> Seq<char> {
    match c.record {
        Some(r) => match r.subject {
            Some(Subj::T2(s)) => rkey_of(s.uri@),
            _ => Seq::empty(),
        },
        None => Seq::empty(),
    }
}

/// The DID a follow or block names, when the subject is a non-empty bare DID.
pub open spec fn subject_did(c: Commit) -> Option<Seq<char>> {
    match c.record {
        Some(r) => match r.subject {
            Some(Subj::T1(s)) => if s@.len() > 0 {
                Some(s@)
            } else {
                None
            },
            _ => None,
        },
        None => None,
    }
}

/// Whether the record embeds images.
pub open spec fn embeds_images(c: Commit) -> bool {
    match c.record {
        Some(r) => match r.embed {
            Some(e) => match e.type_field {
                Some(t) => t@ == "app.bsky.embed.images"@,
                None => false,
            },
            None => false,
        },
        None => false,
    }
}

/// The creation time recorded for a post: the parsed `created_at`, else the
/// event's time; zero without a record.
pub open spec fn post_time(c: Commit, parsed: Option<i64>, time_us: i64) -> i64 {
    match c.record {
        Some(_) => match parsed {
            Some(t) => t,
            None => time_us,
        },
        None => 0,
    }
}

/// The rows a created post queues: a reply row first when it answers another
/// post, then the post row.
pub open spec fn post_plan(did: Seq<char>, c: Commit, parsed: Option<i64>, time_us: i64) -> Seq<
    PlanStep,
> {
    let ts = post_time(c, parsed, time_us);
    let img = embeds_images(c);
    match c.record {
        Some(r) => match r.reply {
            Some(rp) => seq![
                (
                    QueryOp::Reply,
                    false,
                    row3("did"@, did, "rkey"@, c.rkey@, "parent"@, rkey_of(rp.parent.uri@)),
                ),
                (QueryOp::Post, false, post_row(did, c.rkey@, ts, true, img)),
            ],
            None => seq![(QueryOp::Post, false, post_row(did, c.rkey@, ts, false, img))],
        },
        None => seq![(QueryOp::Post, false, post_row(did, c.rkey@, ts, false, img))],
    }
}

/// The queue operation of an event type that has one.
pub open spec fn op_of(t: ATEventType) -> QueryOp {
    match t {
        ATEventType::Repost => QueryOp::Repost,
        ATEventType::Like => QueryOp::Like,
        ATEventType::Follow => QueryOp::Follow,
        ATEventType::Block => QueryOp::Block,
        _ => QueryOp::Post,
    }
}

/// What an event queues, in order, or `None` where it is dropped: no commit,
/// an unknown collection, a filter that rejects it, an operation other than
/// create or delete, or a create whose subject is missing.
pub open spec fn event_plan(
    evt: BskyEvent,
    chain: FilterChain,
    now_us: i64,
    parsed: Option<i64>,
) -> Option<Seq<PlanStep>> {
    match evt.commit {
        None => None,
        Some(c) => {
            let t = collection_type(c.collection@);
            let did = evt.did@;
            if t == ATEventType::Unknown || !chain.passes_spec(t, evt, now_us, parsed) {
                None
            } else if c.operation@ == "create"@ {
                match t {
                    ATEventType::Post => Some(post_plan(did, c, parsed, evt.time_us)),
                    ATEventType::Repost | ATEventType::Like => {
                        let k = subject_rkey(c);
                        if k.len() == 0 {
                            None
                        } else {
                            Some(
                                seq![
                                    (
                                        op_of(t),
                                        false,
                                        row3("did"@, did, "rkey"@, c.rkey@, "rkey_parent"@, k),
                                    ),
                                ],
                            )
                        }
                    },
                    ATEventType::Follow => match subject_did(c) {
                        Some(o) => Some(
                            seq![(QueryOp::Follow, false, row3("out"@, o, "rkey"@, c.rkey@, "did"@, did))],
                        ),
                        None => None,
                    },
                    ATEventType::Block => match subject_did(c) {
                        Some(b) => Some(
                            seq![
                                (
                                    QueryOp::Block,
                                    false,
                                    row3("blockee"@, b, "rkey"@, c.rkey@, "did"@, did),
                                ),
                            ],
                        ),
                        None => None,
                    },
                    _ => None,
                }
            } else if c.operation@ == "delete"@ {
                Some(seq![(op_of(t), true, row2("did"@, did, "rkey"@, c.rkey@))])
            } else {
                None
            }
        },
    }
}

/// Lag of an event in milliseconds, `(now - time) / 1000` rounded toward zero.
pub open spec fn drift_ms(now_us: i64, time_us: i64) -> int {
    let d = now_us as int - time_us as int;
    if d >= 0 {
        d / 1000
    } else {
        -((-d) / 1000)
    }
}

/// Dispatching `evt` at `now_us` takes the model from `g0` to `g1` and returns
/// `r`: a dropped event changes nothing and returns `(0, rec)`.
pub open spec fn dispatched(
    g0: GraphModel,
    g1: GraphModel,
    chain: FilterChain,
    evt: BskyEvent,
    now_us: i64,
    parsed: Option<i64>,
    rec: Option<CommitToken>,
    r: (i64, Option<CommitToken>),
) -> bool {
    match event_plan(evt, chain, now_us, parsed) {
        None => g1 == g0 && r == (0i64, rec),
        Some(steps) => r.0 as int == drift_ms(now_us, evt.time_us) && runs(g0, g1, steps, rec, r.1),
    }
}

fn drift_of(now_us: i64, time_us: i64) -> (r: i64)
    ensures
        r as int == drift_ms(now_us, time_us),
{
    let d: i128 = now_us as i128 - time_us as i128;
    if d >= 0 {
        assert(d / 1000 <= d) by (nonlinear_arith)
            requires
                d >= 0,
        ;
        (d / 1000) as i64
    } else {
        let e: i128 = 0 - d;
        assert(e / 1000 <= e) by (nonlinear_arith)
            requires
                e >= 0,
        ;
        assert(e / 1000 >= 0) by (nonlinear_arith)
            requires
                e >= 0,
        ;
        (0 - e / 1000) as i64
    }
}

/// The record key of the post a like or repost points at: the last characters
/// of the subject's URI, or empty.
pub fn get_rkey(commit: &Commit) -> (r: String)
    ensures
        r@ == subject_rkey(*commit),
{
    match &commit.record {
        Some(rec) => match &rec.subject {
            Some(Subj::T2(s)) => parse_rkey(s.uri.as_str()),
            _ => String::new(),
        },
        None => String::new(),
    }
}

fn get_subject_did(commit: &Commit) -> (r: Option<String>)
    ensures
        r matches Some(s) ==> subject_did(*commit) == Some(s@),
        r is None ==> subject_did(*commit) is None,
{
    match &commit.record {
        Some(rec) => match &rec.subject {
            Some(Subj::T1(s)) => if s.as_str().unicode_len() > 0 {
                Some(s.clone())
            } else {
                None
            },
            _ => None,
        },
        None => None,
    }
}

fn get_embeds_images(commit: &Commit) -> (r: bool)
    ensures
        r == embeds_images(*commit),
{
    match &commit.record {
        Some(rec) => match &rec.embed {
            Some(e) => match &e.type_field {
                Some(t) => {
                    let images = String::from_str("app.bsky.embed.images");
                    *t == images
                },
                None => false,
            },
            None => false,
        },
        None => false,
    }
}

/// Classifies an event and queues its mutations, threading the commit token:
/// `now_us` is the current time and `parsed` the parsed `created_at` of its
/// record. Returns the event's lag in milliseconds and the token to hand to
/// the next event.
pub fn dispatch_event(
    g: &mut GraphModel,
    chain: &FilterChain,
    evt: &BskyEvent,
    now_us: i64,
    parsed: Option<i64>,
    rec: Option<CommitToken>,
) -> (r: (i64, Option<CommitToken>))
    requires
        old(g).wf(),
    ensures
        final(g).wf(),
        dispatched(*old(g), *final(g), *chain, *evt, now_us, parsed, rec, r),
{
    let commit = match &evt.commit {
        Some(c) => c,
        None => return (0, rec),
    };
    let t = commit.get_type();
    if t == ATEventType::Unknown {
        return (0, rec);
    }
    if !chain.passes(t, evt, now_us, parsed) {
        return (0, rec);
    }
    let drift = drift_of(now_us, evt.time_us);
    let ghost g0 = *g;
    let did = evt.did.clone();
    let rkey = commit.rkey.clone();
    if commit.operation == String::from_str("create") {
        match t {
            ATEventType::Post => {
                let created: i64 = match &commit.record {
                    Some(_) => match parsed {
                        Some(x) => x,
                        None => evt.time_us,
                    },
                    None => 0,
                };
                let img = get_embeds_images(commit);
                let parent: Option<String> = match &commit.record {
                    Some(r) => match &r.reply {
                        Some(rp) => Some(parse_rkey(rp.parent.uri.as_str())),
                        None => None,
                    },
                    None => None,
                };
                match parent {
                    Some(p) => {
                        let t1 = g.add_reply(did.clone(), rkey.clone(), p, rec);
                        let ghost gm = *g;
                        let t2 = g.add_post(did, rkey, &created, true, img, t1);
                        proof {
                            lemma_runs_two(
                                g0,
                                gm,
                                *g,
                                post_plan(evt.did@, *commit, parsed, evt.time_us)[0],
                                post_plan(evt.did@, *commit, parsed, evt.time_us)[1],
                                rec,
                                t1,
                                t2,
                            );
                            assert(post_plan(evt.did@, *commit, parsed, evt.time_us) =~= seq![
                                post_plan(evt.did@, *commit, parsed, evt.time_us)[0],
                                post_plan(evt.did@, *commit, parsed, evt.time_us)[1],
                            ]);
                        }
                        (drift, t2)
                    },
                    None => {
                        let t1 = g.add_post(did, rkey, &created, false, img, rec);
                        proof {
                            lemma_runs_one(
                                g0,
                                *g,
                                post_plan(evt.did@, *commit, parsed, evt.time_us)[0],
                                rec,
                                t1,
                            );
                            assert(post_plan(evt.did@, *commit, parsed, evt.time_us) =~= seq![
                                post_plan(evt.did@, *commit, parsed, evt.time_us)[0],
                            ]);
                        }
                        (drift, t1)
                    },
                }
            },
            ATEventType::Repost | ATEventType::Like => {
                let k = get_rkey(commit);
                if k.as_str().unicode_len() == 0 {
                    return (0, rec);
                }
                let ghost kv = k@;
                let t1 = if t == ATEventType::Repost {
                    g.add_repost(did, k, rkey, rec)
                } else {
                    g.add_like(did, k, rkey, rec)
                };
                proof {
                    lemma_runs_one(
                        g0,
                        *g,
                        (op_of(t), false, row3("did"@, evt.did@, "rkey"@, commit.rkey@, "rkey_parent"@, kv)),
                        rec,
                        t1,
                    );
                }
                (drift, t1)
            },
            ATEventType::Follow => {
                match get_subject_did(commit) {
                    Some(o) => {
                        let ghost ov = o@;
                        let t1 = g.add_follow(did, o, rkey, rec);
                        proof {
                            lemma_runs_one(
                                g0,
                                *g,
                                (QueryOp::Follow, false, row3("out"@, ov, "rkey"@, commit.rkey@, "did"@, evt.did@)),
                                rec,
                                t1,
                            );
                        }
                        (drift, t1)
                    },
                    None => (0, rec),
                }
            },
            ATEventType::Block => {
                match get_subject_did(commit) {
                    Some(b) => {
                        let ghost bv = b@;
                        let t1 = g.add_block(b, did, rkey, rec);
                        proof {
                            lemma_runs_one(
                                g0,
                                *g,
                                (QueryOp::Block, false, row3("blockee"@, bv, "rkey"@, commit.rkey@, "did"@, evt.did@)),
                                rec,
                                t1,
                            );
                        }
                        (drift, t1)
                    },
                    None => (0, rec),
                }
            },
            _ => (0, rec),
        }
    } else if commit.operation == String::from_str("delete") {
        let t1 = match t {
            ATEventType::Post => g.rm_post(did, rkey, rec),
            ATEventType::Repost => g.rm_repost(did, rkey, rec),
            ATEventType::Like => g.rm_like(did, rkey, rec),
            ATEventType::Follow => g.rm_follow(did, rkey, rec),
            _ => g.rm_block(did, rkey, rec),
        };
        proof {
            lemma_runs_one(
                g0,
                *g,
                (op_of(t), true, row2("did"@, evt.did@, "rkey"@, commit.rkey@)),
                rec,
                t1,
            );
        }
        (drift, t1)
    } else {
        (0, rec)
    }
}

/// Dispatches an event against the wall clock, parsing its record's
/// `created_at` first.
pub fn handle_event(
    g: &mut GraphModel,
    chain: &FilterChain,
    evt: &BskyEvent,
    rec: Option<CommitToken>,
) -> (r: (i64, Option<CommitToken>))
    requires
        old(g).wf(),
    ensures
        final(g).wf(),
        exists|now_us: i64|
            #[trigger] dispatched(
                *old(g),
                *final(g),
                *chain,
                *evt,
                now_us,
                created_at_micros(*evt),
                rec,
                r,
            ),
{
    let now_us = now_micros();
    let parsed = parse_created_at(evt);
    dispatch_event(g, chain, evt, now_us, parsed, rec)
}


/// A create event that is not dropped queues exactly one row for its own
/// type's operation (a reply row may come with a post, under another
/// operation).
pub proof fn lemma_create_queues_one_row(
    evt: BskyEvent,
    chain: FilterChain,
    now_us: i64,
    parsed: Option<i64>,
)
    requires
        evt.commit matches Some(c) && c.operation@ == "create"@,
        event_plan(evt, chain, now_us, parsed) is Some,
    ensures
        ({
            let c = evt.commit.unwrap();
            let op = op_of(collection_type(c.collection@));
            let steps = event_plan(evt, chain, now_us, parsed).unwrap();
            exists|i: int|
                0 <= i < steps.len() && #[trigger] steps[i].0 == op && !steps[i].1 && forall|j: int|
                    0 <= j < steps.len() && j != i ==> steps[j].0 != op
        }),
{
    let c = evt.commit.unwrap();
    let t = collection_type(c.collection@);
    let op = op_of(t);
    let steps = event_plan(evt, chain, now_us, parsed).unwrap();
    if t == ATEventType::Post && c.record is Some && c.record.unwrap().reply is Some {
        assert(steps.len() == 2);
        assert(steps[1].0 == op && !steps[1].1);
        assert(forall|j: int| 0 <= j < steps.len() && j != 1 ==> steps[j].0 != op);
    } else {
        assert(steps.len() == 1);
        assert(steps[0].0 == op && !steps[0].1);
    }
}

/// An event that a filter rejects queues nothing: the model is unchanged and
/// the token handed in comes back.
pub proof fn lemma_rejected_event_queues_nothing(
    g0: GraphModel,
    g1: GraphModel,
    chain: FilterChain,
    evt: BskyEvent,
    now_us: i64,
    parsed: Option<i64>,
    rec: Option<CommitToken>,
    r: (i64, Option<CommitToken>),
)
    requires
        evt.commit matches Some(c) && !chain.passes_spec(
            collection_type(c.collection@),
            evt,
            now_us,
            parsed,
        ),
        dispatched(g0, g1, chain, evt, now_us, parsed, rec, r),
    ensures
        g1 == g0,
        r == (0i64, rec),
{
}

/// Under a chain whose global filters hold the date rule, an event whose record
/// was created a day or more before `now_us` is dropped before any queueing.
pub proof fn lemma_stale_record_dropped(
    g0: GraphModel,
    g1: GraphModel,
    chain: FilterChain,
    evt: BskyEvent,
    now_us: i64,
    parsed: Option<i64>,
    rec: Option<CommitToken>,
    r: (i64, Option<CommitToken>),
)
    requires
        chain.global@.contains(FilterKind::Date),
        record_of(evt) is Some,
        parsed matches Some(t) && (now_us as int) - (t as int) >= (DAY_US as int),
        dispatched(g0, g1, chain, evt, now_us, parsed, rec, r),
    ensures
        g1 == g0,
        r == (0i64, rec),
{
    let i = choose|i: int| 0 <= i < chain.global@.len() && chain.global@[i] == FilterKind::Date;
    assert(!kind_passes(chain.global@[i], evt, now_us, parsed));
    assert(!all_pass(chain.global@, evt, now_us, parsed));
}

/// A created post that answers another queues its reply row first; the post
/// row is queued with the token the reply step returned, so a commit the post
/// triggers waits for any commit the reply triggered.
pub proof fn lemma_reply_queued_before_post(
    g0: GraphModel,
    g1: GraphModel,
    chain: FilterChain,
    evt: BskyEvent,
    now_us: i64,
    parsed: Option<i64>,
    rec: Option<CommitToken>,
    r: (i64, Option<CommitToken>),
)
    requires
        evt.commit is Some,
        evt.commit.unwrap().operation@ == "create"@,
        collection_type(evt.commit.unwrap().collection@) == ATEventType::Post,
        evt.commit.unwrap().record is Some,
        evt.commit.unwrap().record.unwrap().reply is Some,
        chain.passes_spec(ATEventType::Post, evt, now_us, parsed),
        dispatched(g0, g1, chain, evt, now_us, parsed, rec, r),
    ensures
        ({
            let steps = post_plan(evt.did@, evt.commit.unwrap(), parsed, evt.time_us);
            &&& steps.len() == 2
            &&& steps[0].0 == QueryOp::Reply
            &&& steps[1].0 == QueryOp::Post
            &&& exists|gm: GraphModel, tm: Option<CommitToken>|
                #[trigger] g0.step(gm, QueryOp::Reply, false, steps[0].2, rec, tm) && gm.step(
                    g1,
                    QueryOp::Post,
                    false,
                    steps[1].2,
                    tm,
                    r.1,
                )
        }),
{
    let c = evt.commit.unwrap();
    let steps = post_plan(evt.did@, c, parsed, evt.time_us);
    assert(event_plan(evt, chain, now_us, parsed) == Some(steps));
    assert(runs(g0, g1, steps, rec, r.1));
    let (gm, tm) = choose|gm: GraphModel, tm: Option<CommitToken>|
        #[trigger] g0.step(gm, steps[0].0, steps[0].1, steps[0].2, rec, tm) && runs(
            gm,
            g1,
            steps.drop_first(),
            tm,
            r.1,
        );
    let rest = steps.drop_first();
    assert(rest[0] == steps[1]);
    assert(runs(gm, g1, rest, tm, r.1));
    let (g2, t2) = choose|g2: GraphModel, t2: Option<CommitToken>|
        #[trigger] gm.step(g2, rest[0].0, rest[0].1, rest[0].2, tm, t2) && runs(
            g2,
            g1,
            rest.drop_first(),
            t2,
            r.1,
        );
    assert(rest.drop_first().len() == 0);
    assert(g2 == g1 && t2 == r.1);
    assert(gm.step(g1, QueryOp::Post, false, steps[1].2, tm, r.1));
    assert(g0.step(gm, QueryOp::Reply, false, steps[0].2, rec, tm));
}

} // verus!

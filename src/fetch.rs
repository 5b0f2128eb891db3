use crate::text::{decimal_nat, get_post_uri, post_uri_of, replace_all, replace_str, u64_to_decimal};
use vstd::prelude::*;
use vstd::string::*;

verus! {

/// A post of a feed: its URI, the query that found it, and its creation time in
/// microseconds.
#[derive(Debug, Clone, PartialEq, Eq, Hash, Default)]
pub struct PostMsg {
    pub uri: String,
    pub reason: String,
    pub timestamp: u64,
}

/// The reply to one feed request.
#[derive(Debug, Clone, PartialEq)]
pub struct PostResp {
    pub posts: Vec<PostMsg>,
    pub cursor: Option<String>,
}

/// Lexicographic order of texts by character code.
pub open spec fn seq_lt(a: Seq<char>, b: Seq<char>) -> bool
    decreases a.len(),
{
    if a.len() == 0 {
        b.len() > 0
    } else if b.len() == 0 {
        false
    } else if a[0] != b[0] {
        (a[0] as u32) < (b[0] as u32)
    } else {
        seq_lt(a.drop_first(), b.drop_first())
    }
}

proof fn lemma_seq_lt_irreflexive(a: Seq<char>)
    ensures
        !seq_lt(a, a),
    decreases a.len(),
{
    if a.len() > 0 {
        lemma_seq_lt_irreflexive(a.drop_first());
    }
}

proof fn lemma_seq_lt_transitive(a: Seq<char>, b: Seq<char>, c: Seq<char>)
    requires
        seq_lt(a, b),
        seq_lt(b, c),
    ensures
        seq_lt(a, c),
    decreases a.len(),
{
    if a.len() > 0 && b.len() > 0 && c.len() > 0 {
        if a[0] == b[0] && b[0] == c[0] {
            lemma_seq_lt_transitive(a.drop_first(), b.drop_first(), c.drop_first());
        }
    }
}

proof fn lemma_seq_lt_total(a: Seq<char>, b: Seq<char>)
    requires
        a != b,
    ensures
        seq_lt(a, b) || seq_lt(b, a),
    decreases a.len(),
{
    if a.len() > 0 && b.len() > 0 {
        if a[0] == b[0] {
            if a.drop_first() == b.drop_first() {
                assert(a =~= seq![a[0]] + a.drop_first());
                assert(b =~= seq![b[0]] + b.drop_first());
            }
            lemma_seq_lt_total(a.drop_first(), b.drop_first());
        } else {
            let x = a[0] as u32;
            let y = b[0] as u32;
            vstd::utf8::char_u32_cast(a[0], x);
            vstd::utf8::char_u32_cast(b[0], y);
        }
    } else if a.len() == 0 && b.len() == 0 {
        assert(a =~= b);
    }
}

/// Compares two texts in `seq_lt` order.
pub fn text_lt(a: &str, b: &str) -> (r: bool)
    ensures
        r == seq_lt(a@, b@),
{
    let la = a.unicode_len();
    let lb = b.unicode_len();
    let mut i: usize = 0;
    assert(a@.subrange(0, la as int) =~= a@);
    assert(b@.subrange(0, lb as int) =~= b@);
    while i < la && i < lb
        invariant
            la == a@.len(),
            lb == b@.len(),
            i <= la,
            i <= lb,
            seq_lt(a@, b@) == seq_lt(a@.subrange(i as int, la as int), b@.subrange(i as int, lb as int)),
        decreases la - i,
    {
        let x = a.get_char(i);
        let y = b.get_char(i);
        let ghost sa = a@.subrange(i as int, la as int);
        let ghost sb = b@.subrange(i as int, lb as int);
        assert(sa[0] == x && sb[0] == y);
        if x != y {
            return (x as u32) < (y as u32);
        }
        assert(sa.drop_first() =~= a@.subrange(i + 1, la as int));
        assert(sb.drop_first() =~= b@.subrange(i + 1, lb as int));
        i += 1;
    }
    i < lb
}

/// Feed order: newer first, then by URI.
pub open spec fn ranks_before(a: PostMsg, b: PostMsg) -> bool {
    a.timestamp > b.timestamp || (a.timestamp == b.timestamp && seq_lt(a.uri@, b.uri@))
}

proof fn lemma_ranks_transitive(a: PostMsg, b: PostMsg, c: PostMsg)
    requires
        ranks_before(a, b),
        ranks_before(b, c),
    ensures
        ranks_before(a, c),
{
    if a.timestamp == b.timestamp && b.timestamp == c.timestamp {
        lemma_seq_lt_transitive(a.uri@, b.uri@, c.uri@);
    }
}

proof fn lemma_ranks_total(a: PostMsg, b: PostMsg)
    requires
        a.uri@ != b.uri@,
    ensures
        ranks_before(a, b) || ranks_before(b, a),
{
    lemma_seq_lt_total(a.uri@, b.uri@);
}

/// Whether `a` comes before `b` in feed order.
pub fn ranks_before_exec(a: &PostMsg, b: &PostMsg) -> (r: bool)
    ensures
        r == ranks_before(*a, *b),
{
    a.timestamp > b.timestamp || (a.timestamp == b.timestamp && text_lt(
        a.uri.as_str(),
        b.uri.as_str(),
    ))
}

/// Strictly in feed order.
pub open spec fn sorted_feed(s: Seq<PostMsg>) -> bool {
    forall|i: int, j: int| 0 <= i < j < s.len() ==> ranks_before(#[trigger] s[i], #[trigger] s[j])
}

/// No two posts share a URI.
pub open spec fn unique_uris(s: Seq<PostMsg>) -> bool {
    forall|i: int, j: int|
        0 <= i < s.len() && 0 <= j < s.len() && i != j ==> #[trigger] s[i].uri@ != #[trigger] s[j].uri@
}

/// `p` is the last post of `s` with its URI.
pub open spec fn is_latest(s: Seq<PostMsg>, p: PostMsg) -> bool {
    exists|k: int|
        0 <= k < s.len() && #[trigger] s[k] == p && forall|j: int|
            k < j < s.len() ==> #[trigger] s[j].uri@ != p.uri@
}

/// Some post of `s` has the URI `u`.
pub open spec fn has_uri(s: Seq<PostMsg>, u: Seq<char>) -> bool {
    exists|i: int| 0 <= i < s.len() && #[trigger] s[i].uri@ == u
}

/// What merging yields from `input`: one post per URI, the last given, in feed
/// order.
pub open spec fn merge_of(input: Seq<PostMsg>, r: Seq<PostMsg>) -> bool {
    &&& sorted_feed(r)
    &&& unique_uris(r)
    &&& forall|i: int| 0 <= i < r.len() ==> is_latest(input, #[trigger] r[i])
    &&& forall|k: int| 0 <= k < input.len() ==> has_uri(r, #[trigger] input[k].uri@)
}

proof fn lemma_push_sorted(s: Seq<PostMsg>, x: PostMsg)
    requires
        sorted_feed(s),
        forall|m: int| 0 <= m < s.len() ==> ranks_before(#[trigger] s[m], x),
    ensures
        sorted_feed(s.push(x)),
{
    let t = s.push(x);
    assert forall|a: int, b: int| 0 <= a < b < t.len() implies ranks_before(#[trigger] t[a], #[trigger] t[b]) by {
        assert(t[a] == s[a]);
        if b < s.len() {
            assert(t[b] == s[b]);
        }
    }
}

proof fn lemma_push_unique(s: Seq<PostMsg>, x: PostMsg)
    requires
        unique_uris(s),
        forall|m: int| 0 <= m < s.len() ==> (#[trigger] s[m]).uri@ != x.uri@,
    ensures
        unique_uris(s.push(x)),
{
    let t = s.push(x);
    assert forall|a: int, b: int|
        0 <= a < t.len() && 0 <= b < t.len() && a != b implies #[trigger] t[a].uri@ != #[trigger] t[b].uri@ by {
        if a < s.len() {
            assert(t[a] == s[a]);
        }
        if b < s.len() {
            assert(t[b] == s[b]);
        }
    }
}

/// Puts `p` into a merged feed, replacing the post with the same URI if any.
fn insert_post(out: Vec<PostMsg>, p: PostMsg) -> (r: Vec<PostMsg>)
    requires
        sorted_feed(out@),
        unique_uris(out@),
    ensures
        sorted_feed(r@),
        unique_uris(r@),
        r@.contains(p),
        forall|i: int|
            0 <= i < r@.len() ==> #[trigger] r@[i] == p || (out@.contains(r@[i]) && r@[i].uri@
                != p.uri@),
        forall|i: int| 0 <= i < out@.len() && #[trigger] out@[i].uri@ != p.uri@ ==> r@.contains(out@[i]),
{
    let mut r: Vec<PostMsg> = Vec::new();
    let mut placed = false;
    let mut i: usize = 0;
    let n = out.len();
    let ghost old_out = out@;
    let mut out = out;
    proof {
        lemma_seq_lt_irreflexive(p.uri@);
    }
    while i < n
        invariant
            n == old_out.len(),
            out@.len() == old_out.len(),
            forall|k: int| i <= k < n ==> #[trigger] out@[k] == old_out[k],
            i <= n,
            !ranks_before(p, p),
            sorted_feed(old_out),
            unique_uris(old_out),
            sorted_feed(r@),
            unique_uris(r@),
            placed ==> r@.contains(p),
            !placed ==> forall|m: int| 0 <= m < r@.len() ==> ranks_before(#[trigger] r@[m], p),
            forall|m: int|
                0 <= m < r@.len() ==> #[trigger] r@[m] == p || (old_out.contains(r@[m]) && r@[m].uri@
                    != p.uri@),
            forall|m: int, k: int|
                0 <= m < r@.len() && i <= k < n && old_out[k].uri@ != p.uri@ ==> ranks_before(
                    #[trigger] r@[m],
                    #[trigger] old_out[k],
                ),
            forall|k: int|
                0 <= k < i && #[trigger] old_out[k].uri@ != p.uri@ ==> r@.contains(old_out[k]),
        decreases n - i,
    {
        let mut q = PostMsg { uri: String::new(), reason: String::new(), timestamp: 0 };
        std::mem::swap(&mut q, &mut out[i]);
        assert(q == old_out[i as int]);
        let same = q.uri == p.uri;
        if !same && !placed && ranks_before_exec(&p, &q) {
            let ghost r0 = r@;
            let pc = PostMsg { uri: p.uri.clone(), reason: p.reason.clone(), timestamp: p.timestamp };
            assert(pc == p);
            proof {
                assert forall|m: int| 0 <= m < r0.len() implies (#[trigger] r0[m]).uri@ != p.uri@ by {
                    assert(r0[m] != p);
                }
                lemma_push_sorted(r0, p);
                lemma_push_unique(r0, p);
            }
            r.push(pc);
            placed = true;
            proof {
                assert(r@[r@.len() - 1] == p);
                assert forall|m: int, k: int|
                    0 <= m < r@.len() && i <= k < n && old_out[k].uri@ != p.uri@ implies ranks_before(
                        #[trigger] r@[m],
                        #[trigger] old_out[k],
                    ) by {
                    if m < r0.len() {
                        assert(r@[m] == r0[m]);
                    } else if k > i {
                        lemma_ranks_transitive(p, old_out[i as int], old_out[k]);
                    }
                }
                assert forall|k: int| 0 <= k < i && #[trigger] old_out[k].uri@ != p.uri@ implies r@.contains(
                    old_out[k],
                ) by {
                    let m = choose|m: int| 0 <= m < r0.len() && r0[m] == old_out[k];
                    assert(r@[m] == old_out[k]);
                }
            }
        }
        if !same {
            let ghost r0 = r@;
            proof {
                if !placed {
                    lemma_ranks_total(p, q);
                }
                assert forall|m: int| 0 <= m < r0.len() implies ranks_before(#[trigger] r0[m], q) by {}
                assert forall|m: int| 0 <= m < r0.len() implies (#[trigger] r0[m]).uri@ != q.uri@ by {
                    if r0[m] != p {
                        let k = choose|k: int| 0 <= k < old_out.len() && old_out[k] == r0[m];
                        if k == i {
                            assert(ranks_before(r0[m], old_out[k]));
                            lemma_seq_lt_irreflexive(q.uri@);
                        }
                    }
                }
                lemma_push_sorted(r0, q);
                lemma_push_unique(r0, q);
                assert(old_out.contains(old_out[i as int]));
            }
            r.push(q);
            proof {
                assert(r@[r@.len() - 1] == old_out[i as int]);
                assert forall|m: int, k: int|
                    0 <= m < r@.len() && i + 1 <= k < n && old_out[k].uri@ != p.uri@ implies ranks_before(
                        #[trigger] r@[m],
                        #[trigger] old_out[k],
                    ) by {
                    if m < r0.len() {
                        assert(r@[m] == r0[m]);
                    }
                }
                assert forall|k: int| 0 <= k < i + 1 && #[trigger] old_out[k].uri@ != p.uri@ implies r@.contains(
                    old_out[k],
                ) by {
                    if k == i {
                        assert(r@[r@.len() - 1] == old_out[k]);
                    } else {
                        let m = choose|m: int| 0 <= m < r0.len() && r0[m] == old_out[k];
                        assert(r@[m] == old_out[k]);
                    }
                }
                assert forall|m: int| 0 <= m < r@.len() implies #[trigger] r@[m] == p || (old_out.contains(r@[m]) && r@[m].uri@
                    != p.uri@) by {
                    if m < r0.len() {
                        assert(r@[m] == r0[m]);
                    }
                }
                if !placed {
                    assert forall|m: int| 0 <= m < r@.len() implies ranks_before(#[trigger] r@[m], p) by {
                        if m < r0.len() {
                            assert(r@[m] == r0[m]);
                        }
                    }
                }
                if placed {
                    let m = choose|m: int| 0 <= m < r0.len() && r0[m] == p;
                    assert(r@[m] == p);
                }
            }
        } else {
            proof {
                assert forall|m: int, k: int|
                    0 <= m < r@.len() && i + 1 <= k < n && old_out[k].uri@ != p.uri@ implies ranks_before(
                        #[trigger] r@[m],
                        #[trigger] old_out[k],
                    ) by {}
            }
        }
        i += 1;
    }
    if !placed {
        let ghost r0 = r@;
        proof {
            assert forall|m: int| 0 <= m < r0.len() implies (#[trigger] r0[m]).uri@ != p.uri@ by {
                assert(r0[m] != p);
            }
            lemma_push_sorted(r0, p);
            lemma_push_unique(r0, p);
        }
        r.push(p);
        proof {
            assert(r@[r@.len() - 1] == p);
            assert forall|m: int| 0 <= m < r@.len() implies #[trigger] r@[m] == p || (old_out.contains(r@[m]) && r@[m].uri@
                != p.uri@) by {
                if m < r0.len() {
                    assert(r@[m] == r0[m]);
                }
            }
            assert forall|k: int| 0 <= k < n && #[trigger] old_out[k].uri@ != p.uri@ implies r@.contains(old_out[k]) by {
                let m = choose|m: int| 0 <= m < r0.len() && r0[m] == old_out[k];
                assert(r@[m] == old_out[k]);
            }
        }
    }
    r
}

proof fn lemma_merge_step(pre: Seq<PostMsg>, out: Seq<PostMsg>, p: PostMsg, out2: Seq<PostMsg>)
    requires
        merge_of(pre, out),
        sorted_feed(out2),
        unique_uris(out2),
        out2.contains(p),
        forall|i: int|
            0 <= i < out2.len() ==> #[trigger] out2[i] == p || (out.contains(out2[i]) && out2[i].uri@
                != p.uri@),
        forall|i: int| 0 <= i < out.len() && #[trigger] out[i].uri@ != p.uri@ ==> out2.contains(out[i]),
    ensures
        merge_of(pre.push(p), out2),
{
    let pre2 = pre.push(p);
    assert forall|i: int| 0 <= i < out2.len() implies is_latest(pre2, #[trigger] out2[i]) by {
        if out2[i] == p {
            assert(pre2[pre.len() as int] == p);
        } else {
            let m = choose|m: int| 0 <= m < out.len() && out[m] == out2[i];
            assert(is_latest(pre, out[m]));
            let k = choose|k: int|
                0 <= k < pre.len() && #[trigger] pre[k] == out[m] && forall|j: int|
                    k < j < pre.len() ==> #[trigger] pre[j].uri@ != out[m].uri@;
            assert(pre2[k] == out2[i]);
            assert forall|j: int| k < j < pre2.len() implies #[trigger] pre2[j].uri@ != out2[i].uri@ by {
                if j < pre.len() {
                    assert(pre2[j] == pre[j]);
                }
            }
        }
    }
    assert forall|k: int| 0 <= k < pre2.len() implies has_uri(out2, #[trigger] pre2[k].uri@) by {
        if pre2[k].uri@ == p.uri@ {
            let m = choose|m: int| 0 <= m < out2.len() && out2[m] == p;
            assert(out2[m].uri@ == pre2[k].uri@);
        } else {
            assert(pre2[k] == pre[k]);
            assert(has_uri(out, pre[k].uri@));
            let i = choose|i: int| 0 <= i < out.len() && #[trigger] out[i].uri@ == pre[k].uri@;
            assert(out2.contains(out[i]));
            let m = choose|m: int| 0 <= m < out2.len() && out2[m] == out[i];
            assert(out2[m].uri@ == pre2[k].uri@);
        }
    }
}

/// Merges query results: one post per URI (the last one given wins), sorted
/// newest first, equal times by URI.
pub fn merge_posts(input: Vec<PostMsg>) -> (r: Vec<PostMsg>)
    ensures
        merge_of(input@, r@),
{
    let ghost all = input@;
    let mut input = input;
    let n = input.len();
    let mut out: Vec<PostMsg> = Vec::new();
    let mut k: usize = 0;
    while k < n
        invariant
            n == all.len(),
            input@.len() == n,
            k <= n,
            forall|j: int| k <= j < n ==> #[trigger] input@[j] == all[j],
            merge_of(all.subrange(0, k as int), out@),
        decreases n - k,
    {
        let mut p = PostMsg { uri: String::new(), reason: String::new(), timestamp: 0 };
        std::mem::swap(&mut p, &mut input[k]);
        assert(p == all[k as int]);
        let ghost out0 = out@;
        out = insert_post(out, p);
        proof {
            lemma_merge_step(all.subrange(0, k as int), out0, all[k as int], out@);
            assert(all.subrange(0, k as int).push(all[k as int]) =~= all.subrange(0, k + 1));
        }
        k += 1;
    }
    assert(all.subrange(0, n as int) =~= all);
    out
}

/// Most posts one reply carries.
pub const FEED_LIMIT: usize = 30;

/// Cached overflow is served only while its oldest post is younger than this
/// (in microseconds); older overflow is dropped.
pub const CACHE_TTL_US: u64 = 300_000_000;

/// The reply to a request that is not served: one blank post and the cursor
/// `EMPTY_DID`.
pub open spec fn is_sentinel(r: PostResp) -> bool {
    &&& r.posts@.len() == 1
    &&& r.posts@[0].uri@.len() == 0
    &&& r.posts@[0].reason@.len() == 0
    &&& r.posts@[0].timestamp == 0
    &&& r.cursor matches Some(c) && c@ == "EMPTY_DID"@
}

/// The reply to a request that is not served.
pub fn sentinel_response() -> (r: PostResp)
    ensures
        is_sentinel(r),
{
    let mut posts = Vec::new();
    posts.push(PostMsg { uri: String::new(), reason: String::new(), timestamp: 0 });
    PostResp { posts, cursor: Some(String::from_str("EMPTY_DID")) }
}

/// The post a query row names: the URI of `rkey` by `user`, tagged with the
/// query's `reason`.
pub fn post_from_row(user: String, rkey: String, ts: u64, reason: &str) -> (r: PostMsg)
    ensures
        r.uri@ == post_uri_of(user@, rkey@),
        r.reason@ == reason@,
        r.timestamp == ts,
{
    PostMsg { uri: get_post_uri(user, rkey), reason: String::from_str(reason), timestamp: ts }
}

/// Binds a query template to a cursor: every `{}` becomes the cursor.
pub fn bind_cursor(template: &str, cursor: &str) -> (r: String)
    ensures
        r@ == replace_all(template@, "{}"@, cursor@),
{
    proof {
        reveal_strlit("{}");
    }
    replace_str(template, "{}", cursor)
}

/// The cursor of a reply: the time of its last post, in decimal; none for an
/// empty reply.
pub open spec fn reply_cursor(posts: Seq<PostMsg>) -> Option<Seq<char>> {
    if posts.len() == 0 {
        None
    } else {
        Some(decimal_nat(posts.last().timestamp as nat))
    }
}

/// Splits a merged feed into the reply (at most `FEED_LIMIT` posts, with the
/// time of the last as cursor) and the overflow kept for the next request.
pub fn compose_reply(merged: Vec<PostMsg>) -> (r: (PostResp, Vec<PostMsg>))
    ensures
        merged@.len() <= FEED_LIMIT ==> r.0.posts@ == merged@ && r.1@.len() == 0,
        merged@.len() > FEED_LIMIT ==> r.0.posts@ == merged@.subrange(0, FEED_LIMIT as int)
            && r.1@ == merged@.subrange(FEED_LIMIT as int, merged@.len() as int),
        r.0.cursor is None <==> reply_cursor(r.0.posts@) is None,
        r.0.cursor matches Some(c) ==> reply_cursor(r.0.posts@) == Some(c@),
{
    let mut posts = merged;
    let rest = if posts.len() > FEED_LIMIT {
        posts.split_off(FEED_LIMIT)
    } else {
        Vec::new()
    };
    let n = posts.len();
    let cursor = if n == 0 {
        None
    } else {
        Some(u64_to_decimal(posts[n - 1].timestamp))
    };
    (PostResp { posts, cursor }, rest)
}

/// The overflow cached for `did`: the last entry stored under it, or empty.
pub open spec fn cached_for(entries: Seq<(String, Vec<PostMsg>)>, did: Seq<char>) -> Seq<PostMsg>
    decreases entries.len(),
{
    if entries.len() == 0 {
        Seq::empty()
    } else if entries.last().0@ == did {
        entries.last().1@
    } else {
        cached_for(entries.drop_last(), did)
    }
}

/// Whether `did` is among the DIDs of `s`.
pub open spec fn has_did(s: Seq<String>, did: Seq<char>) -> bool {
    exists|i: int| 0 <= i < s.len() && #[trigger] s[i]@ == did
}

/// What a request for `did` is answered with.
#[derive(Debug)]
pub enum FetchDecision {
    /// Answer with the sentinel reply.
    Sentinel,
    /// Serve the request: query below `cursor` and merge in `cached`.
    Serve { cursor: String, cached: Vec<PostMsg> },
}

/// The state of the feed coordinator: DIDs being backfilled and each DID's
/// cached overflow.
#[derive(Debug)]
pub struct Coordinator {
    pub in_flight: Vec<String>,
    pub cache: Vec<(String, Vec<PostMsg>)>,
}

/// Whether cached overflow is fresh enough to serve at `now_us`.
pub open spec fn cache_fresh(cached: Seq<PostMsg>, now_us: u64) -> bool {
    cached.len() > 0 && (now_us as int) - (cached.last().timestamp as int) < CACHE_TTL_US as int
}

impl Coordinator {
    /// No request in flight, nothing cached.
    pub fn new() -> (r: Coordinator)
        ensures
            r.in_flight@.len() == 0,
            r.cache@.len() == 0,
    {
        Coordinator { in_flight: Vec::new(), cache: Vec::new() }
    }

    /// What `begin_request` does, from `self` to `next`, for `did` with the
    /// request's `cursor`, `now` the current time as a cursor.
    pub open spec fn begin_step(
        self,
        next: Coordinator,
        did: Seq<char>,
        cursor: Option<Seq<char>>,
        now_us: u64,
        r_cursor: Option<Seq<char>>,
        r_cached: Option<Seq<PostMsg>>,
    ) -> bool {
        if did.len() == 0 || has_did(self.in_flight@, did) {
            next == self && r_cursor is None && r_cached is None
        } else {
            let cached = cached_for(self.cache@, did);
            &&& has_did(next.in_flight@, did)
            &&& forall|d: Seq<char>| d != did ==> (has_did(next.in_flight@, d) == has_did(self.in_flight@, d))
            &&& forall|d: Seq<char>| d != did ==> cached_for(next.cache@, d) == cached_for(self.cache@, d)
            &&& cached_for(next.cache@, did).len() == 0
            &&& if cache_fresh(cached, now_us) {
                &&& r_cached == Some(cached)
                &&& r_cursor == Some(decimal_nat(cached.last().timestamp as nat))
            } else {
                &&& r_cached == Some(Seq::<PostMsg>::empty())
                &&& r_cursor == Some(match cursor {
                    Some(c) => c,
                    None => decimal_nat(now_us as nat),
                })
            }
        }
    }

    /// Takes a request for `did`: an empty DID, or one already being
    /// backfilled, gets the sentinel. Otherwise the DID is marked in flight and
    /// the request is served below its cursor (else the current time), or
    /// from its fresh cached overflow, which is consumed.
    pub fn begin_request(&mut self, did: &str, cursor: Option<String>, now_us: u64) -> (r:
        FetchDecision)
        ensures
            old(self).begin_step(
                *final(self),
                did@,
                match cursor {
                    Some(c) => Some(c@),
                    None => None,
                },
                now_us,
                match r {
                    FetchDecision::Serve { cursor, cached } => Some(cursor@),
                    FetchDecision::Sentinel => None,
                },
                match r {
                    FetchDecision::Serve { cursor, cached } => Some(cached@),
                    FetchDecision::Sentinel => None,
                },
            ),
    {
        if did.unicode_len() == 0 || self.is_in_flight(did) {
            return FetchDecision::Sentinel;
        }
        self.mark_in_flight(did);
        let cached = self.take_cached(did);
        let n = cached.len();
        if n > 0 && (now_us as i128) - (cached[n - 1].timestamp as i128) < CACHE_TTL_US as i128 {
            let c = u64_to_decimal(cached[n - 1].timestamp);
            FetchDecision::Serve { cursor: c, cached }
        } else {
            let c = match cursor {
                Some(c) => c,
                None => u64_to_decimal(now_us),
            };
            FetchDecision::Serve { cursor: c, cached: Vec::new() }
        }
    }

    /// Whether `did` is being backfilled.
    pub fn is_in_flight(&self, did: &str) -> (r: bool)
        ensures
            r == has_did(self.in_flight@, did@),
    {
        let d = String::from_str(did);
        let mut i: usize = 0;
        while i < self.in_flight.len()
            invariant
                i <= self.in_flight@.len(),
                d@ == did@,
                forall|j: int| 0 <= j < i ==> #[trigger] self.in_flight@[j]@ != did@,
            decreases self.in_flight@.len() - i,
        {
            if self.in_flight[i] == d {
                return true;
            }
            i += 1;
        }
        false
    }

    fn mark_in_flight(&mut self, did: &str)
        ensures
            has_did(final(self).in_flight@, did@),
            forall|d: Seq<char>| d != did@ ==> (has_did(final(self).in_flight@, d) == has_did(old(self).in_flight@, d)),
            final(self).cache@ == old(self).cache@,
    {
        let ghost s0 = self.in_flight@;
        self.in_flight.push(String::from_str(did));
        let ghost s1 = self.in_flight@;
        assert(s1[s0.len() as int]@ == did@);
        assert forall|d: Seq<char>| d != did@ implies (has_did(s1, d) == has_did(s0, d)) by {
            if has_did(s0, d) {
                let i = choose|i: int| 0 <= i < s0.len() && #[trigger] s0[i]@ == d;
                assert(s1[i] == s0[i]);
            }
            if has_did(s1, d) {
                let i = choose|i: int| 0 <= i < s1.len() && #[trigger] s1[i]@ == d;
                assert(s1[i] == s0[i]);
            }
        }
    }

    /// Marks the backfill of `did` as done.
    pub fn finish_backfill(&mut self, did: &str)
        ensures
            !has_did(final(self).in_flight@, did@),
            forall|d: Seq<char>| d != did@ ==> (has_did(final(self).in_flight@, d) == has_did(old(self).in_flight@, d)),
            final(self).cache@ == old(self).cache@,
    {
        let key = String::from_str(did);
        let mut kept: Vec<String> = Vec::new();
        let mut i: usize = 0;
        let ghost s0 = self.in_flight@;
        while i < self.in_flight.len()
            invariant
                s0 == self.in_flight@,
                i <= s0.len(),
                key@ == did@,
                forall|j: int| 0 <= j < kept@.len() ==> #[trigger] kept@[j]@ != did@,
                forall|d: Seq<char>|
                    d != did@ ==> (has_did(kept@, d) == has_did(s0.subrange(0, i as int), d)),
            decreases s0.len() - i,
        {
            let ghost k0 = kept@;
            let pushed = self.in_flight[i] != key;
            if pushed {
                kept.push(self.in_flight[i].clone());
            }
            proof {
                let pre = s0.subrange(0, i as int);
                let pre1 = s0.subrange(0, i + 1);
                assert forall|d: Seq<char>| d != did@ implies (has_did(kept@, d) == has_did(pre1, d)) by {
                    if has_did(pre1, d) {
                        let j = choose|j: int| 0 <= j < pre1.len() && #[trigger] pre1[j]@ == d;
                        if j < i {
                            assert(pre[j] == pre1[j]);
                            assert(has_did(pre, d));
                            assert(has_did(k0, d));
                            let m = choose|m: int| 0 <= m < k0.len() && #[trigger] k0[m]@ == d;
                            assert(kept@[m] == k0[m]);
                        } else {
                            assert(pre1[j] == s0[i as int]);
                            assert(pushed);
                            assert(kept@[kept@.len() - 1]@ == d);
                        }
                    }
                    if has_did(kept@, d) {
                        let j = choose|j: int| 0 <= j < kept@.len() && #[trigger] kept@[j]@ == d;
                        if j < k0.len() {
                            assert(kept@[j] == k0[j]);
                            assert(has_did(k0, d));
                            assert(has_did(pre, d));
                            let m = choose|m: int| 0 <= m < pre.len() && #[trigger] pre[m]@ == d;
                            assert(pre1[m] == pre[m]);
                        } else {
                            assert(pushed);
                            assert(kept@[j] == s0[i as int]);
                            assert(pre1[i as int] == s0[i as int]);
                        }
                    }
                }
                assert forall|j: int| 0 <= j < kept@.len() implies #[trigger] kept@[j]@ != did@ by {
                    if j < k0.len() {
                        assert(kept@[j] == k0[j]);
                    }
                }
            }
            i += 1;
        }
        assert(s0.subrange(0, s0.len() as int) =~= s0);
        self.in_flight = kept;
    }

    /// Removes and returns the overflow cached for `did` (empty if none).
    pub fn take_cached(&mut self, did: &str) -> (r: Vec<PostMsg>)
        ensures
            r@ == cached_for(old(self).cache@, did@),
            cached_for(final(self).cache@, did@).len() == 0,
            forall|d: Seq<char>| d != did@ ==> cached_for(final(self).cache@, d) == cached_for(old(self).cache@, d),
            final(self).in_flight@ == old(self).in_flight@,
    {
        let key = String::from_str(did);
        let mut kept: Vec<(String, Vec<PostMsg>)> = Vec::new();
        let mut found: Vec<PostMsg> = Vec::new();
        let ghost s0 = self.cache@;
        let mut entries: Vec<(String, Vec<PostMsg>)> = Vec::new();
        std::mem::swap(&mut entries, &mut self.cache);
        let n = entries.len();
        let mut i: usize = 0;
        while i < n
            invariant
                n == s0.len(),
                entries@.len() == n,
                forall|j: int| i <= j < n ==> #[trigger] entries@[j] == s0[j],
                i <= n,
                key@ == did@,
                self.in_flight@ == old(self).in_flight@,
                found@ == cached_for(s0.subrange(0, i as int), did@),
                cached_for(kept@, did@).len() == 0,
                forall|d: Seq<char>|
                    d != did@ ==> cached_for(kept@, d) == cached_for(s0.subrange(0, i as int), d),
            decreases n - i,
        {
            let mut e: (String, Vec<PostMsg>) = (String::new(), Vec::new());
            std::mem::swap(&mut e, &mut entries[i]);
            assert(e == s0[i as int]);
            let ghost pre1 = s0.subrange(0, i + 1);
            assert(pre1.drop_last() =~= s0.subrange(0, i as int));
            assert(pre1.last() == e);
            let ghost k0 = kept@;
            let ghost ev = e;
            if e.0 == key {
                found = e.1;
                proof {
                    assert forall|d: Seq<char>| d != did@ implies cached_for(kept@, d) == cached_for(pre1, d) by {
                        assert(pre1.last().0@ != d);
                    }
                }
            } else {
                kept.push(e);
                proof {
                    assert(kept@.drop_last() =~= k0);
                    assert(kept@.last() == ev);
                    assert(cached_for(kept@, did@) == cached_for(k0, did@));
                    assert(cached_for(pre1, did@) == cached_for(s0.subrange(0, i as int), did@));
                    assert forall|d: Seq<char>| d != did@ implies cached_for(kept@, d) == cached_for(pre1, d) by {
                        if ev.0@ != d {
                            assert(cached_for(kept@, d) == cached_for(k0, d));
                            assert(cached_for(pre1, d) == cached_for(s0.subrange(0, i as int), d));
                        }
                    }
                }
            }
            i += 1;
        }
        assert(s0.subrange(0, n as int) =~= s0);
        self.cache = kept;
        found
    }

    /// Keeps `posts` as the overflow of `did`, replacing what was cached; an
    /// empty overflow is not kept.
    pub fn store_overflow(&mut self, did: String, posts: Vec<PostMsg>)
        ensures
            cached_for(final(self).cache@, did@) == posts@,
            forall|d: Seq<char>| d != did@ ==> cached_for(final(self).cache@, d) == cached_for(old(self).cache@, d),
            final(self).in_flight@ == old(self).in_flight@,
    {
        let _ = self.take_cached(did.as_str());
        if posts.len() > 0 {
            let ghost c0 = self.cache@;
            self.cache.push((did, posts));
            assert(self.cache@.drop_last() =~= c0);
        }
    }
}

/// A request for an empty DID, or for a DID whose backfill is under way, is
/// answered with the sentinel: in particular a second request for a DID
/// whose first was taken, before its backfill is marked done.
pub proof fn lemma_duplicate_request_gets_sentinel(
    c0: Coordinator,
    c1: Coordinator,
    c2: Coordinator,
    did: Seq<char>,
    cur1: Option<Seq<char>>,
    cur2: Option<Seq<char>>,
    now1: u64,
    now2: u64,
    rc1: Option<Seq<char>>,
    rp1: Option<Seq<PostMsg>>,
    rc2: Option<Seq<char>>,
    rp2: Option<Seq<PostMsg>>,
)
    requires
        c0.begin_step(c1, did, cur1, now1, rc1, rp1),
        c1.begin_step(c2, did, cur2, now2, rc2, rp2),
    ensures
        did.len() == 0 ==> rc1 is None && rp1 is None,
        rc2 is None && rp2 is None,
        c2 == c1,
{
}

} // verus!

use crate::text::{decimal_int, i64_to_decimal, plural_of, pluralize};
use vstd::prelude::*;
use vstd::string::*;

verus! {

/// Rows a per-operation queue collects before it is turned into one batch.
pub const Q_LIMIT: usize = 60;

/// Batches the transaction pipeline holds before it flushes them as one commit.
pub const TX_Q_LEN: usize = 70;

/// The parameters of one graph mutation: string keys and values, in the order
/// they were given.
#[derive(Debug, Clone, PartialEq)]
pub struct ParamMap {
    pub entries: Vec<(String, String)>,
}

impl View for ParamMap {
    type V = Seq<(Seq<char>, Seq<char>)>;

    open spec fn view(&self) -> Seq<(Seq<char>, Seq<char>)> {
        self.entries@.map_values(|e: (String, String)| (e.0@, e.1@))
    }
}

/// The value stored under the first entry with key `k`.
pub open spec fn lookup(m: Seq<(Seq<char>, Seq<char>)>, k: Seq<char>) -> Option<Seq<char>>
    decreases m.len(),
{
    if m.len() == 0 {
        None
    } else if m[0].0 == k {
        Some(m[0].1)
    } else {
        lookup(m.subrange(1, m.len() as int), k)
    }
}

proof fn lemma_lookup_extend(m: Seq<(Seq<char>, Seq<char>)>, i: int, k: Seq<char>)
    requires
        0 <= i < m.len(),
        forall|j: int| 0 <= j < i ==> m[j].0 != k,
    ensures
        m[i].0 != k ==> lookup(m, k) == lookup(m.subrange(i + 1, m.len() as int), k),
        m[i].0 == k ==> lookup(m, k) == Some(m[i].1),
    decreases i,
{
    if i > 0 {
        let t = m.subrange(1, m.len() as int);
        lemma_lookup_extend(t, i - 1, k);
        assert(t.subrange(i, t.len() as int) =~= m.subrange(i + 1, m.len() as int));
    } else {
        assert(m.subrange(1, m.len() as int) =~= m.subrange(i + 1, m.len() as int));
    }
}

impl ParamMap {
    /// A map with no entries.
    pub fn new() -> (r: ParamMap)
        ensures
            r@ == Seq::<(Seq<char>, Seq<char>)>::empty(),
    {
        let r = ParamMap { entries: Vec::new() };
        assert(r@ =~= Seq::<(Seq<char>, Seq<char>)>::empty());
        r
    }

    /// Appends an entry.
    pub fn push(&mut self, k: &str, v: String)
        ensures
            final(self)@ == old(self)@.push((k@, v@)),
    {
        self.entries.push((String::from_str(k), v));
        assert(final(self)@ =~= old(self)@.push((k@, v@)));
    }

    /// Number of entries.
    pub fn len(&self) -> (r: usize)
        ensures
            r == self@.len(),
    {
        self.entries.len()
    }

    /// The value of the first entry whose key is `k`.
    pub fn get(&self, k: &str) -> (r: Option<String>)
        ensures
            r matches Some(v) ==> lookup(self@, k@) == Some(v@),
            r is None ==> lookup(self@, k@) is None,
    {
        let key = String::from_str(k);
        let mut i: usize = 0;
        while i < self.entries.len()
            invariant
                i <= self.entries@.len(),
                key@ == k@,
                forall|j: int| 0 <= j < i ==> self@[j].0 != k@,
            decreases self.entries@.len() - i,
        {
            let ghost m = self@;
            proof {
                lemma_lookup_extend(m, i as int, k@);
            }
            if self.entries[i].0 == key {
                return Some(self.entries[i].1.clone());
            }
            i += 1;
        }
        proof {
            lemma_lookup_absent(self@, k@);
        }
        None
    }
}

proof fn lemma_lookup_absent(m: Seq<(Seq<char>, Seq<char>)>, k: Seq<char>)
    requires
        forall|j: int| 0 <= j < m.len() ==> m[j].0 != k,
    ensures
        lookup(m, k) is None,
    decreases m.len(),
{
    if m.len() > 0 {
        let t = m.subrange(1, m.len() as int);
        assert forall|j: int| 0 <= j < t.len() implies t[j].0 != k by {
            assert(t[j] == m[j + 1]);
        }
        lemma_lookup_absent(t, k);
    }
}

/// The graph operation a batch feeds.
#[derive(PartialEq, Eq, Structural, Clone, Copy, Debug)]
pub enum QueryOp {
    Reply,
    Post,
    Repost,
    Follow,
    Block,
    Like,
}

/// The noun that names an operation.
pub open spec fn noun_of(op: QueryOp) -> Seq<char> {
    match op {
        QueryOp::Reply => "reply"@,
        QueryOp::Post => "post"@,
        QueryOp::Repost => "repost"@,
        QueryOp::Follow => "follow"@,
        QueryOp::Block => "block"@,
        QueryOp::Like => "like"@,
    }
}

impl QueryOp {
    /// The noun that names this operation.
    pub fn noun(&self) -> (r: &'static str)
        ensures
            r@ == noun_of(*self),
            r@.len() > 0,
    {
        match self {
            QueryOp::Reply => {
                proof {
                    reveal_strlit("reply");
                }
                "reply"
            },
            QueryOp::Post => {
                proof {
                    reveal_strlit("post");
                }
                "post"
            },
            QueryOp::Repost => {
                proof {
                    reveal_strlit("repost");
                }
                "repost"
            },
            QueryOp::Follow => {
                proof {
                    reveal_strlit("follow");
                }
                "follow"
            },
            QueryOp::Block => {
                proof {
                    reveal_strlit("block");
                }
                "block"
            },
            QueryOp::Like => {
                proof {
                    reveal_strlit("like");
                }
                "like"
            },
        }
    }
}

/// The rows of one queue, bound under the plural of the operation's noun.
#[derive(Debug, Clone, PartialEq)]
pub struct Batch {
    pub op: QueryOp,
    pub removal: bool,
    pub name: String,
    pub rows: Vec<ParamMap>,
}

/// Whether `b` is the batch of `op` (a removal or not) holding `rows`.
pub open spec fn batch_is(b: Batch, op: QueryOp, removal: bool, rows: Seq<ParamMap>) -> bool {
    &&& b.op == op
    &&& b.removal == removal
    &&& b.name@ == plural_of(noun_of(op))
    &&& b.rows@ == rows
}

/// Completion handle of one commit: the next commit starts only after it fires.
#[derive(PartialEq, Eq, Structural, Clone, Copy, Debug)]
pub struct CommitToken {
    pub id: u64,
}

/// One commit to run: wait for `wait_for` (if any), commit `batches` in order
/// in one transaction, then fire `signal`.
#[derive(Debug, Clone, PartialEq)]
pub struct Flush {
    pub wait_for: Option<CommitToken>,
    pub signal: CommitToken,
    pub batches: Vec<Batch>,
}

/// Token numbers advance by one and wrap.
pub open spec fn next_token_id(id: u64) -> u64 {
    if id == u64::MAX {
        0
    } else {
        (id + 1) as u64
    }
}

/// Accumulates batches into transactions and orders their commits through a
/// chain of tokens.
#[derive(Debug)]
pub struct TxPipeline {
    /// Batches waiting for the next commit, in insertion order.
    pub pending: Vec<Batch>,
    /// Number of the next token handed out.
    pub next_id: u64,
    /// Commits decided but not yet taken by the runner.
    pub flushes: Vec<Flush>,
}

impl TxPipeline {
    /// Whether the pipeline holds no more batches than its bound.
    pub open spec fn wf(&self) -> bool {
        self.pending@.len() <= TX_Q_LEN
    }

    /// What one `enqueue_query` does: from `self` to `next`, given `prev` and
    /// returning `r`; `added` describes the batch that was handed in.
    pub open spec fn enqueue_step(
        self,
        next: TxPipeline,
        prev: Option<CommitToken>,
        r: Option<CommitToken>,
        added: spec_fn(Batch) -> bool,
    ) -> bool {
        if self.pending@.len() >= TX_Q_LEN {
            &&& r == Some(CommitToken { id: self.next_id })
            &&& next.pending@.len() == 1
            &&& added(next.pending@[0])
            &&& next.next_id == next_token_id(self.next_id)
            &&& next.flushes@.len() == self.flushes@.len() + 1
            &&& next.flushes@.drop_last() == self.flushes@
            &&& next.flushes@.last().wait_for == prev
            &&& next.flushes@.last().signal == CommitToken { id: self.next_id }
            &&& next.flushes@.last().batches@ == self.pending@
        } else {
            &&& r == prev
            &&& next.next_id == self.next_id
            &&& next.flushes@ == self.flushes@
            &&& next.pending@.len() == self.pending@.len() + 1
            &&& next.pending@.drop_last() == self.pending@
            &&& added(next.pending@.last())
        }
    }

    /// An empty pipeline.
    pub fn new() -> (r: TxPipeline)
        ensures
            r.pending@.len() == 0,
            r.flushes@.len() == 0,
            r.next_id == 0,
            r.wf(),
    {
        TxPipeline { pending: Vec::new(), next_id: 0, flushes: Vec::new() }
    }

    /// Adds a batch. When the pipeline is full, the pending batches first
    /// become one commit that waits for `prev` and signals a fresh token, which
    /// is returned; the batch then starts the next transaction. Otherwise the
    /// batch joins the pending ones and `prev` comes back unchanged.
    pub fn enqueue_query(&mut self, batch: Batch, prev: Option<CommitToken>) -> (r: Option<
        CommitToken,
    >)
        requires
            old(self).wf(),
        ensures
            final(self).wf(),
            old(self).enqueue_step(*final(self), prev, r, |b: Batch| b == batch),
    {
        if self.pending.len() >= TX_Q_LEN {
            let token = CommitToken { id: self.next_id };
            self.next_id = if self.next_id == u64::MAX {
                0
            } else {
                self.next_id + 1
            };
            let mut snapshot: Vec<Batch> = Vec::new();
            std::mem::swap(&mut self.pending, &mut snapshot);
            self.pending.push(batch);
            self.flushes.push(Flush { wait_for: prev, signal: token, batches: snapshot });
            assert(self.flushes@.drop_last() =~= old(self).flushes@);
            Some(token)
        } else {
            self.pending.push(batch);
            assert(self.pending@.drop_last() =~= old(self).pending@);
            prev
        }
    }

    /// Hands out the commits decided so far, oldest first.
    pub fn take_flushes(&mut self) -> (r: Vec<Flush>)
        ensures
            r@ == old(self).flushes@,
            final(self).flushes@.len() == 0,
            final(self).pending@ == old(self).pending@,
            final(self).next_id == old(self).next_id,
    {
        let mut out: Vec<Flush> = Vec::new();
        std::mem::swap(&mut self.flushes, &mut out);
        out
    }
}

/// Commit tokens form a chain: a flush returns the token it will signal, and a
/// later flush handed that token waits for it before its commit starts.
pub proof fn lemma_commit_chain(
    before: TxPipeline,
    after: TxPipeline,
    later: TxPipeline,
    latest: TxPipeline,
    prev: Option<CommitToken>,
    t1: Option<CommitToken>,
    t2: Option<CommitToken>,
    a1: spec_fn(Batch) -> bool,
    a2: spec_fn(Batch) -> bool,
)
    requires
        before.pending@.len() >= TX_Q_LEN,
        before.enqueue_step(after, prev, t1, a1),
        later.pending@.len() >= TX_Q_LEN,
        later.enqueue_step(latest, t1, t2, a2),
    ensures
        t1 == Some(after.flushes@.last().signal),
        after.flushes@.last().wait_for == prev,
        latest.flushes@.last().wait_for == Some(after.flushes@.last().signal),
        t2 == Some(latest.flushes@.last().signal),
{
}

/// A step that does not flush hands back the token it was given, so the token
/// of the last flush reaches the next one unchanged.
pub proof fn lemma_token_passes_through(
    before: TxPipeline,
    after: TxPipeline,
    prev: Option<CommitToken>,
    r: Option<CommitToken>,
    a: spec_fn(Batch) -> bool,
)
    requires
        before.pending@.len() < TX_Q_LEN,
        before.enqueue_step(after, prev, r, a),
    ensures
        r == prev,
        after.flushes@ == before.flushes@,
{
}

/// Queue length after one more row: a full queue is drained.
pub open spec fn queue_step_len(l: nat) -> nat {
    if l + 1 >= Q_LIMIT {
        0
    } else {
        l + 1
    }
}

/// Queue length after `k` rows pushed into an empty queue.
pub open spec fn queue_len_after(k: nat) -> nat
    decreases k,
{
    if k == 0 {
        0
    } else {
        queue_step_len(queue_len_after((k - 1) as nat))
    }
}

/// Pushing rows into an empty queue leaves `k mod Q_LIMIT` of them: after any
/// multiple of `Q_LIMIT` rows the queue is empty again.
pub proof fn lemma_queue_len_cycles(k: nat)
    ensures
        queue_len_after(k) == k % (Q_LIMIT as nat),
        k % (Q_LIMIT as nat) == 0 ==> queue_len_after(k) == 0,
    decreases k,
{
    if k > 0 {
        lemma_queue_len_cycles((k - 1) as nat);
        let q = Q_LIMIT as nat;
        let r = ((k - 1) as nat) % q;
        vstd::arithmetic::div_mod::lemma_add_mod_noop((k - 1) as int, 1, q as int);
        vstd::arithmetic::div_mod::lemma_small_mod(1, q);
        vstd::arithmetic::div_mod::lemma_mod_bound((k - 1) as int, q as int);
        if r + 1 >= q {
            assert(r + 1 == q);
            vstd::arithmetic::div_mod::lemma_mod_self_0(q as int);
        } else {
            vstd::arithmetic::div_mod::lemma_small_mod((r + 1) as nat, q);
        }
    }
}

/// Pushes `row` into a queue; a queue that reaches `Q_LIMIT` rows is drained
/// and its rows returned.
fn push_row(q: &mut Vec<ParamMap>, row: ParamMap) -> (full: Option<Vec<ParamMap>>)
    requires
        old(q)@.len() < Q_LIMIT,
    ensures
        final(q)@.len() < Q_LIMIT,
        final(q)@.len() == queue_step_len(old(q)@.len()),
        old(q)@.len() + 1 >= Q_LIMIT ==> (full matches Some(rows) && rows@ == old(q)@.push(row)
            && final(q)@.len() == 0),
        old(q)@.len() + 1 < Q_LIMIT ==> full is None && final(q)@ == old(q)@.push(row),
{
    q.push(row);
    if q.len() >= Q_LIMIT {
        let mut rows: Vec<ParamMap> = Vec::new();
        std::mem::swap(q, &mut rows);
        Some(rows)
    } else {
        None
    }
}

/// The per-operation queues of graph mutations and the transaction pipeline
/// they flush into.
#[derive(Debug)]
pub struct GraphModel {
    pub reply_queue: Vec<ParamMap>,
    pub post_queue: Vec<ParamMap>,
    pub repost_queue: Vec<ParamMap>,
    pub follow_queue: Vec<ParamMap>,
    pub block_queue: Vec<ParamMap>,
    pub like_queue: Vec<ParamMap>,
    pub rm_reply_queue: Vec<ParamMap>,
    pub rm_post_queue: Vec<ParamMap>,
    pub rm_repost_queue: Vec<ParamMap>,
    pub rm_follow_queue: Vec<ParamMap>,
    pub rm_block_queue: Vec<ParamMap>,
    pub rm_like_queue: Vec<ParamMap>,
    pub pipeline: TxPipeline,
}

/// The rows of a parameter map written as key/value views.
pub open spec fn row2(k1: Seq<char>, v1: Seq<char>, k2: Seq<char>, v2: Seq<char>) -> Seq<
    (Seq<char>, Seq<char>),
> {
    seq![(k1, v1), (k2, v2)]
}

/// Three key/value pairs, in order.
pub open spec fn row3(
    k1: Seq<char>,
    v1: Seq<char>,
    k2: Seq<char>,
    v2: Seq<char>,
    k3: Seq<char>,
    v3: Seq<char>,
) -> Seq<(Seq<char>, Seq<char>)> {
    seq![(k1, v1), (k2, v2), (k3, v3)]
}

/// `y` for true, `n` for false.
pub open spec fn yes_no_of(b: bool) -> Seq<char> {
    if b {
        "y"@
    } else {
        "n"@
    }
}

fn yes_no(b: bool) -> (r: String)
    ensures
        r@ == yes_no_of(b),
{
    if b {
        String::from_str("y")
    } else {
        String::from_str("n")
    }
}

/// The parameters of a post.
pub open spec fn post_row(did: Seq<char>, rkey: Seq<char>, timestamp: i64, is_reply: bool, is_image: bool) -> Seq<(Seq<char>, Seq<char>)> {
    seq![
        ("did"@, did),
        ("rkey"@, rkey),
        ("is_reply"@, yes_no_of(is_reply)),
        ("is_image"@, yes_no_of(is_image)),
        ("timestamp"@, decimal_int(timestamp as int)),
    ]
}

fn make_row2(k1: &str, v1: String, k2: &str, v2: String) -> (r: ParamMap)
    ensures
        r@ == row2(k1@, v1@, k2@, v2@),
{
    let mut r = ParamMap::new();
    r.push(k1, v1);
    r.push(k2, v2);
    assert(r@ =~= row2(k1@, v1@, k2@, v2@));
    r
}

fn make_row3(k1: &str, v1: String, k2: &str, v2: String, k3: &str, v3: String) -> (r: ParamMap)
    ensures
        r@ == row3(k1@, v1@, k2@, v2@, k3@, v3@),
{
    let mut r = ParamMap::new();
    r.push(k1, v1);
    r.push(k2, v2);
    r.push(k3, v3);
    assert(r@ =~= row3(k1@, v1@, k2@, v2@, k3@, v3@));
    r
}

impl GraphModel {
    /// The queue of `op`'s upserts, or of its removals.
    pub open spec fn queue(&self, op: QueryOp, removal: bool) -> Seq<ParamMap> {
        match (op, removal) {
            (QueryOp::Reply, false) => self.reply_queue@,
            (QueryOp::Post, false) => self.post_queue@,
            (QueryOp::Repost, false) => self.repost_queue@,
            (QueryOp::Follow, false) => self.follow_queue@,
            (QueryOp::Block, false) => self.block_queue@,
            (QueryOp::Like, false) => self.like_queue@,
            (QueryOp::Reply, true) => self.rm_reply_queue@,
            (QueryOp::Post, true) => self.rm_post_queue@,
            (QueryOp::Repost, true) => self.rm_repost_queue@,
            (QueryOp::Follow, true) => self.rm_follow_queue@,
            (QueryOp::Block, true) => self.rm_block_queue@,
            (QueryOp::Like, true) => self.rm_like_queue@,
        }
    }

    /// Every queue is below `Q_LIMIT` and the pipeline within its bound.
    pub open spec fn wf(&self) -> bool {
        &&& forall|op: QueryOp, removal: bool| #[trigger] self.queue(op, removal).len() < Q_LIMIT
        &&& self.pipeline.wf()
    }

    /// What adding `row` to the queue of (`op`, `removal`) does, from `self` to
    /// `next`, with token `rec` in and `r` out.
    pub open spec fn add_step(
        self,
        next: GraphModel,
        op: QueryOp,
        removal: bool,
        row: ParamMap,
        rec: Option<CommitToken>,
        r: Option<CommitToken>,
    ) -> bool {
        let q = self.queue(op, removal);
        &&& forall|op2: QueryOp, rm2: bool|
            (op2, rm2) != (op, removal) ==> #[trigger] next.queue(op2, rm2) == self.queue(op2, rm2)
        &&& next.queue(op, removal).len() == queue_step_len(q.len())
        &&& if q.len() + 1 >= Q_LIMIT {
            &&& next.queue(op, removal).len() == 0
            &&& self.pipeline.enqueue_step(
                next.pipeline,
                rec,
                r,
                |b: Batch| batch_is(b, op, removal, q.push(row)),
            )
        } else {
            &&& next.queue(op, removal) == q.push(row)
            &&& next.pipeline == self.pipeline
            &&& r == rec
        }
    }

    /// Adding a row whose view is `row` takes `self` to `next`.
    pub open spec fn step(
        self,
        next: GraphModel,
        op: QueryOp,
        removal: bool,
        row: Seq<(Seq<char>, Seq<char>)>,
        rec: Option<CommitToken>,
        r: Option<CommitToken>,
    ) -> bool {
        exists|p: ParamMap| p@ == row && #[trigger] self.add_step(next, op, removal, p, rec, r)
    }

    /// Empty queues and an empty pipeline.
    pub fn new() -> (r: GraphModel)
        ensures
            r.wf(),
            forall|op: QueryOp, removal: bool| #[trigger] r.queue(op, removal).len() == 0,
            r.pipeline.pending@.len() == 0,
            r.pipeline.flushes@.len() == 0,
    {
        GraphModel {
            reply_queue: Vec::new(),
            post_queue: Vec::new(),
            repost_queue: Vec::new(),
            follow_queue: Vec::new(),
            block_queue: Vec::new(),
            like_queue: Vec::new(),
            rm_reply_queue: Vec::new(),
            rm_post_queue: Vec::new(),
            rm_repost_queue: Vec::new(),
            rm_follow_queue: Vec::new(),
            rm_block_queue: Vec::new(),
            rm_like_queue: Vec::new(),
            pipeline: TxPipeline::new(),
        }
    }

    /// Adds `row` to the queue of (`op`, `removal`); a full queue becomes a
    /// batch for the pipeline, whose token is returned.
    pub fn enqueue_row(
        &mut self,
        op: QueryOp,
        removal: bool,
        row: ParamMap,
        rec: Option<CommitToken>,
    ) -> (r: Option<CommitToken>)
        requires
            old(self).wf(),
        ensures
            final(self).wf(),
            old(self).add_step(*final(self), op, removal, row, rec, r),
    {
        let ghost q = self.queue(op, removal);
        assert(self.queue(op, removal).len() < Q_LIMIT);
        let full = match (op, removal) {
            (QueryOp::Reply, false) => push_row(&mut self.reply_queue, row),
            (QueryOp::Post, false) => push_row(&mut self.post_queue, row),
            (QueryOp::Repost, false) => push_row(&mut self.repost_queue, row),
            (QueryOp::Follow, false) => push_row(&mut self.follow_queue, row),
            (QueryOp::Block, false) => push_row(&mut self.block_queue, row),
            (QueryOp::Like, false) => push_row(&mut self.like_queue, row),
            (QueryOp::Reply, true) => push_row(&mut self.rm_reply_queue, row),
            (QueryOp::Post, true) => push_row(&mut self.rm_post_queue, row),
            (QueryOp::Repost, true) => push_row(&mut self.rm_repost_queue, row),
            (QueryOp::Follow, true) => push_row(&mut self.rm_follow_queue, row),
            (QueryOp::Block, true) => push_row(&mut self.rm_block_queue, row),
            (QueryOp::Like, true) => push_row(&mut self.rm_like_queue, row),
        };
        assert forall|op2: QueryOp, rm2: bool| #[trigger]
            self.queue(op2, rm2).len() < Q_LIMIT by {
            if (op2, rm2) != (op, removal) {
                assert(old(self).queue(op2, rm2).len() < Q_LIMIT);
            }
        }
        match full {
            Some(rows) => {
                let name = pluralize(op.noun());
                let batch = Batch { op, removal, name, rows };
                let ghost mid = *self;
                let r = self.pipeline.enqueue_query(batch, rec);
                assert forall|op2: QueryOp, rm2: bool| #[trigger]
                    self.queue(op2, rm2) == mid.queue(op2, rm2) by {}
                assert forall|op2: QueryOp, rm2: bool| #[trigger]
                    self.queue(op2, rm2).len() < Q_LIMIT by {
                    assert(mid.queue(op2, rm2).len() < Q_LIMIT);
                }
                r
            },
            None => rec,
        }
    }

    /// Queues a reply: keys `did`, `rkey`, `parent`.
    pub fn add_reply(&mut self, did: String, rkey: String, parent: String, rec: Option<CommitToken>) -> (r: Option<CommitToken>)
        requires
            old(self).wf(),
        ensures
            final(self).wf(),
            old(self).step(*final(self), QueryOp::Reply, false, row3("did"@, did@, "rkey"@, rkey@, "parent"@, parent@), rec, r),
    {
        let row = make_row3("did", did, "rkey", rkey, "parent", parent);
        self.enqueue_row(QueryOp::Reply, false, row, rec)
    }

    /// Queues a repost of the post keyed `rkey_parent`: keys `did`, `rkey`, `rkey_parent`.
    pub fn add_repost(&mut self, did: String, rkey_parent: String, rkey: String, rec: Option<CommitToken>) -> (r: Option<CommitToken>)
        requires
            old(self).wf(),
        ensures
            final(self).wf(),
            old(self).step(*final(self), QueryOp::Repost, false, row3("did"@, did@, "rkey"@, rkey@, "rkey_parent"@, rkey_parent@), rec, r),
    {
        let row = make_row3("did", did, "rkey", rkey, "rkey_parent", rkey_parent);
        self.enqueue_row(QueryOp::Repost, false, row, rec)
    }

    /// Queues a follow of `out` by `did`: keys `out`, `rkey`, `did`.
    pub fn add_follow(&mut self, did: String, out: String, rkey: String, rec: Option<CommitToken>) -> (r: Option<CommitToken>)
        requires
            old(self).wf(),
        ensures
            final(self).wf(),
            old(self).step(*final(self), QueryOp::Follow, false, row3("out"@, out@, "rkey"@, rkey@, "did"@, did@), rec, r),
    {
        let row = make_row3("out", out, "rkey", rkey, "did", did);
        self.enqueue_row(QueryOp::Follow, false, row, rec)
    }

    /// Queues a block of `blockee` by `did`: keys `blockee`, `rkey`, `did`.
    pub fn add_block(&mut self, blockee: String, did: String, rkey: String, rec: Option<CommitToken>) -> (r: Option<CommitToken>)
        requires
            old(self).wf(),
        ensures
            final(self).wf(),
            old(self).step(*final(self), QueryOp::Block, false, row3("blockee"@, blockee@, "rkey"@, rkey@, "did"@, did@), rec, r),
    {
        let row = make_row3("blockee", blockee, "rkey", rkey, "did", did);
        self.enqueue_row(QueryOp::Block, false, row, rec)
    }

    /// Queues a like of the post keyed `rkey_parent`: keys `did`, `rkey`, `rkey_parent`.
    pub fn add_like(&mut self, did: String, rkey_parent: String, rkey: String, rec: Option<CommitToken>) -> (r: Option<CommitToken>)
        requires
            old(self).wf(),
        ensures
            final(self).wf(),
            old(self).step(*final(self), QueryOp::Like, false, row3("did"@, did@, "rkey"@, rkey@, "rkey_parent"@, rkey_parent@), rec, r),
    {
        let row = make_row3("did", did, "rkey", rkey, "rkey_parent", rkey_parent);
        self.enqueue_row(QueryOp::Like, false, row, rec)
    }

    /// Queues the removal of the post `(did, rkey)`: keys `did`, `rkey`.
    pub fn rm_post(&mut self, did: String, rkey: String, rec: Option<CommitToken>) -> (r: Option<CommitToken>)
        requires
            old(self).wf(),
        ensures
            final(self).wf(),
            old(self).step(*final(self), QueryOp::Post, true, row2("did"@, did@, "rkey"@, rkey@), rec, r),
    {
        let row = make_row2("did", did, "rkey", rkey);
        self.enqueue_row(QueryOp::Post, true, row, rec)
    }

    /// Queues the removal of the repost `(did, rkey)`: keys `did`, `rkey`.
    pub fn rm_repost(&mut self, did: String, rkey: String, rec: Option<CommitToken>) -> (r: Option<CommitToken>)
        requires
            old(self).wf(),
        ensures
            final(self).wf(),
            old(self).step(*final(self), QueryOp::Repost, true, row2("did"@, did@, "rkey"@, rkey@), rec, r),
    {
        let row = make_row2("did", did, "rkey", rkey);
        self.enqueue_row(QueryOp::Repost, true, row, rec)
    }

    /// Queues the removal of the follow `(did, rkey)`: keys `did`, `rkey`.
    pub fn rm_follow(&mut self, did: String, rkey: String, rec: Option<CommitToken>) -> (r: Option<CommitToken>)
        requires
            old(self).wf(),
        ensures
            final(self).wf(),
            old(self).step(*final(self), QueryOp::Follow, true, row2("did"@, did@, "rkey"@, rkey@), rec, r),
    {
        let row = make_row2("did", did, "rkey", rkey);
        self.enqueue_row(QueryOp::Follow, true, row, rec)
    }

    /// Queues the removal of the like `(did, rkey)`: keys `did`, `rkey`.
    pub fn rm_like(&mut self, did: String, rkey: String, rec: Option<CommitToken>) -> (r: Option<CommitToken>)
        requires
            old(self).wf(),
        ensures
            final(self).wf(),
            old(self).step(*final(self), QueryOp::Like, true, row2("did"@, did@, "rkey"@, rkey@), rec, r),
    {
        let row = make_row2("did", did, "rkey", rkey);
        self.enqueue_row(QueryOp::Like, true, row, rec)
    }

    /// Queues the removal of the block `(did, rkey)`: keys `did`, `rkey`.
    pub fn rm_block(&mut self, did: String, rkey: String, rec: Option<CommitToken>) -> (r: Option<CommitToken>)
        requires
            old(self).wf(),
        ensures
            final(self).wf(),
            old(self).step(*final(self), QueryOp::Block, true, row2("did"@, did@, "rkey"@, rkey@), rec, r),
    {
        let row = make_row2("did", did, "rkey", rkey);
        self.enqueue_row(QueryOp::Block, true, row, rec)
    }

    /// Queues the removal of the reply `(did, rkey)`: keys `did`, `rkey`.
    pub fn rm_reply(&mut self, did: String, rkey: String, rec: Option<CommitToken>) -> (r: Option<CommitToken>)
        requires
            old(self).wf(),
        ensures
            final(self).wf(),
            old(self).step(*final(self), QueryOp::Reply, true, row2("did"@, did@, "rkey"@, rkey@), rec, r),
    {
        let row = make_row2("did", did, "rkey", rkey);
        self.enqueue_row(QueryOp::Reply, true, row, rec)
    }

    /// Queues a post: keys `did`, `rkey`, `is_reply`, `is_image` (each `y` or
    /// `n`) and `timestamp` in decimal microseconds.
    pub fn add_post(
        &mut self,
        did: String,
        rkey: String,
        timestamp: &i64,
        is_reply: bool,
        is_image: bool,
        rec: Option<CommitToken>,
    ) -> (r: Option<CommitToken>)
        requires
            old(self).wf(),
        ensures
            final(self).wf(),
            old(self).step(*final(self), QueryOp::Post, false, post_row(did@, rkey@, *timestamp, is_reply, is_image), rec, r),
    {
        let mut row = ParamMap::new();
        row.push("did", did);
        row.push("rkey", rkey);
        row.push("is_reply", yes_no(is_reply));
        row.push("is_image", yes_no(is_image));
        row.push("timestamp", i64_to_decimal(*timestamp));
        assert(row@ =~= post_row(did@, rkey@, *timestamp, is_reply, is_image));
        self.enqueue_row(QueryOp::Post, false, row, rec)
    }

    /// Hands out the commits decided so far, oldest first.
    pub fn take_flushes(&mut self) -> (r: Vec<Flush>)
        requires
            old(self).wf(),
        ensures
            final(self).wf(),
            r@ == old(self).pipeline.flushes@,
            final(self).pipeline.flushes@.len() == 0,
            final(self).pipeline.pending@ == old(self).pipeline.pending@,
            final(self).pipeline.next_id == old(self).pipeline.next_id,
            forall|op: QueryOp, removal: bool| #[trigger] final(self).queue(op, removal) == old(self).queue(op, removal),
    {
        let r = self.pipeline.take_flushes();
        assert forall|op: QueryOp, removal: bool| #[trigger] self.queue(op, removal).len() < Q_LIMIT by {
            assert(old(self).queue(op, removal).len() < Q_LIMIT);
        }
        r
    }
}

} // verus!

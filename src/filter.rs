use crate::types::{ATEventType, BskyEvent, Record};
use vstd::prelude::*;
use vstd::string::*;

verus! {

/// Microseconds in a day: records created longer ago than this are dropped.
pub const DAY_US: i64 = 86_400_000_000;

/// Whether a DID belongs to a known spam account.
pub open spec fn is_spam_did(d: Seq<char>) -> bool {
    ||| d == "did:plc:xdx2v7gyd5dmfqt7v77gf457"@
    ||| d == "did:plc:a56vfzkrxo2bh443zgjxr4ix"@
    ||| d == "did:plc:cov6pwd7ajm2wgkrgbpej2f3"@
    ||| d == "did:plc:fcnbisw7xl6lmtcnvioocffz"@
    ||| d == "did:plc:ss7fj6p6yfirwq2hnlkfuntt"@
}

/// Rejects events whose author is a known spam account.
pub fn spam_filter(m: &BskyEvent) -> (r: bool)
    ensures
        r == !is_spam_did(m.did@),
{
    !(m.did == String::from_str("did:plc:xdx2v7gyd5dmfqt7v77gf457") || m.did == String::from_str(
        "did:plc:a56vfzkrxo2bh443zgjxr4ix",
    ) || m.did == String::from_str("did:plc:cov6pwd7ajm2wgkrgbpej2f3") || m.did
        == String::from_str("did:plc:fcnbisw7xl6lmtcnvioocffz") || m.did == String::from_str(
        "did:plc:ss7fj6p6yfirwq2hnlkfuntt",
    ))
}

/// Microseconds since the epoch of an RFC 3339 timestamp, or `None` where the
/// text is not one.
pub uninterp spec fn rfc3339_micros(s: Seq<char>) -> Option<i64>;

/// Relies on chrono's `DateTime::parse_from_rfc3339` and `timestamp_micros`:
/// the instant the text names, or `None` where it does not parse.
#[verifier::external_body]
pub(crate) fn parse_rfc3339_micros(s: &str) -> (r: Option<i64>)
    ensures
        r == rfc3339_micros(s@),
{
    match chrono::DateTime::parse_from_rfc3339(s) {
        Ok(t) => Some(t.timestamp_micros()),
        Err(_) => None,
    }
}

/// Relies on chrono's `Utc::now`: the wall clock in microseconds since the
/// epoch. Nothing is known of the value.
#[verifier::external_body]
pub(crate) fn now_micros() -> (r: i64) {
    chrono::Utc::now().timestamp_micros()
}

/// The record an event carries, if any.
pub open spec fn record_of(m: BskyEvent) -> Option<Record> {
    match m.commit {
        Some(c) => c.record,
        None => None,
    }
}

/// The date rule: an event with a record passes when the record's creation time
/// (`parsed`, what the parser gave for its `created_at`), or failing that the
/// event's own time, lies less than a day before `now_us`.
pub open spec fn date_ok(m: BskyEvent, now_us: i64, parsed: Option<i64>) -> bool {
    match record_of(m) {
        Some(_) => match parsed {
            Some(t) => (now_us as int) - (t as int) < (DAY_US as int),
            None => (now_us as int) - (m.time_us as int) < (DAY_US as int),
        },
        None => true,
    }
}

/// Applies the date rule at the instant `now_us`, with `parsed` the parsed
/// `created_at` of the event's record.
pub fn date_filter_at(m: &BskyEvent, now_us: i64, parsed: Option<i64>) -> (r: bool)
    ensures
        r == date_ok(*m, now_us, parsed),
{
    let has_record = match &m.commit {
        Some(c) => c.record.is_some(),
        None => false,
    };
    if !has_record {
        return true;
    }
    let since: i64 = match parsed {
        Some(t) => t,
        None => m.time_us,
    };
    (now_us as i128) - (since as i128) < (DAY_US as i128)
}

/// The parsed `created_at` of the event's record, `None` without one.
pub open spec fn created_at_micros(m: BskyEvent) -> Option<i64> {
    match record_of(m) {
        Some(r) => rfc3339_micros(r.created_at@),
        None => None,
    }
}

/// Parses the `created_at` of the event's record, if it has one.
pub fn parse_created_at(m: &BskyEvent) -> (r: Option<i64>)
    ensures
        r == created_at_micros(*m),
{
    match &m.commit {
        Some(c) => match &c.record {
            Some(rec) => parse_rfc3339_micros(rec.created_at.as_str()),
            None => None,
        },
        None => None,
    }
}

/// Applies the date rule against the wall clock.
pub fn date_filter(m: &BskyEvent) -> (r: bool)
    ensures
        record_of(*m) is None ==> r,
        exists|now_us: i64| r == date_ok(*m, now_us, created_at_micros(*m)),
{
    let now_us = now_micros();
    let parsed = parse_created_at(m);
    date_filter_at(m, now_us, parsed)
}

/// A predicate an event must satisfy to be ingested.
#[derive(PartialEq, Eq, Structural, Clone, Copy, Debug)]
pub enum FilterKind {
    Spam,
    Date,
}

/// Whether one filter lets the event through.
pub open spec fn kind_passes(k: FilterKind, m: BskyEvent, now_us: i64, parsed: Option<i64>) -> bool {
    match k {
        FilterKind::Spam => !is_spam_did(m.did@),
        FilterKind::Date => date_ok(m, now_us, parsed),
    }
}

/// Whether every filter of a list lets the event through.
pub open spec fn all_pass(
    fs: Seq<FilterKind>,
    m: BskyEvent,
    now_us: i64,
    parsed: Option<i64>,
) -> bool {
    forall|i: int| 0 <= i < fs.len() ==> kind_passes(#[trigger] fs[i], m, now_us, parsed)
}

/// A predicate on events, run at the instant `now_us` with `parsed` the parsed
/// `created_at` of the event's record.
pub trait Filter {
    spec fn spec_check(&self, msg: BskyEvent, now_us: i64, parsed: Option<i64>) -> bool;

    fn check(&self, msg: &BskyEvent, now_us: i64, parsed: Option<i64>) -> (r: bool)
        ensures
            r == self.spec_check(*msg, now_us, parsed),
    ;
}

impl Filter for FilterKind {
    open spec fn spec_check(&self, msg: BskyEvent, now_us: i64, parsed: Option<i64>) -> bool {
        kind_passes(*self, msg, now_us, parsed)
    }

    fn check(&self, m: &BskyEvent, now_us: i64, parsed: Option<i64>) -> (r: bool) {
        match self {
            FilterKind::Spam => spam_filter(m),
            FilterKind::Date => date_filter_at(m, now_us, parsed),
        }
    }
}

/// Runs a list of filters in order, stopping at the first that rejects.
pub fn run_filters(fs: &Vec<FilterKind>, m: &BskyEvent, now_us: i64, parsed: Option<i64>) -> (r:
    bool)
    ensures
        r == all_pass(fs@, *m, now_us, parsed),
{
    let mut i: usize = 0;
    while i < fs.len()
        invariant
            i <= fs@.len(),
            forall|j: int| 0 <= j < i ==> kind_passes(#[trigger] fs@[j], *m, now_us, parsed),
        decreases fs@.len() - i,
    {
        if !fs[i].check(m, now_us, parsed) {
            return false;
        }
        i += 1;
    }
    true
}

/// The filters of each event type; `global` run first for every type.
#[derive(Debug, Clone)]
pub struct FilterChain {
    pub global: Vec<FilterKind>,
    pub post: Vec<FilterKind>,
    pub repost: Vec<FilterKind>,
    pub like: Vec<FilterKind>,
    pub follow: Vec<FilterKind>,
    pub block: Vec<FilterKind>,
}

impl FilterChain {
    /// The filters of one event type (none for the other types).
    pub open spec fn filters_for(&self, t: ATEventType) -> Seq<FilterKind> {
        match t {
            ATEventType::Post => self.post@,
            ATEventType::Repost => self.repost@,
            ATEventType::Like => self.like@,
            ATEventType::Follow => self.follow@,
            ATEventType::Block => self.block@,
            _ => Seq::empty(),
        }
    }

    /// Whether an event of type `t` passes the global filters and then its own.
    pub open spec fn passes_spec(
        &self,
        t: ATEventType,
        m: BskyEvent,
        now_us: i64,
        parsed: Option<i64>,
    ) -> bool {
        all_pass(self.global@, m, now_us, parsed) && all_pass(self.filters_for(t), m, now_us, parsed)
    }

    /// The chain used for ingest: the date rule for every event, the spam rule
    /// for posts and reposts.
    pub fn standard() -> (r: FilterChain)
        ensures
            r.global@ == seq![FilterKind::Date],
            r.post@ == seq![FilterKind::Spam],
            r.repost@ == seq![FilterKind::Spam],
            r.like@.len() == 0,
            r.follow@.len() == 0,
            r.block@.len() == 0,
    {
        let mut global = Vec::new();
        global.push(FilterKind::Date);
        let mut post = Vec::new();
        post.push(FilterKind::Spam);
        let mut repost = Vec::new();
        repost.push(FilterKind::Spam);
        let r = FilterChain {
            global,
            post,
            repost,
            like: Vec::new(),
            follow: Vec::new(),
            block: Vec::new(),
        };
        assert(r.global@ =~= seq![FilterKind::Date]);
        assert(r.post@ =~= seq![FilterKind::Spam]);
        assert(r.repost@ =~= seq![FilterKind::Spam]);
        r
    }

    /// Runs the global filters, then those of type `t`; any rejection stops
    /// the chain.
    pub fn passes(&self, t: ATEventType, m: &BskyEvent, now_us: i64, parsed: Option<i64>) -> (r:
        bool)
        ensures
            r == self.passes_spec(t, *m, now_us, parsed),
    {
        if !run_filters(&self.global, m, now_us, parsed) {
            return false;
        }
        match t {
            ATEventType::Post => run_filters(&self.post, m, now_us, parsed),
            ATEventType::Repost => run_filters(&self.repost, m, now_us, parsed),
            ATEventType::Like => run_filters(&self.like, m, now_us, parsed),
            ATEventType::Follow => run_filters(&self.follow, m, now_us, parsed),
            ATEventType::Block => run_filters(&self.block, m, now_us, parsed),
            _ => true,
        }
    }
}

} // verus!

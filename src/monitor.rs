use crate::text::{decimal_nat, u64_to_decimal};
use vstd::prelude::*;
use vstd::string::*;

verus! {

/// Lag in milliseconds past which a single event triggers failover.
pub const FAILOVER_DRIFT_MS: i64 = 10_000;

/// Average lag in milliseconds past which the process must stop.
pub const FATAL_AVERAGE_DRIFT_MS: i64 = 50_000;

/// Samples the rolling drift average spans.
pub const DRIFT_WINDOW: usize = 25_000;

/// The primary firehose host.
pub const PRIMARY_HOST: &'static str = "jetstream1.us-east.bsky.network";

/// The secondary firehose host.
pub const SECONDARY_HOST: &'static str = "jetstream2.us-east.bsky.network";

/// Whether one event's lag calls for switching to the secondary endpoint: too
/// large, or negative (clock skew).
pub fn needs_failover(drift_ms: i64) -> (r: bool)
    ensures
        r == (drift_ms > FAILOVER_DRIFT_MS || drift_ms < 0),
{
    drift_ms > FAILOVER_DRIFT_MS || drift_ms < 0
}

/// The subscription URL of a firehose host.
pub open spec fn subscribe_url_of(host: Seq<char>, compress: bool, cursor: Option<u64>) -> Seq<char> {
    let base = "wss://"@ + host
        + "/subscribe?wantedCollections=app.bsky.graph.*&wantedCollections=app.bsky.feed.*&compress="@
        + (if compress {
        "true"@
    } else {
        "false"@
    });
    match cursor {
        Some(c) => base + "&cursor="@ + decimal_nat(c as nat),
        None => base,
    }
}

/// Builds the subscription URL, resuming after `cursor` when given.
pub fn subscribe_url(host: &str, compress: bool, cursor: Option<u64>) -> (r: String)
    ensures
        r@ == subscribe_url_of(host@, compress, cursor),
{
    let base = String::from_str("wss://").concat(host).concat(
        "/subscribe?wantedCollections=app.bsky.graph.*&wantedCollections=app.bsky.feed.*&compress=",
    ).concat(
        if compress {
            "true"
        } else {
            "false"
        },
    );
    match cursor {
        Some(c) => {
            let digits = u64_to_decimal(c);
            base.concat("&cursor=").concat(digits.as_str())
        },
        None => base,
    }
}

/// What the transport saw.
#[derive(PartialEq, Eq, Structural, Clone, Copy, Debug)]
pub enum LinkEvent {
    /// No frame within the read timeout.
    Timeout,
    /// The server closed the connection.
    Closed,
    /// Reading failed.
    ReadError,
    /// A frame was processed with this lag.
    Processed { drift_ms: i64 },
}

/// Which endpoint to use.
#[derive(PartialEq, Eq, Structural, Clone, Copy, Debug)]
pub enum Endpoint {
    Primary,
    Secondary,
}

/// What the transport does next.
#[derive(PartialEq, Eq, Structural, Clone, Copy, Debug)]
pub enum LinkAction {
    /// Keep reading.
    Continue,
    /// Connect again, resuming after `cursor` when given.
    Reconnect { endpoint: Endpoint, cursor: Option<u64> },
}

/// The transport's reaction to an event, with `last_us` the time of the last
/// processed event.
pub open spec fn link_action_of(ev: LinkEvent, last_us: u64) -> LinkAction {
    match ev {
        LinkEvent::Timeout => LinkAction::Reconnect { endpoint: Endpoint::Primary, cursor: Some(last_us) },
        LinkEvent::Closed => LinkAction::Reconnect { endpoint: Endpoint::Primary, cursor: None },
        LinkEvent::ReadError => LinkAction::Reconnect { endpoint: Endpoint::Primary, cursor: None },
        LinkEvent::Processed { drift_ms } => if drift_ms > FAILOVER_DRIFT_MS || drift_ms < 0 {
            LinkAction::Reconnect { endpoint: Endpoint::Secondary, cursor: Some(last_us) }
        } else {
            LinkAction::Continue
        },
    }
}

/// Decides what the transport does after an event: a timeout resumes on the
/// primary from the last processed event, a close or read error reconnects to
/// the primary, and an abnormal lag fails over to the secondary.
pub fn link_action(ev: LinkEvent, last_us: u64) -> (r: LinkAction)
    ensures
        r == link_action_of(ev, last_us),
{
    match ev {
        LinkEvent::Timeout => LinkAction::Reconnect { endpoint: Endpoint::Primary, cursor: Some(last_us) },
        LinkEvent::Closed => LinkAction::Reconnect { endpoint: Endpoint::Primary, cursor: None },
        LinkEvent::ReadError => LinkAction::Reconnect { endpoint: Endpoint::Primary, cursor: None },
        LinkEvent::Processed { drift_ms } => if needs_failover(drift_ms) {
            LinkAction::Reconnect { endpoint: Endpoint::Secondary, cursor: Some(last_us) }
        } else {
            LinkAction::Continue
        },
    }
}

/// The host of an endpoint.
pub fn host_of(e: Endpoint) -> (r: &'static str)
    ensures
        e == Endpoint::Primary ==> r@ == PRIMARY_HOST@,
        e == Endpoint::Secondary ==> r@ == SECONDARY_HOST@,
{
    match e {
        Endpoint::Primary => PRIMARY_HOST,
        Endpoint::Secondary => SECONDARY_HOST,
    }
}

/// Consecutive failed connections to the primary after which the secondary
/// is tried.
pub const PRIMARY_FAILURES_BEFORE_FAILOVER: u32 = 3;

/// First delay, in milliseconds, between connection attempts.
pub const RETRY_BASE_MS: u64 = 100;

/// Longest delay, in milliseconds, between connection attempts.
pub const RETRY_MAX_MS: u64 = 30_000;

/// The endpoint to try after `failures` consecutive failed attempts on
/// `current`: a primary that keeps failing gives way to the secondary.
pub fn next_endpoint(current: Endpoint, failures: u32) -> (r: Endpoint)
    ensures
        r == (if current == Endpoint::Primary && failures >= PRIMARY_FAILURES_BEFORE_FAILOVER {
            Endpoint::Secondary
        } else {
            current
        }),
{
    if current == Endpoint::Primary && failures >= PRIMARY_FAILURES_BEFORE_FAILOVER {
        Endpoint::Secondary
    } else {
        current
    }
}

/// `RETRY_BASE_MS` doubled `failures` times, capped at `RETRY_MAX_MS`.
pub open spec fn retry_delay_of(failures: nat) -> nat
    decreases failures,
{
    if failures == 0 {
        RETRY_BASE_MS as nat
    } else {
        let d = 2 * retry_delay_of((failures - 1) as nat);
        if d > RETRY_MAX_MS {
            RETRY_MAX_MS as nat
        } else {
            d
        }
    }
}

/// Delay before the next connection attempt after `failures` consecutive
/// failures: exponential, capped.
pub fn retry_delay_ms(failures: u32) -> (r: u64)
    ensures
        r as nat == retry_delay_of(failures as nat),
        r <= RETRY_MAX_MS,
{
    let mut d: u64 = RETRY_BASE_MS;
    let mut i: u32 = 0;
    while i < failures
        invariant
            i <= failures,
            d as nat == retry_delay_of(i as nat),
            d <= RETRY_MAX_MS,
        decreases failures - i,
    {
        let twice = 2 * d;
        d = if twice > RETRY_MAX_MS {
            RETRY_MAX_MS
        } else {
            twice
        };
        i += 1;
    }
    d
}

} // verus!

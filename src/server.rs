use crate::fetch::{PostMsg, PostResp};
use vstd::prelude::*;
use vstd::string::*;

verus! {

/// A feed skeleton as served: posts by URI and an optional cursor.
#[derive(Clone, Debug, PartialEq, Default)]
pub struct Response {
    pub cursor: Option<String>,
    pub feed: Vec<Post>,
}

/// One post of a served feed, by URI.
#[derive(Clone, Debug, PartialEq, Default)]
pub struct Post {
    pub post: String,
}

/// A service entry of the DID document.
#[derive(Clone, Debug, PartialEq, Default)]
pub struct KnownService {
    pub id: String,
    pub service_type: String,
    pub service_endpoint: String,
}

/// The DID document served under `.well-known`.
#[derive(Clone, Debug, PartialEq, Default)]
pub struct WellKnown {
    pub context: Vec<String>,
    pub id: String,
    pub service: Vec<KnownService>,
}

/// The feed generator's self-description.
#[derive(Clone, Debug, PartialEq, Default)]
pub struct Describe {
    pub did: String,
    pub feeds: Vec<Feed>,
}

/// A feed offered by the generator.
#[derive(Clone, Debug, PartialEq, Default)]
pub struct Feed {
    pub uri: String,
}

/// Claims of a request's bearer token.
#[derive(Clone, Debug, PartialEq, Default)]
pub struct JWT {
    pub iss: String,
    pub aud: String,
    pub exp: u128,
}

/// The requester a token's claims name, if they hold at `now_secs` for the
/// service `service_did`.
pub open spec fn claims_requester(c: JWT, now_secs: u128, service_did: Seq<char>) -> Option<
    Seq<char>,
> {
    if now_secs > c.exp || c.aud@ != service_did {
        None
    } else {
        Some(c.iss@)
    }
}

/// Checks a token's claims: not expired at `now_secs` and addressed to
/// `service_did`; gives the issuer, the requesting DID.
pub fn check_claims(c: &JWT, now_secs: u128, service_did: &String) -> (r: Option<String>)
    ensures
        r matches Some(s) ==> claims_requester(*c, now_secs, service_did@) == Some(s@),
        r is None ==> claims_requester(*c, now_secs, service_did@) is None,
{
    if now_secs > c.exp {
        return None;
    }
    if *service_did != c.aud {
        return None;
    }
    Some(c.iss.clone())
}

/// The served form of a feed post.
pub fn feed_post(p: &PostMsg) -> (r: Post)
    ensures
        r.post@ == p.uri@,
{
    Post { post: p.uri.clone() }
}

/// The served form of a reply: its posts by URI, in order, and its cursor.
pub fn feed_response(resp: &PostResp) -> (r: Response)
    ensures
        r.feed@.len() == resp.posts@.len(),
        forall|i: int| 0 <= i < r.feed@.len() ==> (#[trigger] r.feed@[i]).post@ == resp.posts@[i].uri@,
        r.cursor == resp.cursor,
{
    let mut feed: Vec<Post> = Vec::new();
    let mut i: usize = 0;
    while i < resp.posts.len()
        invariant
            i <= resp.posts@.len(),
            feed@.len() == i,
            forall|k: int| 0 <= k < i ==> (#[trigger] feed@[k]).post@ == resp.posts@[k].uri@,
        decreases resp.posts@.len() - i,
    {
        feed.push(feed_post(&resp.posts[i]));
        i += 1;
    }
    let cursor = match &resp.cursor {
        Some(c) => Some(c.clone()),
        None => None,
    };
    Response { cursor, feed }
}

} // verus!

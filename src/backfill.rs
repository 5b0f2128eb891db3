use crate::queue::{row3, ParamMap};
use crate::text::{contains_seq, parse_rkey, rkey_of, str_contains};
use crate::types::{Recordable, Subjectable};
use vstd::prelude::*;
use vstd::string::*;

verus! {

/// Parts the 2nd-degree follow fetch is spread over.
pub const FETCH_WORKERS: usize = 24;

/// Parts a follow write-back is split into.
pub const FOLLOW_WRITE_PARTS: usize = 20;

/// Parts a block write-back is split into.
pub const BLOCK_WRITE_PARTS: usize = 60;

/// The items of `chunks`, in order.
pub open spec fn flatten<T>(chunks: Seq<Vec<T>>) -> Seq<T>
    decreases chunks.len(),
{
    if chunks.len() == 0 {
        Seq::empty()
    } else {
        flatten(chunks.drop_last()) + chunks.last()@
    }
}

/// Length of each part when `len` items are split into `parts` parts: one item
/// each when there are fewer items than parts.
pub open spec fn part_len(len: nat, parts: nat) -> nat {
    if len < parts {
        1
    } else {
        len / parts
    }
}

/// Splits `items` into consecutive parts of `part_len(len, parts)` items, the
/// last possibly shorter.
pub fn split_into<T>(items: Vec<T>, parts: usize) -> (r: Vec<Vec<T>>)
    requires
        parts > 0,
    ensures
        flatten(r@) == items@,
        forall|i: int| 0 <= i < r@.len() ==> (#[trigger] r@[i])@.len() > 0,
        forall|i: int|
            0 <= i < r@.len() ==> (#[trigger] r@[i])@.len() <= part_len(items@.len(), parts as nat),
        forall|i: int|
            0 <= i < r@.len() - 1 ==> (#[trigger] r@[i])@.len() == part_len(items@.len(), parts as nat),
{
    let ghost all = items@;
    let n = items.len();
    let size: usize = if n < parts {
        1
    } else {
        n / parts
    };
    assert(size > 0) by (nonlinear_arith)
        requires
            size == (if n < parts { 1 } else { n / parts }),
            parts > 0,
    ;
    let mut rest = items;
    let mut out: Vec<Vec<T>> = Vec::new();
    assert(flatten(out@) + rest@ =~= all);
    while rest.len() > 0
        invariant
            size > 0,
            size == part_len(all.len(), parts as nat),
            flatten(out@) + rest@ == all,
            forall|i: int| 0 <= i < out@.len() ==> (#[trigger] out@[i])@.len() > 0,
            forall|i: int| 0 <= i < out@.len() ==> (#[trigger] out@[i])@.len() <= size,
            forall|i: int| 0 <= i < out@.len() - 1 ==> (#[trigger] out@[i])@.len() == size,
            out@.len() > 0 && rest@.len() > 0 ==> out@.last()@.len() == size,
        decreases rest@.len(),
    {
        let at = if rest.len() < size {
            rest.len()
        } else {
            size
        };
        let tail = rest.split_off(at);
        let ghost o0 = out@;
        let ghost head = rest@;
        out.push(rest);
        rest = tail;
        proof {
            assert(out@.drop_last() =~= o0);
            assert(flatten(out@) =~= flatten(o0) + head);
            assert(flatten(out@) + rest@ =~= flatten(o0) + (head + rest@));
            assert forall|i: int| 0 <= i < out@.len() - 1 implies (#[trigger] out@[i])@.len() == size by {
                assert(out@[i] == o0[i]);
            }
            assert forall|i: int| 0 <= i < out@.len() implies (#[trigger] out@[i])@.len() <= size && out@[i]@.len() > 0 by {
                if i < o0.len() {
                    assert(out@[i] == o0[i]);
                }
            }
        }
    }
    assert(rest@.len() == 0);
    assert(flatten(out@) =~= all);
    out
}

/// The parameters of a follow edge: `out` followed by `did`, under key `rkey`.
pub fn follow_row(out: String, rkey: String, did: String) -> (r: ParamMap)
    ensures
        r@ == row3("out"@, out@, "rkey"@, rkey@, "did"@, did@),
{
    let mut r = ParamMap::new();
    r.push("out", out);
    r.push("rkey", rkey);
    r.push("did", did);
    assert(r@ =~= row3("out"@, out@, "rkey"@, rkey@, "did"@, did@));
    r
}

/// The parameters of a block edge: `out` blocked by `did`, under key `rkey`.
pub fn block_row(out: String, did: String, rkey: String) -> (r: ParamMap)
    ensures
        r@ == row3("out"@, out@, "did"@, did@, "rkey"@, rkey@),
{
    let mut r = ParamMap::new();
    r.push("out", out);
    r.push("did", did);
    r.push("rkey", rkey);
    assert(r@ =~= row3("out"@, out@, "did"@, did@, "rkey"@, rkey@));
    r
}

/// The follow rows of the pairs `(subject, rkey)` that `did` holds.
pub fn follow_rows(pairs: Vec<(String, String)>, did: &String) -> (r: Vec<ParamMap>)
    ensures
        r@.len() == pairs@.len(),
        forall|i: int|
            0 <= i < r@.len() ==> (#[trigger] r@[i])@ == row3(
                "out"@,
                pairs@[i].0@,
                "rkey"@,
                pairs@[i].1@,
                "did"@,
                did@,
            ),
{
    let ghost all = pairs@;
    let mut pairs = pairs;
    let n = pairs.len();
    let mut out: Vec<ParamMap> = Vec::new();
    let mut i: usize = 0;
    while i < n
        invariant
            n == all.len(),
            pairs@.len() == n,
            i <= n,
            forall|k: int| i <= k < n ==> #[trigger] pairs@[k] == all[k],
            out@.len() == i,
            forall|k: int|
                0 <= k < i ==> (#[trigger] out@[k])@ == row3(
                    "out"@,
                    all[k].0@,
                    "rkey"@,
                    all[k].1@,
                    "did"@,
                    did@,
                ),
        decreases n - i,
    {
        let mut e: (String, String) = (String::new(), String::new());
        std::mem::swap(&mut e, &mut pairs[i]);
        assert(e == all[i as int]);
        let row = follow_row(e.0, e.1, did.clone());
        out.push(row);
        i += 1;
    }
    out
}

/// The block rows of the pairs `(subject, rkey)` that `did` holds.
pub fn block_rows(pairs: Vec<(String, String)>, did: &String) -> (r: Vec<ParamMap>)
    ensures
        r@.len() == pairs@.len(),
        forall|i: int|
            0 <= i < r@.len() ==> (#[trigger] r@[i])@ == row3(
                "out"@,
                pairs@[i].0@,
                "did"@,
                did@,
                "rkey"@,
                pairs@[i].1@,
            ),
{
    let ghost all = pairs@;
    let mut pairs = pairs;
    let n = pairs.len();
    let mut out: Vec<ParamMap> = Vec::new();
    let mut i: usize = 0;
    while i < n
        invariant
            n == all.len(),
            pairs@.len() == n,
            i <= n,
            forall|k: int| i <= k < n ==> #[trigger] pairs@[k] == all[k],
            out@.len() == i,
            forall|k: int|
                0 <= k < i ==> (#[trigger] out@[k])@ == row3(
                    "out"@,
                    all[k].0@,
                    "did"@,
                    did@,
                    "rkey"@,
                    all[k].1@,
                ),
        decreases n - i,
    {
        let mut e: (String, String) = (String::new(), String::new());
        std::mem::swap(&mut e, &mut pairs[i]);
        assert(e == all[i as int]);
        let row = block_row(e.0, did.clone(), e.1);
        out.push(row);
        i += 1;
    }
    out
}

/// The `(subject, rkey)` pairs of one page of listed records, the rkey taken
/// from the end of each record's URI.
pub fn page_pairs<V: Subjectable, P: Recordable<V>>(page: &P) -> (r: Vec<(String, String)>)
    ensures
        r@.len() == page.spec_records().len(),
        forall|i: int|
            0 <= i < r@.len() ==> (#[trigger] r@[i]).0@ == page.spec_records()[i].spec_subject()
                && r@[i].1@ == rkey_of(page.spec_records()[i].spec_uri()),
{
    let records = page.records();
    let mut out: Vec<(String, String)> = Vec::new();
    let mut i: usize = 0;
    while i < records.len()
        invariant
            records@ == page.spec_records(),
            i <= records@.len(),
            out@.len() == i,
            forall|k: int|
                0 <= k < i ==> (#[trigger] out@[k]).0@ == records@[k].spec_subject() && out@[k].1@
                    == rkey_of(records@[k].spec_uri()),
        decreases records@.len() - i,
    {
        let rec = &records[i];
        let subject = String::from_str(rec.subject());
        let rkey = parse_rkey(rec.uri());
        out.push((subject, rkey));
        i += 1;
    }
    out
}

/// The listing URL of a repository's records of one collection, first page.
pub open spec fn list_url_of(did: Seq<char>, collection: Seq<char>) -> Seq<char> {
    "https://bsky.social/xrpc/com.atproto.repo.listRecords?repo="@ + did + "&collection="@
        + collection + "&limit=100"@
}

/// Builds the listing URL of `did`'s records of `collection`.
pub fn list_url(did: &str, collection: &str) -> (r: String)
    ensures
        r@ == list_url_of(did@, collection@),
{
    String::from_str("https://bsky.social/xrpc/com.atproto.repo.listRecords?repo=").concat(did).concat(
        "&collection=",
    ).concat(collection).concat("&limit=100")
}

/// The URL of the page that follows `cursor`.
pub fn page_url(base: &str, cursor: &str) -> (r: String)
    ensures
        r@ == base@ + "&cursor="@ + cursor@,
{
    String::from_str(base).concat("&cursor=").concat(cursor)
}

/// Whether a listing failure means the repository is not on this server: the
/// response (HTTP 400) lacked its `records` field.
pub open spec fn not_found_error(err_text: Seq<char>, status: Option<u16>) -> bool {
    contains_seq(err_text, "missing field `records`"@) && status == Some(400u16)
}

/// Classifies a listing failure from its error text and HTTP status.
pub fn is_record_not_found(err_text: &str, status: Option<u16>) -> (r: bool)
    ensures
        r == not_found_error(err_text@, status),
{
    let has = str_contains(err_text, "missing field `records`");
    has && match status {
        Some(s) => s == 400,
        None => false,
    }
}

} // verus!

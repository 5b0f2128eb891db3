use vstd::prelude::*;
use vstd::string::*;

verus! {

/// Length in characters of the short record key that ends every record URI.
pub const RKEY_LEN: usize = 13;

/// The record key carried by a URI: its last `RKEY_LEN` characters, or the whole
/// URI when it is shorter.
pub open spec fn rkey_of(uri: Seq<char>) -> Seq<char> {
    if uri.len() <= RKEY_LEN {
        uri
    } else {
        uri.subrange(uri.len() - RKEY_LEN, uri.len() as int)
    }
}

/// A record key taken from a URI of at least `RKEY_LEN` characters has exactly
/// `RKEY_LEN` characters, and one taken from an empty URI is empty: characters
/// are counted, not bytes.
pub proof fn lemma_rkey_length(uri: Seq<char>)
    requires
        uri.len() >= RKEY_LEN || uri.len() == 0,
    ensures
        uri.len() >= RKEY_LEN ==> rkey_of(uri).len() == RKEY_LEN,
        uri.len() == 0 ==> rkey_of(uri).len() == 0,
        rkey_of(uri) == uri.subrange(uri.len() - rkey_of(uri).len(), uri.len() as int),
{
    if uri.len() <= RKEY_LEN {
        assert(uri.subrange(0, uri.len() as int) =~= uri);
    }
}

/// Takes the record key from the end of a URI, counting characters, not bytes.
pub fn parse_rkey(uri: &str) -> (r: String)
    ensures
        r@ == rkey_of(uri@),
{
    let n = uri.unicode_len();
    let start: usize = if n > RKEY_LEN {
        n - RKEY_LEN
    } else {
        0
    };
    let tail = uri.substring_char(start, n);
    let r = String::from_str(tail);
    assert(uri@.subrange(0, n as int) =~= uri@);
    r
}

/// The URI of a post: `at://<did>/app.bsky.feed.post/<rkey>`.
pub open spec fn post_uri_of(did: Seq<char>, rkey: Seq<char>) -> Seq<char> {
    "at://"@ + did + "/app.bsky.feed.post/"@ + rkey
}

/// Builds the URI of the post with key `rkey` by the author `did`.
pub fn get_post_uri(did: String, rkey: String) -> (r: String)
    ensures
        r@ == post_uri_of(did@, rkey@),
{
    let a = String::from_str("at://");
    let b = a.concat(did.as_str());
    let c = b.concat("/app.bsky.feed.post/");
    c.concat(rkey.as_str())
}

/// English plural of an operation noun, as used for batch parameter names.
pub open spec fn plural_of(w: Seq<char>) -> Seq<char>
    recommends
        w.len() > 0,
{
    let last = w.last();
    let snip = w.drop_last();
    if last == 'y' {
        snip + "ies"@
    } else if last == 's' || last == 'x' || last == 'z' {
        w + "es"@
    } else if last == 'o' && !(w.len() >= 2 && w[w.len() - 2] == 'o') {
        snip + "oes"@
    } else if last == 'u' {
        snip + "i"@
    } else {
        w + "s"@
    }
}

/// Inflects a non-empty noun into its plural.
pub fn pluralize(word: &str) -> (r: String)
    requires
        word@.len() > 0,
    ensures
        r@ == plural_of(word@),
{
    let n = word.unicode_len();
    let last = word.get_char(n - 1);
    let snip = word.substring_char(0, n - 1);
    assert(snip@ =~= word@.drop_last());
    if last == 'y' {
        String::from_str(snip).concat("ies")
    } else if last == 's' || last == 'x' || last == 'z' {
        String::from_str(word).concat("es")
    } else if last == 'o' && !(n >= 2 && word.get_char(n - 2) == 'o') {
        String::from_str(snip).concat("oes")
    } else if last == 'u' {
        String::from_str(snip).concat("i")
    } else {
        String::from_str(word).concat("s")
    }
}

/// The character of a decimal digit.
pub open spec fn digit_char(d: nat) -> char {
    if d == 0 {
        '0'
    } else if d == 1 {
        '1'
    } else if d == 2 {
        '2'
    } else if d == 3 {
        '3'
    } else if d == 4 {
        '4'
    } else if d == 5 {
        '5'
    } else if d == 6 {
        '6'
    } else if d == 7 {
        '7'
    } else if d == 8 {
        '8'
    } else {
        '9'
    }
}

/// Decimal digits of a natural number, most significant first, no padding.
pub open spec fn decimal_nat(n: nat) -> Seq<char>
    decreases n,
{
    if n < 10 {
        seq![digit_char(n)]
    } else {
        decimal_nat(n / 10).push(digit_char(n % 10))
    }
}

/// Decimal text of an integer, with a leading `-` when it is negative.
pub open spec fn decimal_int(n: int) -> Seq<char> {
    if n < 0 {
        seq!['-'] + decimal_nat((-n) as nat)
    } else {
        decimal_nat(n as nat)
    }
}

/// Relies on `u64`'s `Display`, through `to_string`: the decimal digits of the
/// number, without sign or padding.
#[verifier::external_body]
pub(crate) fn u64_to_decimal(n: u64) -> (r: String)
    ensures
        r@ == decimal_nat(n as nat),
{
    n.to_string()
}

/// Writes an `i64` in decimal.
pub fn i64_to_decimal(n: i64) -> (r: String)
    ensures
        r@ == decimal_int(n as int),
{
    if n < 0 {
        let mag: u64 = (0i128 - n as i128) as u64;
        let digits = u64_to_decimal(mag);
        let sign = String::from_str("-");
        proof {
            reveal_strlit("-");
        }
        let r = sign.concat(digits.as_str());
        assert(r@ =~= seq!['-'] + decimal_nat((-n) as nat));
        r
    } else {
        u64_to_decimal(n as u64)
    }
}

/// The text with every occurrence of `pat` replaced by `by`, scanning from the
/// left and never re-reading a replacement.
pub open spec fn replace_all(s: Seq<char>, pat: Seq<char>, by: Seq<char>) -> Seq<char>
    decreases s.len(),
{
    if pat.len() == 0 || s.len() < pat.len() {
        s
    } else if s.subrange(0, pat.len() as int) == pat {
        by + replace_all(s.subrange(pat.len() as int, s.len() as int), pat, by)
    } else {
        seq![s[0]] + replace_all(s.subrange(1, s.len() as int), pat, by)
    }
}

/// Relies on `str::replace`: every non-overlapping match of the pattern, from the
/// left, is replaced.
#[verifier::external_body]
pub(crate) fn replace_str(s: &str, pat: &str, by: &str) -> (r: String)
    requires
        pat@.len() > 0,
    ensures
        r@ == replace_all(s@, pat@, by@),
{
    s.replace(pat, by)
}

/// Whether `pat` occurs in `s`.
pub open spec fn contains_seq(s: Seq<char>, pat: Seq<char>) -> bool {
    exists|i: int| 0 <= i && i + pat.len() <= s.len() && #[trigger] s.subrange(i, i + pat.len()) == pat
}

/// Relies on `str::contains` with a `&str` pattern: whether the pattern occurs
/// as a substring.
#[verifier::external_body]
pub(crate) fn str_contains(s: &str, pat: &str) -> (r: bool)
    ensures
        r == contains_seq(s@, pat@),
{
    s.contains(pat)
}

} // verus!

//! The session bootstrapper's token extraction and the construction of one
//! page request.
//!
//! The handshake request and the page POST are I/O and live with the
//! caller; this module contains everything the protocol decides: how the
//! anti-forgery token is read out of the session's cookie header, and the
//! exact bytes of a page request's URL, headers and body.

use vstd::prelude::*;
use vstd::string::StringSliceAdditionalSpecFns;
use vstd::string::StrSliceExecFns;
use crate::graphql::{FIRST, GRAPHQL_QUERY};
use crate::util::{init_headers, static_headers_model, headers_match, HeaderPair};

verus! {

/// The cookie whose value is the anti-forgery token.
pub open spec fn cookie_name() -> Seq<u8> {
    "tutti_csrftoken=".spec_bytes()
}

/// ASCII whitespace, as trimmed around each cookie of a cookie header.
pub open spec fn is_cookie_ws(b: u8) -> bool {
    b == 32 || b == 9 || b == 10 || b == 13
}

/// `s` with leading ASCII whitespace removed.
pub open spec fn trim_front_model(s: Seq<u8>) -> Seq<u8>
    decreases s.len(),
{
    if s.len() > 0 && is_cookie_ws(s[0]) {
        trim_front_model(s.drop_first())
    } else {
        s
    }
}

/// `s` with trailing ASCII whitespace removed.
pub open spec fn trim_back_model(s: Seq<u8>) -> Seq<u8>
    decreases s.len(),
{
    if s.len() > 0 && is_cookie_ws(s.last()) {
        trim_back_model(s.drop_last())
    } else {
        s
    }
}

/// `s` with whitespace removed on both sides.
pub open spec fn trimmed_model(s: Seq<u8>) -> Seq<u8> {
    trim_back_model(trim_front_model(s))
}

/// The token one cookie yields: its value, when the trimmed cookie starts
/// with the anti-forgery cookie's name.
pub open spec fn token_in_cookie(part: Seq<u8>) -> Option<Seq<u8>> {
    let t = trimmed_model(part);
    if cookie_name().len() <= t.len() && t.take(cookie_name().len() as int) == cookie_name() {
        Some(t.skip(cookie_name().len() as int))
    } else {
        None
    }
}

/// Scans the cookie header left to right: `part` is the cookie read so
/// far, `rest` what follows. At each `;` (and at the end) the finished
/// cookie is examined; the first anti-forgery cookie's value wins.
pub open spec fn scan_cookies(part: Seq<u8>, rest: Seq<u8>) -> Option<Seq<u8>>
    decreases rest.len(),
{
    if rest.len() == 0 {
        token_in_cookie(part)
    } else if rest[0] == 59 {
        if token_in_cookie(part) is Some {
            token_in_cookie(part)
        } else {
            scan_cookies(Seq::empty(), rest.drop_first())
        }
    } else {
        scan_cookies(part.push(rest[0]), rest.drop_first())
    }
}

/// The anti-forgery token a cookie header carries: the value of the first
/// `;`-separated cookie that, trimmed of ASCII whitespace, starts with the
/// anti-forgery cookie's name — or nothing, when no cookie does.
pub open spec fn extracted_token_model(s: Seq<u8>) -> Option<Seq<u8>> {
    scan_cookies(Seq::empty(), s)
}

/// Whether a byte is ASCII whitespace, as [`is_cookie_ws`] states.
fn is_ws_byte(b: u8) -> (r: bool)
    ensures
        r == is_cookie_ws(b),
{
    b == 32 || b == 9 || b == 10 || b == 13
}

/// Examines one cookie, `s[start..end]`: trims it and, when it starts with
/// the anti-forgery cookie's name, returns the value after the name.
#[verifier::loop_isolation(false)]
fn token_in_cookie_slice(s: &Vec<u8>, start: usize, end: usize) -> (r: Option<Vec<u8>>)
    requires
        start <= end <= s@.len(),
    ensures
        r is Some <==> token_in_cookie(s@.subrange(start as int, end as int)) is Some,
        r matches Some(t) ==> token_in_cookie(s@.subrange(start as int, end as int)) == Some(t@),
{
    let ghost part = s@.subrange(start as int, end as int);
    let mut a = start;
    while a < end && is_ws_byte(s[a])
        invariant
            start <= a <= end <= s@.len(),
            trim_front_model(s@.subrange(start as int, end as int)) == trim_front_model(
                s@.subrange(a as int, end as int),
            ),
        decreases end - a,
    {
        proof {
            assert(s@.subrange(a as int, end as int).drop_first() =~= s@.subrange(
                a + 1,
                end as int,
            ));
        }
        a = a + 1;
    }
    proof {
        assert(trim_front_model(s@.subrange(a as int, end as int)) == s@.subrange(
            a as int,
            end as int,
        ));
    }
    let mut b = end;
    while b > a && is_ws_byte(s[b - 1])
        invariant
            a <= b <= end <= s@.len(),
            trim_back_model(s@.subrange(a as int, end as int)) == trim_back_model(
                s@.subrange(a as int, b as int),
            ),
        decreases b,
    {
        proof {
            assert(s@.subrange(a as int, b as int).drop_last() =~= s@.subrange(
                a as int,
                b - 1,
            ));
        }
        b = b - 1;
    }
    proof {
        assert(trim_back_model(s@.subrange(a as int, b as int)) == s@.subrange(
            a as int,
            b as int,
        ));
        assert(trimmed_model(part) == s@.subrange(a as int, b as int));
    }
    let ghost t = trimmed_model(part);
    let name: &[u8] = "tutti_csrftoken=".as_bytes();
    let n = name.len();
    proof {
        broadcast use vstd::slice::axiom_spec_len;

        assert(n == cookie_name().len());
    }
    if b - a < n {
        proof {
            assert(t.len() == b - a);
            assert(token_in_cookie(part) is None);
        }
        return None;
    }
    let mut j: usize = 0;
    while j < n
        invariant
            0 <= j <= n,
            a + n <= b <= s@.len(),
            n == cookie_name().len(),
            name@ == cookie_name(),
            t == s@.subrange(a as int, b as int),
            forall|k: int| 0 <= k < j ==> t[k] == cookie_name()[k],
        decreases n - j,
    {
        let sb = s[a + j];
        let nb = vstd::slice::slice_index_get(name, j);
        if sb != *nb {
            proof {
                assert(t.take(n as int)[j as int] != cookie_name()[j as int]);
                assert(t.take(n as int) != cookie_name());
                assert(token_in_cookie(part) is None);
            }
            return None;
        }
        j = j + 1;
    }
    proof {
        assert(t.take(n as int) =~= cookie_name());
    }
    let mut token: Vec<u8> = Vec::new();
    let mut k = a + n;
    while k < b
        invariant
            a + n <= k <= b <= s@.len(),
            t == s@.subrange(a as int, b as int),
            n == cookie_name().len(),
            token@ =~= s@.subrange(a + n, k as int),
        decreases b - k,
    {
        token.push(s[k]);
        k = k + 1;
    }
    proof {
        assert(t.take(n as int) == cookie_name());
        assert(token@ =~= t.skip(n as int));
        assert(token_in_cookie(part) == Some(t.skip(n as int)));
    }
    Some(token)
}

/// Reads the anti-forgery token out of a session's cookie header, exactly
/// as [`extracted_token_model`] states; `None` when the anti-forgery
/// cookie is absent.
#[verifier::loop_isolation(false)]
pub fn extract_csrf_token(cookie_header: &Vec<u8>) -> (r: Option<Vec<u8>>)
    ensures
        r is Some <==> extracted_token_model(cookie_header@) is Some,
        r matches Some(t) ==> extracted_token_model(cookie_header@) == Some(t@),
{
    let s = cookie_header;
    let len = s.len();
    let mut pos: usize = 0;
    let mut i: usize = 0;
    proof {
        assert(s@.subrange(0, 0) =~= Seq::<u8>::empty());
        assert(s@.skip(0) =~= s@);
    }
    loop
        invariant
            pos <= i <= len == s@.len(),
            extracted_token_model(s@) == scan_cookies(
                s@.subrange(pos as int, i as int),
                s@.skip(i as int),
            ),
        decreases len - i,
    {
        if i == len {
            proof {
                assert(s@.skip(i as int) =~= Seq::<u8>::empty());
                assert(scan_cookies(s@.subrange(pos as int, i as int), s@.skip(i as int))
                    == token_in_cookie(s@.subrange(pos as int, i as int)));
            }
            return token_in_cookie_slice(s, pos, i);
        }
        let ghost part = s@.subrange(pos as int, i as int);
        let ghost rest = s@.skip(i as int);
        proof {
            assert(rest.len() > 0);
            assert(rest[0] == s@[i as int]);
            assert(rest.drop_first() =~= s@.skip(i + 1));
        }
        if s[i] == 59 {
            proof {
                assert(scan_cookies(part, rest) == (if token_in_cookie(part) is Some {
                    token_in_cookie(part)
                } else {
                    scan_cookies(Seq::empty(), rest.drop_first())
                }));
            }
            match token_in_cookie_slice(s, pos, i) {
                Some(t) => {
                    proof {
                        assert(extracted_token_model(s@) == Some(t@));
                    }
                    return Some(t);
                },
                None => {
                    proof {
                        assert(s@.subrange(i + 1, i + 1) =~= Seq::<u8>::empty());
                        assert(scan_cookies(part, rest) == scan_cookies(
                            s@.subrange(i + 1, i + 1),
                            s@.skip(i + 1),
                        ));
                    }
                    pos = i + 1;
                },
            }
        } else {
            proof {
                assert(part.push(rest[0]) =~= s@.subrange(pos as int, i + 1));
                assert(scan_cookies(part, rest) == scan_cookies(
                    part.push(rest[0]),
                    rest.drop_first(),
                ));
            }
        }
        i = i + 1;
    }
}

// ---------------------------------------------------------------------
// Byte-level building blocks of a page request.
// ---------------------------------------------------------------------

/// The lowercase hexadecimal digit for a value below sixteen.
pub open spec fn hex_lower(d: u8) -> u8 {
    if d < 10 {
        (48 + d) as u8
    } else {
        (87 + d) as u8
    }
}

/// The uppercase hexadecimal digit for a value below sixteen.
pub open spec fn hex_upper(d: u8) -> u8 {
    if d < 10 {
        (48 + d) as u8
    } else {
        (55 + d) as u8
    }
}

/// How one byte of a string appears inside a JSON string literal: the
/// quote, the backslash and the named control characters get a two-byte
/// escape, every other control byte a six-byte `\u00..` escape with
/// lowercase hexadecimal digits, and all remaining bytes stand unchanged.
pub open spec fn escape_byte(b: u8) -> Seq<u8> {
    if b == 34 {
        seq![92u8, 34u8]
    } else if b == 92 {
        seq![92u8, 92u8]
    } else if b == 8 {
        seq![92u8, 98u8]
    } else if b == 9 {
        seq![92u8, 116u8]
    } else if b == 10 {
        seq![92u8, 110u8]
    } else if b == 12 {
        seq![92u8, 102u8]
    } else if b == 13 {
        seq![92u8, 114u8]
    } else if b < 32 {
        seq![92u8, 117u8, 48u8, 48u8, hex_lower(b / 16), hex_lower(b % 16)]
    } else {
        seq![b]
    }
}

/// A byte string escaped for use inside a JSON string literal.
pub open spec fn json_escaped(s: Seq<u8>) -> Seq<u8>
    decreases s.len(),
{
    if s.len() == 0 {
        Seq::empty()
    } else {
        escape_byte(s[0]) + json_escaped(s.drop_first())
    }
}

proof fn lemma_json_escaped_snoc(s: Seq<u8>, b: u8)
    ensures
        json_escaped(s.push(b)) == json_escaped(s) + escape_byte(b),
    decreases s.len(),
{
    if s.len() == 0 {
        assert(s.push(b).drop_first() =~= s);
        assert(s.push(b)[0] == b);
        assert(json_escaped(s) == Seq::<u8>::empty());
        assert(json_escaped(s.push(b)) == escape_byte(b) + json_escaped(s));
        assert(json_escaped(s.push(b)) =~= json_escaped(s) + escape_byte(b));
    } else {
        assert(s.push(b).drop_first() =~= s.drop_first().push(b));
        assert(s.push(b)[0] == s[0]);
        lemma_json_escaped_snoc(s.drop_first(), b);
        assert(json_escaped(s.push(b)) == escape_byte(s[0]) + (json_escaped(s.drop_first())
            + escape_byte(b)));
        assert(json_escaped(s) == escape_byte(s[0]) + json_escaped(s.drop_first()));
        assert(json_escaped(s.push(b)) =~= json_escaped(s) + escape_byte(b));
    }
}

/// Appends `s` to `out`, escaped as [`json_escaped`] states.
fn push_json_escaped(out: &mut Vec<u8>, s: &Vec<u8>)
    ensures
        final(out)@ == old(out)@ + json_escaped(s@),
{
    let ghost base = out@;
    let mut i: usize = 0;
    while i < s.len()
        invariant
            i <= s@.len(),
            out@ == base + json_escaped(s@.take(i as int)),
        decreases s@.len() - i,
    {
        let b = s[i];
        proof {
            lemma_json_escaped_snoc(s@.take(i as int), b);
            assert(s@.take(i + 1) =~= s@.take(i as int).push(b));
        }
        if b == 34 {
            out.push(92);
            out.push(34);
        } else if b == 92 {
            out.push(92);
            out.push(92);
        } else if b == 8 {
            out.push(92);
            out.push(98);
        } else if b == 9 {
            out.push(92);
            out.push(116);
        } else if b == 10 {
            out.push(92);
            out.push(110);
        } else if b == 12 {
            out.push(92);
            out.push(102);
        } else if b == 13 {
            out.push(92);
            out.push(114);
        } else if b < 32 {
            out.push(92);
            out.push(117);
            out.push(48);
            out.push(48);
            out.push(if b / 16 < 10 {
                48 + b / 16
            } else {
                87 + b / 16
            });
            out.push(if b % 16 < 10 {
                48 + b % 16
            } else {
                87 + b % 16
            });
        } else {
            out.push(b);
        }
        proof {
            assert(out@ =~= base + json_escaped(s@.take(i + 1)));
        }
        i = i + 1;
    }
    proof {
        assert(s@.take(s@.len() as int) =~= s@);
    }
}

/// The decimal digits of `n`, most significant first.
pub open spec fn dec_digits(n: nat) -> Seq<u8>
    decreases n,
{
    if n < 10 {
        seq![(48 + n) as u8]
    } else {
        dec_digits(n / 10).push((48 + n % 10) as u8)
    }
}

/// Appends the decimal digits of `n` to `out`.
fn push_decimal(out: &mut Vec<u8>, n: u32)
    ensures
        final(out)@ == old(out)@ + dec_digits(n as nat),
    decreases n,
{
    if n < 10 {
        out.push(48 + n as u8);
        proof {
            assert(out@ =~= old(out)@ + dec_digits(n as nat));
        }
    } else {
        push_decimal(out, n / 10);
        out.push(48 + (n % 10) as u8);
        proof {
            assert(out@ =~= old(out)@ + dec_digits(n as nat));
        }
    }
}

/// Appends the bytes of `s` to `out`.
fn push_str_bytes(out: &mut Vec<u8>, s: &str)
    ensures
        final(out)@ == old(out)@ + s.spec_bytes(),
{
    let mut bytes = s.as_bytes_vec();
    out.append(&mut bytes);
}

/// Appends a copy of `src` to `out`.
fn push_bytes(out: &mut Vec<u8>, src: &Vec<u8>)
    ensures
        final(out)@ == old(out)@ + src@,
{
    let ghost base = out@;
    let mut i: usize = 0;
    while i < src.len()
        invariant
            i <= src@.len(),
            out@ == base + src@.take(i as int),
        decreases src@.len() - i,
    {
        out.push(src[i]);
        proof {
            assert(out@ =~= base + src@.take(i + 1));
        }
        i = i + 1;
    }
    proof {
        assert(src@.take(src@.len() as int) =~= src@);
    }
}

/// One byte of a correlation identifier's compact form: hyphens vanish,
/// every other byte stays.
pub open spec fn keep_byte(b: u8) -> Seq<u8> {
    if b == 45 {
        Seq::empty()
    } else {
        seq![b]
    }
}

/// `s` with every hyphen removed.
pub open spec fn strip_hyphens(s: Seq<u8>) -> Seq<u8>
    decreases s.len(),
{
    if s.len() == 0 {
        Seq::empty()
    } else {
        keep_byte(s[0]) + strip_hyphens(s.drop_first())
    }
}

proof fn lemma_strip_hyphens_snoc(s: Seq<u8>, b: u8)
    ensures
        strip_hyphens(s.push(b)) == strip_hyphens(s) + keep_byte(b),
    decreases s.len(),
{
    if s.len() == 0 {
        assert(s.push(b).drop_first() =~= s);
        assert(s.push(b)[0] == b);
        assert(strip_hyphens(s) == Seq::<u8>::empty());
        assert(strip_hyphens(s.push(b)) == keep_byte(b) + strip_hyphens(s));
        assert(strip_hyphens(s.push(b)) =~= strip_hyphens(s) + keep_byte(b));
    } else {
        assert(s.push(b).drop_first() =~= s.drop_first().push(b));
        assert(s.push(b)[0] == s[0]);
        lemma_strip_hyphens_snoc(s.drop_first(), b);
        assert(strip_hyphens(s.push(b)) == keep_byte(s[0]) + (strip_hyphens(s.drop_first())
            + keep_byte(b)));
        assert(strip_hyphens(s) == keep_byte(s[0]) + strip_hyphens(s.drop_first()));
        assert(strip_hyphens(s.push(b)) =~= strip_hyphens(s) + keep_byte(b));
    }
}

/// `s` with every hyphen removed, as [`strip_hyphens`] states.
pub fn strip_hyphens_bytes(s: &Vec<u8>) -> (r: Vec<u8>)
    ensures
        r@ == strip_hyphens(s@),
{
    let mut out: Vec<u8> = Vec::new();
    let mut i: usize = 0;
    while i < s.len()
        invariant
            i <= s@.len(),
            out@ == strip_hyphens(s@.take(i as int)),
        decreases s@.len() - i,
    {
        let b = s[i];
        proof {
            lemma_strip_hyphens_snoc(s@.take(i as int), b);
            assert(s@.take(i + 1) =~= s@.take(i as int).push(b));
        }
        if b != 45 {
            out.push(b);
        }
        proof {
            assert(out@ =~= strip_hyphens(s@.take(i + 1)));
        }
        i = i + 1;
    }
    proof {
        assert(s@.take(s@.len() as int) =~= s@);
    }
    out
}

/// One byte lowered: ASCII capitals move to their small forms, all other
/// bytes stay.
pub open spec fn lower_byte(b: u8) -> u8 {
    if 65 <= b <= 90 {
        (b + 32) as u8
    } else {
        b
    }
}

/// `s` with every ASCII capital lowered.
pub open spec fn ascii_lower(s: Seq<u8>) -> Seq<u8> {
    s.map_values(|b: u8| lower_byte(b))
}

/// `s` with every ASCII capital lowered, as [`ascii_lower`] states.
pub fn ascii_lower_bytes(s: &Vec<u8>) -> (r: Vec<u8>)
    ensures
        r@ == ascii_lower(s@),
{
    let mut out: Vec<u8> = Vec::new();
    let mut i: usize = 0;
    while i < s.len()
        invariant
            i <= s@.len(),
            out@.len() == i,
            forall|k: int| 0 <= k < i ==> out@[k] == lower_byte(s@[k]),
        decreases s@.len() - i,
    {
        let b = s[i];
        if 65 <= b && b <= 90 {
            out.push(b + 32);
        } else {
            out.push(b);
        }
        i = i + 1;
    }
    proof {
        assert(out@ =~= ascii_lower(s@));
    }
    out
}

/// The first eight bytes of `s`; all of `s` when it is shorter.
pub open spec fn prefix8(s: Seq<u8>) -> Seq<u8> {
    if s.len() <= 8 {
        s
    } else {
        s.take(8)
    }
}

/// The first eight bytes of `s`, as [`prefix8`] states.
pub fn prefix8_bytes(s: &Vec<u8>) -> (r: Vec<u8>)
    ensures
        r@ == prefix8(s@),
{
    let mut out: Vec<u8> = Vec::new();
    let mut i: usize = 0;
    while i < s.len() && i < 8
        invariant
            i <= s@.len(),
            i <= 8,
            out@ =~= s@.take(i as int),
        decreases s@.len() - i,
    {
        out.push(s[i]);
        proof {
            assert(out@ =~= s@.take(i + 1));
        }
        i = i + 1;
    }
    proof {
        if s@.len() <= 8 {
            assert(s@.take(s@.len() as int) =~= s@);
        }
    }
    out
}

// ---------------------------------------------------------------------
// Per-request fingerprints.
// ---------------------------------------------------------------------

/// Whether a byte is a lowercase hexadecimal digit.
pub open spec fn is_lower_hex(b: u8) -> bool {
    (48 <= b <= 57) || (97 <= b <= 102)
}

/// Relies on `uuid::Uuid::new_v4` and its `Display` form: a fresh random
/// identifier printed as 36 bytes — five groups of lowercase hexadecimal
/// digits joined by hyphens at positions 8, 13, 18 and 23.
#[verifier::external_body]
fn random_uuid_bytes() -> (r: Vec<u8>)
    ensures
        r@.len() == 36,
        r@[8] == 45 && r@[13] == 45 && r@[18] == 45 && r@[23] == 45,
        forall|i: int|
            0 <= i < 36 && i != 8 && i != 13 && i != 18 && i != 23 ==> is_lower_hex(
                #[trigger] r@[i],
            ),
{
    uuid::Uuid::new_v4().to_string().into_bytes()
}

/// Relies on `chrono::Utc::now`, formatted as year, month, day, hour and
/// minute joined by hyphens. The bytes depend on the clock, so nothing is
/// promised of them.
#[verifier::external_body]
fn current_timestamp_bytes() -> (r: Vec<u8>) {
    chrono::Utc::now().format("%Y-%m-%d-%H-%M").to_string().into_bytes()
}

/// What percent-encoding a byte yields: alphanumerics and `-`, `.`, `_`,
/// `~` stand unchanged, every other byte becomes `%` and two uppercase
/// hexadecimal digits.
pub open spec fn encode_url_byte(b: u8) -> Seq<u8> {
    if (48 <= b <= 57) || (65 <= b <= 90) || (97 <= b <= 122) || b == 45 || b == 46 || b == 95
        || b == 126 {
        seq![b]
    } else {
        seq![37u8, hex_upper(b / 16), hex_upper(b % 16)]
    }
}

/// A byte string percent-encoded for use inside a URL.
pub open spec fn url_encoded(s: Seq<u8>) -> Seq<u8>
    decreases s.len(),
{
    if s.len() == 0 {
        Seq::empty()
    } else {
        encode_url_byte(s[0]) + url_encoded(s.drop_first())
    }
}

/// Relies on `urlencoding::encode`: percent-encodes every byte of the
/// string's UTF-8 form except alphanumerics and `-`, `.`, `_`, `~`, with
/// uppercase hexadecimal digits.
#[verifier::external_body]
fn url_encode(s: &str) -> (r: Vec<u8>)
    ensures
        r@ == url_encoded(s.spec_bytes()),
{
    urlencoding::encode(s).into_owned().into_bytes()
}

/// The ephemeral identifiers of one page request, regenerated fresh for
/// every request: a correlation identifier, a timestamp, and the random
/// hash segment of the referer. Injectable, so a caller can supply
/// deterministic values where real randomness and clocks are unwanted.
#[derive(Debug, Clone)]
pub struct Fingerprint {
    pub correlation_id: Vec<u8>,
    pub timestamp: Vec<u8>,
    pub referer_hash: Vec<u8>,
}

/// A fresh fingerprint: a random correlation identifier in its hyphenated
/// 36-byte form, the current minute as a timestamp, and a second random
/// identifier compacted and lowered for the referer's hash segment.
pub fn fresh_fingerprint() -> (r: Fingerprint)
    ensures
        r.correlation_id@.len() == 36,
{
    let correlation_id = random_uuid_bytes();
    let timestamp = current_timestamp_bytes();
    let second = random_uuid_bytes();
    let stripped = strip_hyphens_bytes(&second);
    let referer_hash = ascii_lower_bytes(&stripped);
    Fingerprint { correlation_id, timestamp, referer_hash }
}

// ---------------------------------------------------------------------
// One page request.
// ---------------------------------------------------------------------

/// One page request, ready to send: the query endpoint, every header, and
/// the JSON body.
#[derive(Debug, Clone)]
pub struct PageRequest {
    pub url: Vec<u8>,
    pub headers: Vec<HeaderPair>,
    pub body: Vec<u8>,
}

/// The exact JSON body of a page request: the fixed query document and
/// the variables object carrying the query text, the page size, the page's
/// item offset, and the fixed sort — newest first.
pub open spec fn body_model(query: Seq<u8>, offset: u32) -> Seq<u8> {
    "{\"query\":\"".spec_bytes() + json_escaped(GRAPHQL_QUERY.spec_bytes())
        + "\",\"variables\":{\"category\":null,\"constraints\":null,\"direction\":\"DESCENDING\",\"first\":".spec_bytes()
        + dec_digits(FIRST as nat) + ",\"offset\":".spec_bytes() + dec_digits(offset as nat)
        + ",\"query\":\"".spec_bytes() + json_escaped(query)
        + "\",\"sort\":\"TIMESTAMP\"}}".spec_bytes()
}

/// The exact referer of a page request: the search page under a random
/// hash segment, with the percent-encoded query text.
pub open spec fn referer_model(referer_hash: Seq<u8>, query: Seq<u8>) -> Seq<u8> {
    "https://www.tutti.ch/de/q/suche/".spec_bytes() + referer_hash
        + "?sorting=newest&page=1&query=".spec_bytes() + url_encoded(query)
}

/// The exact client/source identifier: the fixed product tag and the
/// request's timestamp.
pub open spec fn source_model(timestamp: Seq<u8>) -> Seq<u8> {
    "web r1.0-".spec_bytes() + timestamp
}

/// The exact client identifier: the fixed version tag and the first eight
/// bytes of the correlation identifier's compact form.
pub open spec fn client_identifier_model(correlation_id: Seq<u8>) -> Seq<u8> {
    "web/1.0.0+env-live.git-".spec_bytes() + prefix8(strip_hyphens(correlation_id))
}

/// Builds one page request: the query endpoint's URL; the six static
/// browser-emulating headers followed by the referer, the correlation
/// hash, the source and client identifiers, the anti-forgery token and the
/// JSON content type; and the body of [`body_model`].
pub fn build_page_request(
    csrf_token: &Vec<u8>,
    query: &str,
    offset: u32,
    fingerprint: &Fingerprint,
) -> (r: PageRequest)
    ensures
        r.url@ == "https://www.tutti.ch/api/v10/graphql".spec_bytes(),
        r.body@ == body_model(query.spec_bytes(), offset),
        r.headers@.len() == 12,
        headers_match(r.headers@.take(6), static_headers_model()),
        r.headers@[6].name@ == "referer".spec_bytes() && r.headers@[6].value@ == referer_model(
            fingerprint.referer_hash@,
            query.spec_bytes(),
        ),
        r.headers@[7].name@ == "x-tutti-hash".spec_bytes() && r.headers@[7].value@
            == fingerprint.correlation_id@,
        r.headers@[8].name@ == "x-tutti-source".spec_bytes() && r.headers@[8].value@
            == source_model(fingerprint.timestamp@),
        r.headers@[9].name@ == "x-tutti-client-identifier".spec_bytes() && r.headers@[9].value@
            == client_identifier_model(fingerprint.correlation_id@),
        r.headers@[10].name@ == "x-csrf-token".spec_bytes() && r.headers@[10].value@
            == csrf_token@,
        r.headers@[11].name@ == "content-type".spec_bytes() && r.headers@[11].value@
            == "application/json".spec_bytes(),
{
    let mut headers = init_headers();
    let ghost static_part = headers@;

    let mut referer = Vec::new();
    push_str_bytes(&mut referer, "https://www.tutti.ch/de/q/suche/");
    push_bytes(&mut referer, &fingerprint.referer_hash);
    push_str_bytes(&mut referer, "?sorting=newest&page=1&query=");
    let mut encoded_query = url_encode(query);
    referer.append(&mut encoded_query);
    headers.push(HeaderPair { name: "referer".as_bytes_vec(), value: referer });

    let mut hash_value = Vec::new();
    push_bytes(&mut hash_value, &fingerprint.correlation_id);
    headers.push(HeaderPair { name: "x-tutti-hash".as_bytes_vec(), value: hash_value });

    let mut source = Vec::new();
    push_str_bytes(&mut source, "web r1.0-");
    push_bytes(&mut source, &fingerprint.timestamp);
    headers.push(HeaderPair { name: "x-tutti-source".as_bytes_vec(), value: source });

    let mut client_id = Vec::new();
    push_str_bytes(&mut client_id, "web/1.0.0+env-live.git-");
    let stripped = strip_hyphens_bytes(&fingerprint.correlation_id);
    let mut fragment = prefix8_bytes(&stripped);
    client_id.append(&mut fragment);
    headers.push(
        HeaderPair { name: "x-tutti-client-identifier".as_bytes_vec(), value: client_id },
    );

    let mut token_value = Vec::new();
    push_bytes(&mut token_value, csrf_token);
    headers.push(HeaderPair { name: "x-csrf-token".as_bytes_vec(), value: token_value });

    headers.push(
        HeaderPair { name: "content-type".as_bytes_vec(), value: "application/json".as_bytes_vec() },
    );

    let mut body = Vec::new();
    push_str_bytes(&mut body, "{\"query\":\"");
    let doc = GRAPHQL_QUERY.as_bytes_vec();
    push_json_escaped(&mut body, &doc);
    push_str_bytes(
        &mut body,
        "\",\"variables\":{\"category\":null,\"constraints\":null,\"direction\":\"DESCENDING\",\"first\":",
    );
    push_decimal(&mut body, FIRST);
    push_str_bytes(&mut body, ",\"offset\":");
    push_decimal(&mut body, offset);
    push_str_bytes(&mut body, ",\"query\":\"");
    let query_bytes = query.as_bytes_vec();
    push_json_escaped(&mut body, &query_bytes);
    push_str_bytes(&mut body, "\",\"sort\":\"TIMESTAMP\"}}");

    proof {
        assert(headers@.take(6) =~= static_part);
    }
    PageRequest { url: "https://www.tutti.ch/api/v10/graphql".as_bytes_vec(), headers, body }
}

} // verus!

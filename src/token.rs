use vstd::prelude::*;

use base64::Engine;
use vstd::string::StringSliceAdditionalSpecFns;

use crate::duration::{duration_spec, parse_duration, DurationError};

verus! {

/// Why a token could not be issued or was not accepted.
#[derive(Debug, Clone, Copy, PartialEq, Eq, Structural)]
pub enum TokenError {
    /// The expiry duration string was rejected.
    Duration(DurationError),
    /// Now plus the duration does not fit in a signed 64-bit timestamp.
    ExpiryOutOfRange,
    /// The token is not three dot-separated segments with the fixed header
    /// and a base64url payload.
    MalformedToken,
    /// The signature segment is not the HMAC-SHA256 of the first two segments.
    SignatureMismatch,
    /// The payload does not hold `sub`, `aud` and an integer `exp`.
    MalformedClaims,
    /// The current time is at or past the expiry.
    Expired,
    /// The system clock reads before 1970 or past the times that chrono can
    /// represent.
    ClockUnavailable,
}

/// The secret that tokens are signed and checked with when none is given.
pub const DEFAULT_SECRET: &'static str = "secret-key";

/// The base64url encoding of `{"typ":"JWT","alg":"HS256"}`, the header of
/// every token this library issues.
pub const JWT_HEADER: &'static str = "eyJ0eXAiOiJKV1QiLCJhbGciOiJIUzI1NiJ9";

/// The base64url (no padding) text of an HMAC-SHA256 tag of `message` under
/// `secret`.
pub uninterp spec fn hs256_of(message: Seq<char>, secret: Seq<u8>) -> Seq<char>;

/// The base64url (no padding) text of `bytes`.
pub uninterp spec fn b64url_of(bytes: Seq<u8>) -> Seq<char>;

/// The bytes that a base64url (no padding) text decodes to, if it is one.
pub uninterp spec fn b64url_decoded_of(text: Seq<char>) -> Option<Seq<u8>>;

/// The JSON object `{"sub":..,"aud":..,"exp":..}` as bytes.
pub uninterp spec fn claims_json_of(sub: Seq<char>, aud: Seq<char>, exp: int) -> Seq<u8>;

/// The string `sub`, string `aud` and integer `exp` that a JSON object holds,
/// if it holds all three.
/// Whether the header segment of a token decodes to a JWT header whose
/// algorithm is HS256.
pub uninterp spec fn hs256_header_of(token: Seq<char>) -> bool;

pub uninterp spec fn claims_decoded_of(json: Seq<u8>) -> Option<(Seq<char>, Seq<char>, int)>;

pub open spec fn no_dot(s: Seq<char>) -> bool {
    forall|i: int| 0 <= i < s.len() ==> #[trigger] s[i] != '.'
}

pub open spec fn header_segment() -> Seq<char> {
    JWT_HEADER@
}

pub open spec fn payload_segment(sub: Seq<char>, aud: Seq<char>, exp: int) -> Seq<char> {
    b64url_of(claims_json_of(sub, aud, exp))
}

/// `header.payload`, the text that the signature covers.
pub open spec fn signing_input(payload: Seq<char>) -> Seq<char> {
    header_segment() + seq!['.'] + payload
}

/// The token for the given claims: `header.payload.signature`.
pub open spec fn token_spec(sub: Seq<char>, aud: Seq<char>, exp: int, secret: Seq<u8>) -> Seq<char> {
    let m = signing_input(payload_segment(sub, aud, exp));
    m + seq!['.'] + hs256_of(m, secret)
}

/// What issuing gives for a duration string at time `now` (Unix seconds).
pub open spec fn issue_spec(
    sub: Seq<char>,
    aud: Seq<char>,
    exp: Seq<char>,
    now: int,
    secret: Seq<u8>,
) -> Result<Seq<char>, TokenError> {
    match duration_spec(exp) {
        Err(e) => Err(TokenError::Duration(e)),
        Ok(d) => if now + d > i64::MAX {
            Err(TokenError::ExpiryOutOfRange)
        } else {
            Ok(token_spec(sub, aud, now + d, secret))
        },
    }
}

/// The index of the first `.` at or after `from`, or the length if none.
pub open spec fn dot_index(t: Seq<char>, from: int) -> int
    decreases t.len() - from,
{
    if from >= t.len() {
        t.len() as int
    } else if t[from] == '.' {
        from
    } else {
        dot_index(t, from + 1)
    }
}

/// What verifying `t` at time `now` gives. The header is accepted when it is
/// the one this library writes (which names HS256) or any other that decodes
/// to HS256.
pub open spec fn verify_spec(t: Seq<char>, secret: Seq<u8>, now: int) -> Result<(), TokenError> {
    let i = dot_index(t, 0);
    let j = dot_index(t, i + 1);
    if i >= t.len() || j >= t.len() || dot_index(t, j + 1) < t.len() {
        Err(TokenError::MalformedToken)
    } else if t.subrange(0, i) != header_segment() && !hs256_header_of(t) {
        Err(TokenError::MalformedToken)
    } else if b64url_decoded_of(t.subrange(i + 1, j)) is None {
        Err(TokenError::MalformedToken)
    } else if b64url_decoded_of(t.subrange(j + 1, t.len() as int)) is None {
        Err(TokenError::MalformedToken)
    } else if t.subrange(j + 1, t.len() as int) != hs256_of(t.subrange(0, j), secret) {
        Err(TokenError::SignatureMismatch)
    } else {
        match claims_decoded_of(b64url_decoded_of(t.subrange(i + 1, j)).unwrap()) {
            None => Err(TokenError::MalformedClaims),
            Some(c) => if now >= c.2 {
                Err(TokenError::Expired)
            } else {
                Ok(())
            },
        }
    }
}

/// Relies on jsonwebtoken::crypto::sign with HS256, which always succeeds and
/// gives the base64url (URL_SAFE_NO_PAD) text of the HMAC-SHA256 tag: no `.`
/// in that alphabet, and it decodes back.
#[verifier::external_body]
fn hs256_sign(message: &str, secret: &[u8]) -> (r: String)
    ensures
        r@ == hs256_of(message@, secret@),
        no_dot(r@),
        b64url_decoded_of(r@) is Some,
{
    let key = jsonwebtoken::EncodingKey::from_secret(secret);
    match jsonwebtoken::crypto::sign(message.as_bytes(), &key, jsonwebtoken::Algorithm::HS256) {
        Ok(s) => s,
        Err(_) => String::new(),
    }
}

/// Relies on jsonwebtoken::crypto::verify with HS256: it signs `message` again
/// and compares the result with `signature` byte for byte.
#[verifier::external_body]
fn hs256_verify(signature: &str, message: &str, secret: &[u8]) -> (r: bool)
    ensures
        r == (signature@ == hs256_of(message@, secret@)),
{
    let key = jsonwebtoken::DecodingKey::from_secret(secret);
    match jsonwebtoken::crypto::verify(signature, message.as_bytes(), &key, jsonwebtoken::Algorithm::HS256) {
        Ok(b) => b,
        Err(_) => false,
    }
}

/// Relies on base64's URL_SAFE_NO_PAD engine: `encode` writes only letters,
/// digits, `-` and `_`, and `decode` gives the bytes back.
#[verifier::external_body]
fn b64url_encode(bytes: &[u8]) -> (r: String)
    ensures
        r@ == b64url_of(bytes@),
        no_dot(r@),
        b64url_decoded_of(r@) == Some(bytes@),
{
    base64::engine::general_purpose::URL_SAFE_NO_PAD.encode(bytes)
}

/// Relies on base64's URL_SAFE_NO_PAD engine: the bytes that `decode` gives
/// for this text, or none where it is not canonical base64url.
#[verifier::external_body]
fn b64url_decode(text: &str) -> (r: Option<Vec<u8>>)
    ensures
        r matches Some(v) ==> b64url_decoded_of(text@) == Some(v@),
        r is None ==> b64url_decoded_of(text@) is None,
{
    base64::engine::general_purpose::URL_SAFE_NO_PAD.decode(text).ok()
}

/// Relies on serde_json::to_vec of a serde_json::Map (insertion order kept)
/// from the claim names to their JSON values, which cannot fail for string
/// keys; serde_json reads the three values back unchanged.
#[verifier::external_body]
fn claims_json(sub: &str, aud: &str, exp: i64) -> (r: Vec<u8>)
    ensures
        r@ == claims_json_of(sub@, aud@, exp as int),
        claims_decoded_of(r@) == Some((sub@, aud@, exp as int)),
{
    let mut m = serde_json::Map::new();
    m.insert("sub".to_string(), serde_json::Value::from(sub));
    m.insert("aud".to_string(), serde_json::Value::from(aud));
    m.insert("exp".to_string(), serde_json::Value::from(exp));
    serde_json::to_vec(&m).unwrap_or_default()
}

/// Relies on serde_json::from_slice and serde_json::Value's `get`, `as_str`
/// and `as_i64`: the `sub`, `aud` and `exp` members of a JSON object, when
/// they are two strings and an integer that fits in an `i64`.
#[verifier::external_body]
fn claims_decode(json: &[u8]) -> (r: Option<(String, String, i64)>)
    ensures
        r matches Some(c) ==> claims_decoded_of(json@) == Some((c.0@, c.1@, c.2 as int)),
        r is None ==> claims_decoded_of(json@) is None,
{
    let v: serde_json::Value = serde_json::from_slice(json).ok()?;
    let sub = v.get("sub")?.as_str()?.to_string();
    let aud = v.get("aud")?.as_str()?.to_string();
    let exp = v.get("exp")?.as_i64()?;
    Some((sub, aud, exp))
}


/// An exclusive bound on the Unix seconds that chrono can represent: its day
/// count since the common era must fit in an `i32`.
pub const MAX_CLOCK_SECONDS: i64 = 185_542_587_187_200;

/// Relies on std's SystemTime::now and chrono's DateTime::from_timestamp: the
/// current time in Unix seconds, or none where the clock reads before the
/// epoch or past what chrono represents, whose day count must fit in an `i32`.
#[verifier::external_body]
fn unix_now() -> (r: Option<i64>)
    ensures
        r matches Some(t) ==> 0 <= t < MAX_CLOCK_SECONDS,
{
    let since = std::time::SystemTime::now().duration_since(std::time::UNIX_EPOCH).ok()?;
    let secs = i64::try_from(since.as_secs()).ok()?;
    chrono::DateTime::from_timestamp(secs, since.subsec_nanos()).map(|t| t.timestamp())
}

/// Relies on jsonwebtoken::decode_header: the first segment of the token
/// decodes to a header, and that header's algorithm is HS256.
#[verifier::external_body]
fn header_is_hs256(token: &str) -> (r: bool)
    ensures
        r == hs256_header_of(token@),
{
    match jsonwebtoken::decode_header(token) {
        Ok(h) => match h.alg {
            jsonwebtoken::Algorithm::HS256 => true,
            _ => false,
        },
        Err(_) => false,
    }
}

pub open spec fn default_secret() -> Seq<u8> {
    DEFAULT_SECRET.spec_bytes()
}

pub open spec fn result_view(r: Result<String, TokenError>) -> Result<Seq<char>, TokenError> {
    match r {
        Ok(t) => Ok(t@),
        Err(e) => Err(e),
    }
}

proof fn lemma_dot_index_skip(t: Seq<char>, f: int, m: int)
    requires
        0 <= f <= m <= t.len(),
        forall|q: int| f <= q < m ==> t[q] != '.',
    ensures
        dot_index(t, f) == dot_index(t, m),
    decreases m - f,
{
    if f < m {
        lemma_dot_index_skip(t, f + 1, m);
    }
}

proof fn lemma_segments(h: Seq<char>, p: Seq<char>, s: Seq<char>)
    requires
        no_dot(h),
        no_dot(p),
        no_dot(s),
    ensures
        ({
            let t = h + seq!['.'] + p + seq!['.'] + s;
            let i = h.len() as int;
            let j = i + 1 + p.len();
            &&& dot_index(t, 0) == i
            &&& dot_index(t, i + 1) == j
            &&& dot_index(t, j + 1) == t.len()
            &&& t.subrange(0, i) == h
            &&& t.subrange(i + 1, j) == p
            &&& t.subrange(0, j) == h + seq!['.'] + p
            &&& t.subrange(j + 1, t.len() as int) == s
        }),
{
    let t = h + seq!['.'] + p + seq!['.'] + s;
    let i = h.len() as int;
    let j = i + 1 + p.len();
    assert forall|q: int| 0 <= q < i implies t[q] != '.' by {
        assert(t[q] == h[q]);
    }
    lemma_dot_index_skip(t, 0, i);
    assert forall|q: int| i + 1 <= q < j implies t[q] != '.' by {
        assert(t[q] == p[q - i - 1]);
    }
    lemma_dot_index_skip(t, i + 1, j);
    assert forall|q: int| j + 1 <= q < t.len() implies t[q] != '.' by {
        assert(t[q] == s[q - j - 1]);
    }
    lemma_dot_index_skip(t, j + 1, t.len() as int);
    assert(t.subrange(0, i) =~= h);
    assert(t.subrange(i + 1, j) =~= p);
    assert(t.subrange(0, j) =~= h + seq!['.'] + p);
    assert(t.subrange(j + 1, t.len() as int) =~= s);
}

proof fn lemma_dot_index_update(t: Seq<char>, q: int, c: char, f: int)
    requires
        0 <= q < t.len(),
        0 <= f,
        t[q] != '.',
        c != '.',
    ensures
        dot_index(t.update(q, c), f) == dot_index(t, f),
    decreases t.len() - f,
{
    if f < t.len() {
        lemma_dot_index_update(t, q, c, f + 1);
    }
}

/// Where the signature segment of `t` starts: after its second `.`.
pub open spec fn signature_start(t: Seq<char>) -> int {
    dot_index(t, dot_index(t, 0) + 1) + 1
}

/// The index of the first `.` of `t` at or after `from`, or its length.
fn find_dot(t: &str, n: usize, from: usize) -> (r: usize)
    requires
        n == t@.len(),
        from <= n,
    ensures
        r == dot_index(t@, from as int),
        from <= r <= n,
{
    let mut k = from;
    while k < n
        invariant
            n == t@.len(),
            from <= k <= n,
            dot_index(t@, from as int) == dot_index(t@, k as int),
        decreases n - k,
    {
        if t.get_char(k) == '.' {
            return k;
        }
        k = k + 1;
    }
    k
}

/// Signs a token for `sub` and `aud` that expires `exp` (a duration string
/// such as `1d`) after `now`, in Unix seconds.
///
/// A token issued here verifies under the same secret at every time before
/// its expiry and fails as expired at every time from then on; changing any
/// one character of its signature segment (to anything but `.`) makes it fail
/// with a signature mismatch, or as malformed where the changed segment is no
/// longer base64url.
#[verifier::rlimit(50)]
pub fn sign_token(sub: &str, aud: &str, exp: &str, now: i64, secret: &[u8]) -> (r: Result<String, TokenError>)
    ensures
        result_view(r) == issue_spec(sub@, aud@, exp@, now as int, secret@),
        r matches Ok(t) ==> forall|later: int|
            #[trigger] verify_spec(t@, secret@, later) == if later < now + duration_spec(exp@)->Ok_0 {
                Ok::<(), TokenError>(())
            } else {
                Err::<(), TokenError>(TokenError::Expired)
            },
        r matches Ok(t) ==> forall|q: int, c: char, later: int|
            signature_start(t@) <= q < t@.len() && c != '.' && c != t@[q] ==> #[trigger] verify_spec(
                t@.update(q, c),
                secret@,
                later,
            ) == if b64url_decoded_of(t@.update(q, c).subrange(signature_start(t@), t@.len() as int)) is None {
                Err::<(), TokenError>(TokenError::MalformedToken)
            } else {
                Err::<(), TokenError>(TokenError::SignatureMismatch)
            },
{
    let d = match parse_duration(exp) {
        Ok(d) => d,
        Err(e) => return Err(TokenError::Duration(e)),
    };
    let expiry = match now.checked_add_unsigned(d) {
        Some(x) => x,
        None => return Err(TokenError::ExpiryOutOfRange),
    };
    let json = claims_json(sub, aud, expiry);
    let payload = b64url_encode(json.as_slice());
    let mut message = String::from_str(JWT_HEADER);
    message.append(".");
    message.append(payload.as_str());
    let signature = hs256_sign(message.as_str(), secret);
    let mut token = message.clone();
    token.append(".");
    token.append(signature.as_str());
    proof {
        reveal_strlit(".");
        assert(payload@ == payload_segment(sub@, aud@, expiry as int));
        assert(message@ =~= signing_input(payload@));
        assert(token@ =~= token_spec(sub@, aud@, expiry as int, secret@));
        reveal_strlit("eyJ0eXAiOiJKV1QiLCJhbGciOiJIUzI1NiJ9");
        let h = header_segment();
        assert(no_dot(h));
        lemma_segments(h, payload@, signature@);
        let t = token@;
        let i = h.len() as int;
        let j = i + 1 + payload@.len();
        assert(t =~= h + seq!['.'] + payload@ + seq!['.'] + signature@);
        assert forall|later: int|
            #[trigger] verify_spec(t, secret@, later) == if later < now + duration_spec(exp@)->Ok_0 {
                Ok::<(), TokenError>(())
            } else {
                Err::<(), TokenError>(TokenError::Expired)
            } by {}
        assert forall|q: int, c: char, later: int|
            signature_start(t) <= q < t.len() && c != '.' && c != t[q] implies #[trigger] verify_spec(
                t.update(q, c),
                secret@,
                later,
            ) == if b64url_decoded_of(t.update(q, c).subrange(signature_start(t), t.len() as int)) is None {
                Err::<(), TokenError>(TokenError::MalformedToken)
            } else {
                Err::<(), TokenError>(TokenError::SignatureMismatch)
            } by {
            let t2 = t.update(q, c);
            assert(t[q] == signature@[q - j - 1]);
            lemma_dot_index_update(t, q, c, 0);
            lemma_dot_index_update(t, q, c, i + 1);
            lemma_dot_index_update(t, q, c, j + 1);
            assert(t2.subrange(0, i) =~= t.subrange(0, i));
            assert(t2.subrange(i + 1, j) =~= t.subrange(i + 1, j));
            assert(t2.subrange(0, j) =~= t.subrange(0, j));
            assert(t2.subrange(j + 1, t.len() as int)[q - j - 1] != signature@[q - j - 1]);
        }
    }
    Ok(token)
}

/// Checks that `token` is well formed, signed with `secret`, and not expired
/// at `now`, in Unix seconds.
pub fn verify_token(token: &str, secret: &[u8], now: i64) -> (r: Result<(), TokenError>)
    ensures
        r == verify_spec(token@, secret@, now as int),
{
    let n = token.unicode_len();
    let i = find_dot(token, n, 0);
    if i >= n {
        return Err(TokenError::MalformedToken);
    }
    let j = find_dot(token, n, i + 1);
    if j >= n {
        return Err(TokenError::MalformedToken);
    }
    let k = find_dot(token, n, j + 1);
    if k < n {
        return Err(TokenError::MalformedToken);
    }
    let header = token.substring_char(0, i).to_owned();
    if header != String::from_str(JWT_HEADER) && !header_is_hs256(token) {
        return Err(TokenError::MalformedToken);
    }
    let payload = token.substring_char(i + 1, j);
    let json = match b64url_decode(payload) {
        Some(v) => v,
        None => return Err(TokenError::MalformedToken),
    };
    let message = token.substring_char(0, j);
    let signature = token.substring_char(j + 1, n);
    if b64url_decode(signature).is_none() {
        return Err(TokenError::MalformedToken);
    }
    if !hs256_verify(signature, message, secret) {
        return Err(TokenError::SignatureMismatch);
    }
    match claims_decode(json.as_slice()) {
        None => Err(TokenError::MalformedClaims),
        Some(c) => if now >= c.2 {
            Err(TokenError::Expired)
        } else {
            Ok(())
        },
    }
}

/// Signs a token for `sub` and `aud` with the default secret, expiring `exp`
/// (a duration string such as `1d`) from now.
pub fn process_jwt_sign(sub: &str, aud: &str, exp: &str) -> (r: Result<String, TokenError>)
    ensures
        r == Err::<String, TokenError>(TokenError::ClockUnavailable) ==> duration_spec(exp@) is Ok,
        r != Err::<String, TokenError>(TokenError::ClockUnavailable) ==> exists|now: i64|
            0 <= now < MAX_CLOCK_SECONDS && result_view(r) == #[trigger] issue_spec(
                sub@,
                aud@,
                exp@,
                now as int,
                default_secret(),
            ),
        duration_spec(exp@) matches Ok(d) && d <= i64::MAX - MAX_CLOCK_SECONDS ==> r is Ok || r
            == Err::<String, TokenError>(TokenError::ClockUnavailable),
{
    let now = match unix_now() {
        Some(t) => t,
        None => {
            return match parse_duration(exp) {
                Err(e) => {
                    assert(result_view(Err(TokenError::Duration(e))) == issue_spec(sub@, aud@, exp@, 0, default_secret()));
                    Err(TokenError::Duration(e))
                },
                Ok(_) => Err(TokenError::ClockUnavailable),
            };
        },
    };
    let r = sign_token(sub, aud, exp, now, DEFAULT_SECRET.as_bytes());
    assert(result_view(r) == issue_spec(sub@, aud@, exp@, now as int, default_secret()));
    r
}

/// Checks a token against the default secret and the current time.
pub fn process_jwt_verify(token: &str) -> (r: Result<(), TokenError>)
    ensures
        r != Err::<(), TokenError>(TokenError::ClockUnavailable) ==> exists|now: i64|
            0 <= now < MAX_CLOCK_SECONDS && r == #[trigger] verify_spec(token@, default_secret(), now as int),
{
    let now = match unix_now() {
        Some(t) => t,
        None => return Err(TokenError::ClockUnavailable),
    };
    let r = verify_token(token, DEFAULT_SECRET.as_bytes(), now);
    assert(r == verify_spec(token@, default_secret(), now as int));
    r
}

} // verus!

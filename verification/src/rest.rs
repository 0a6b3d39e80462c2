//! The device's REST endpoints: what a port forward or a serial stream
//! connects to, and which token a WebSocket client authenticates with.
use vstd::prelude::*;

use crate::text::{
    chars_of, parse_u64, parse_u64_spec, string_from_chars, string_from_str, strip_all_prefix,
    trim_start_matches,
};

verus! {

/// The query of a port forward: the host to connect to on the device.
#[derive(Debug, Clone)]
pub struct HostQuery {
    pub host: Option<String>,
}

/// The query of a serial stream: its baud rate.
#[derive(Debug, Clone, Copy)]
pub struct SerialQuery {
    pub baud: Option<u32>,
}

/// Where a port forward connects: the port of the path, parsed as a `u16`,
/// on the queried host or `127.0.0.1`; none for a path that is no port.
pub open spec fn port_target_of(port: Seq<char>, host: Option<Seq<char>>) -> Option<(Seq<char>, u16)> {
    match parse_u64_spec(port) {
        Some(p) => if p <= u16::MAX {
            Some(
                (
                    match host {
                        Some(h) => h,
                        None => "127.0.0.1"@,
                    },
                    p as u16,
                ),
            )
        } else {
            None
        },
        None => None,
    }
}

/// Where a port forward connects.
pub fn port_target(port: &str, query: &HostQuery) -> (r: Option<(String, u16)>)
    ensures
        match port_target_of(
            port@,
            match query.host {
                Some(h) => Some(h@),
                None => None,
            },
        ) {
            Some((h, p)) => r matches Some((h2, p2)) && h2@ == h && p2 == p,
            None => r is None,
        },
{
    let cs = chars_of(port);
    match parse_u64(cs.as_slice()) {
        Some(p) => {
            if p <= 65535 {
                let host = match &query.host {
                    Some(h) => h.clone(),
                    None => string_from_str("127.0.0.1"),
                };
                Some((host, p as u16))
            } else {
                None
            }
        },
        None => None,
    }
}

/// The serial device of a port name and the baud rate to open it with
/// (115200 unless queried).
pub fn serial_target(port: &str, query: &SerialQuery) -> (r: (String, u32))
    ensures
        r.0@ == "/dev/"@ + port@,
        r.1 == (match query.baud {
            Some(b) => b,
            None => 115200,
        }),
{
    let mut path = string_from_str("/dev/");
    path.append(port);
    let baud: u32 = match query.baud {
        Some(b) => b,
        None => 115200,
    };
    (path, baud)
}

/// The claims of a token issued by the identity provider.
#[derive(Debug, Clone)]
pub struct Auth0Claims {
    pub sub: String,
    pub exp: usize,
    pub iat: usize,
    pub iss: String,
    pub aud: Vec<String>,
}

/// The key set of the identity provider: `<auth domain>.well-known/jwks.json`.
pub fn jwks_url(auth_domain: &str) -> (r: String)
    ensures
        r@ == auth_domain@ + ".well-known/jwks.json"@,
{
    let mut s = string_from_str(auth_domain);
    s.append(".well-known/jwks.json");
    s
}

/// A signing key of the identity provider: its id and RSA components.
#[derive(Debug, Clone)]
pub struct Jwk {
    pub kid: String,
    pub n: String,
    pub e: String,
}

/// The key a token names, or the error of a key set without it: the first
/// key with that id.
pub fn select_jwk(keys: &Vec<Jwk>, kid: &String) -> (r: Result<usize, String>)
    ensures
        match r {
            Ok(i) => i < keys@.len() && keys@[i as int].kid@ == kid@ && forall|j: int|
                0 <= j < i ==> (#[trigger] keys@[j]).kid@ != kid@,
            Err(e) => e@ == "No matching JWK found"@ && forall|j: int|
                0 <= j < keys@.len() ==> (#[trigger] keys@[j]).kid@ != kid@,
        },
{
    let mut i: usize = 0;
    while i < keys.len()
        invariant
            i <= keys.len(),
            forall|j: int| 0 <= j < i ==> (#[trigger] keys@[j]).kid@ != kid@,
        decreases keys.len() - i,
    {
        if keys[i].kid == *kid {
            return Ok(i);
        }
        i = i + 1;
    }
    Err(string_from_str("No matching JWK found"))
}

/// The token of a WebSocket client: its first text message without leading
/// `Bearer ` prefixes; the error of a client whose first message was no
/// text.
pub fn ws_token(first_text: Option<String>) -> (r: Result<String, String>)
    ensures
        match first_text {
            Some(t) => r is Ok && r->Ok_0@ == strip_all_prefix(t@, "Bearer "@),
            None => r is Err && r->Err_0@ == "No protocol provided"@,
        },
{
    match first_text {
        Some(t) => {
            let cs = chars_of(t.as_str());
            let p = chars_of("Bearer ");
            let rest = trim_start_matches(cs.as_slice(), p.as_slice());
            Ok(string_from_chars(rest.as_slice()))
        },
        None => Err(string_from_str("No protocol provided")),
    }
}

/// What `jsonwebtoken::decode_header` reads of a token: the `kid` of its
/// header (none where the header has none), or the text of the error.
pub uninterp spec fn jwt_header_kid_of(token: Seq<char>) -> Result<Option<Seq<char>>, Seq<char>>;

/// An optional string by its view.
pub open spec fn opt_text(o: Option<String>) -> Option<Seq<char>> {
    match o {
        Some(s) => Some(s@),
        None => None,
    }
}

/// `jsonwebtoken::decode_header`: the `kid` of the token's header, or the
/// error's text (`Display`). What it returns is named by
/// `jwt_header_kid_of`; the crate decodes the base64 header and parses its
/// JSON, which is not restated here.
#[verifier::external_body]
fn decode_header_kid(token: &str) -> (r: Result<Option<String>, String>)
    ensures
        match r {
            Ok(k) => jwt_header_kid_of(token@) == Ok::<Option<Seq<char>>, Seq<char>>(opt_text(k)),
            Err(e) => jwt_header_kid_of(token@) == Err::<Option<Seq<char>>, Seq<char>>(e@),
        },
{
    match jsonwebtoken::decode_header(token) {
        Ok(h) => Ok(h.kid),
        Err(e) => Err(e.to_string()),
    }
}

/// The key that verifies a token, given what its header says
/// (`jwt_header_kid_of`): the first key of the key set with the header's
/// `kid`; else the error of a header that does not decode, has no `kid`,
/// or names no key of the set.
pub open spec fn token_key_of(
    header: Result<Option<Seq<char>>, Seq<char>>,
    kids: Seq<Seq<char>>,
) -> Result<int, Seq<char>> {
    match header {
        Err(e) => Err("Failed to decode token header: "@ + e),
        Ok(None) => Err("Token missing 'kid' field"@),
        Ok(Some(kid)) => if exists|j: int| 0 <= j < kids.len() && kids[j] == kid {
            Ok(choose|j: int| 0 <= j < kids.len() && kids[j] == kid && forall|i: int| 0 <= i < j ==> kids[i] != kid)
        } else {
            Err("No matching JWK found"@)
        },
    }
}

/// The ids of a key set.
pub open spec fn kids_of(keys: Seq<Jwk>) -> Seq<Seq<char>> {
    keys.map_values(|k: Jwk| k.kid@)
}

/// Picks the key of the key set that verifies a token, given its decoded
/// header.
pub fn key_for_header(header: Result<Option<String>, String>, keys: &Vec<Jwk>) -> (r: Result<
    usize,
    String,
>)
    ensures
        match r {
            Ok(i) => token_key_of(
                match header {
                    Ok(k) => Ok(opt_text(k)),
                    Err(e) => Err(e@),
                },
                kids_of(keys@),
            ) == Ok::<int, Seq<char>>(i as int),
            Err(e) => token_key_of(
                match header {
                    Ok(k) => Ok(opt_text(k)),
                    Err(e) => Err(e@),
                },
                kids_of(keys@),
            ) == Err::<int, Seq<char>>(e@),
        },
        r is Ok ==> r->Ok_0 < keys@.len(),
{
    match header {
        Err(e) => {
            let mut m = string_from_str("Failed to decode token header: ");
            m.append(e.as_str());
            Err(m)
        },
        Ok(None) => Err(string_from_str("Token missing 'kid' field")),
        Ok(Some(kid)) => {
            let r = select_jwk(keys, &kid);
            let ghost kv = kids_of(keys@);
            proof {
                match r {
                    Ok(i) => {
                        assert(kv[i as int] == kid@);
                        assert forall|j: int| 0 <= j < i implies kv[j] != kid@ by {
                            assert(kv[j] == keys@[j].kid@);
                        }
                        let c = choose|j: int|
                            0 <= j < kv.len() && kv[j] == kid@ && forall|m: int|
                                0 <= m < j ==> kv[m] != kid@;
                        if c < i {
                            assert(kv[c] == kid@);
                        } else if c > i {
                            assert(kv[i as int] != kid@);
                        }
                    },
                    Err(_) => {
                        assert forall|j: int| 0 <= j < kv.len() implies kv[j] != kid@ by {
                            assert(kv[j] == keys@[j].kid@);
                        }
                    },
                }
            }
            r
        },
    }
}

/// The key of the key set that verifies a token (`validate_token` before the
/// signature check): the token's header is decoded and its `kid` looked up.
pub fn token_key(token: &str, keys: &Vec<Jwk>) -> (r: Result<usize, String>)
    ensures
        match r {
            Ok(i) => token_key_of(jwt_header_kid_of(token@), kids_of(keys@)) == Ok::<int, Seq<char>>(i as int),
            Err(e) => token_key_of(jwt_header_kid_of(token@), kids_of(keys@)) == Err::<int, Seq<char>>(e@),
        },
        r is Ok ==> r->Ok_0 < keys@.len(),
{
    let header = decode_header_kid(token);
    key_for_header(header, keys)
}


/// What `jsonwebtoken` made of a token checked against one RSA key, all
/// but its expiry.
#[derive(Debug, Clone)]
pub enum SignatureCheck {
    /// The key's components are not base64url: no key could be built.
    BadKey,
    /// The token was refused; the text of the crate's error.
    Refused(String),
    /// The token passed every check but expiry: its claims as JSON text, and
    /// its `exp` claim where that is a whole number of seconds.
    Accepted(String, Option<u64>),
}

/// A signature check by plain values: `Err(None)` for a key that could not
/// be built, `Err(Some(text))` for a refusal, `Ok((claims, exp))` for a
/// token accepted but for its expiry.
pub open spec fn signature_check_view(c: SignatureCheck) -> Result<
    (Seq<char>, Option<u64>),
    Option<Seq<char>>,
> {
    match c {
        SignatureCheck::BadKey => Err(None),
        SignatureCheck::Refused(e) => Err(Some(e@)),
        SignatureCheck::Accepted(claims, exp) => Ok((claims@, exp)),
    }
}

/// What `jsonwebtoken` makes of a token under RS256 with the RSA key of
/// modulus `n` and exponent `e`, the given audience and issuer, expiry
/// left unchecked (see `check_rs256`).
pub uninterp spec fn rs256_check_of(
    token: Seq<char>,
    n: Seq<char>,
    e: Seq<char>,
    audience: Seq<char>,
    issuer: Seq<char>,
) -> Result<(Seq<char>, Option<u64>), Option<Seq<char>>>;

/// `jsonwebtoken::decode` of a token under RS256 with the RSA key of
/// modulus `n` and exponent `e` (base64url, as a key set gives them), the
/// given audience and the given issuer, after
/// `jsonwebtoken::DecodingKey::from_rsa_components` has built the key
/// (`BadKey` where it fails). The expiry check is switched off, so that no
/// clock is read (the crate's own reading panics on a clock before the
/// epoch); an `exp` claim is still required. The outcome, named by
/// `rs256_check_of`, then depends on the arguments alone: the crate
/// decodes base64url and JSON and verifies the RSA signature, which is not
/// restated here. The claims are decoded as any JSON value, so their
/// shape (text `sub` and `iss`, numeric `iat`, a list `aud`) is not
/// checked.
#[verifier::external_body]
fn check_rs256(token: &str, n: &str, e: &str, audience: &str, issuer: &str) -> (r: SignatureCheck)
    ensures
        signature_check_view(r) == rs256_check_of(token@, n@, e@, audience@, issuer@),
{
    let key = match jsonwebtoken::DecodingKey::from_rsa_components(n, e) {
        Ok(k) => k,
        Err(_) => return SignatureCheck::BadKey,
    };
    let mut validation = jsonwebtoken::Validation::new(jsonwebtoken::Algorithm::RS256);
    validation.validate_exp = false;
    validation.set_audience(&[audience]);
    validation.set_issuer(&[issuer]);
    match jsonwebtoken::decode::<serde_json::Value>(token, &key, &validation) {
        Ok(data) => {
            let exp = data.claims.get("exp").and_then(serde_json::Value::as_u64);
            SignatureCheck::Accepted(data.claims.to_string(), exp)
        },
        Err(err) => SignatureCheck::Refused(err.to_string()),
    }
}

/// A result by the views of its texts.
pub open spec fn result_view(r: Result<String, String>) -> Result<Seq<char>, Seq<char>> {
    match r {
        Ok(v) => Ok(v@),
        Err(e) => Err(e@),
    }
}

/// The leeway of the expiry check, in seconds.
pub const EXPIRY_LEEWAY_SECS: u64 = 60;

/// What `validate_token` answers, given the signature check and the time
/// (seconds since the Unix epoch): the claims of a token accepted and not
/// expired (expired: `exp`, plus the leeway, before now); else the error of
/// a key that could not be built, of a refused token, of an expired one,
/// or of an `exp` that is not a whole number of seconds.
pub open spec fn token_verdict_of(
    check: Result<(Seq<char>, Option<u64>), Option<Seq<char>>>,
    now: u64,
) -> Result<Seq<char>, Seq<char>> {
    match check {
        Err(None) => Err("Failed to create decoding key"@),
        Err(Some(e)) => Err("Token verification failed: "@ + e),
        Ok((_claims, None)) => Err("Token verification failed: JSON error: exp is not an integer"@),
        Ok((claims, Some(exp))) => if exp + EXPIRY_LEEWAY_SECS < now {
            Err("Token verification failed: ExpiredSignature"@)
        } else {
            Ok(claims)
        },
    }
}

/// The result of a signature check at time `now`, as `validate_token`
/// reports it.
pub fn check_result(c: SignatureCheck, now: u64) -> (r: Result<String, String>)
    ensures
        result_view(r) == token_verdict_of(signature_check_view(c), now),
{
    match c {
        SignatureCheck::BadKey => Err(string_from_str("Failed to create decoding key")),
        SignatureCheck::Refused(e) => {
            let mut m = string_from_str("Token verification failed: ");
            m.append(e.as_str());
            Err(m)
        },
        SignatureCheck::Accepted(claims, exp) => match exp {
            None => Err(string_from_str("Token verification failed: JSON error: exp is not an integer")),
            Some(x) => {
                if x < now && now - x > EXPIRY_LEEWAY_SECS {
                    Err(string_from_str("Token verification failed: ExpiredSignature"))
                } else {
                    Ok(claims)
                }
            },
        },
    }
}

/// What `validate_token` answers at time `now`: the error of the key
/// lookup (`token_key_of`), else the verdict on the token checked with the
/// key its header names and the given audience and issuer.
pub open spec fn validate_token_of(
    token: Seq<char>,
    keys: Seq<Jwk>,
    audience: Seq<char>,
    issuer: Seq<char>,
    now: u64,
) -> Result<Seq<char>, Seq<char>> {
    match token_key_of(jwt_header_kid_of(token), kids_of(keys)) {
        Err(e) => Err(e),
        Ok(i) => token_verdict_of(
            rs256_check_of(token, keys[i].n@, keys[i].e@, audience, issuer),
            now,
        ),
    }
}

/// Validates a token against the identity provider's key set at time
/// `now` (seconds since the Unix epoch): the key its header names is
/// looked up (`token_key`), then the signature, audience and issuer are
/// checked under RS256, and the expiry with sixty seconds of leeway.
/// Gives the token's claims as JSON text. The expiry is checked last, so a
/// token that is expired and also fails the issuer or audience check gets
/// the error of that check.
pub fn validate_token_at(token: &str, keys: &Vec<Jwk>, audience: &str, issuer: &str, now: u64) -> (r:
    Result<String, String>)
    ensures
        result_view(r) == validate_token_of(token@, keys@, audience@, issuer@, now),
{
    match token_key(token, keys) {
        Err(e) => Err(e),
        Ok(i) => {
            let c = check_rs256(token, keys[i].n.as_str(), keys[i].e.as_str(), audience, issuer);
            check_result(c, now)
        },
    }
}

/// Validates a token against the identity provider's key set now: as
/// `validate_token_at` at the clock's reading.
pub fn validate_token(token: &str, keys: &Vec<Jwk>, audience: &str, issuer: &str) -> (r: Result<
    String,
    String,
>)
    ensures
        exists|now: u64| result_view(r) == validate_token_of(token@, keys@, audience@, issuer@, now),
{
    let (now, _) = crate::clock::unix_time();
    validate_token_at(token, keys, audience, issuer, now)
}

} // verus!

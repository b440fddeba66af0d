//! The login token issuer: signs and verifies the opaque, short-lived
//! tokens that carry login state between the two independent login calls,
//! so the server stores nothing for attempts still in progress.
//!
//! The signing secret is drawn once per process start and never leaves the
//! process: restarting invalidates all outstanding tokens, acceptable
//! because a token lives for minutes.  The validity window is decided
//! here, in verified code; the token library only signs, verifies and
//! parses.

use vstd::prelude::*;
use crate::errors::TokenError;

verus! {

/// The claims a token carries: its validity window and the opaque payload.
#[derive(Debug)]
pub struct Claims {
    /// Expiry instant, Unix seconds: the token is refused from then on.
    pub exp: i64,
    /// Not-before instant, Unix seconds.
    pub nbf: i64,
    /// The opaque login-state payload.
    pub data: String,
}

/// The token that the signing routine produces over a secret and a claim
/// set.  Relies on jsonwebtoken::encode: with a fixed header the token is
/// a function of the secret and the claims alone.
pub uninterp spec fn signed_token(secret: Seq<u8>, exp: i64, nbf: i64, data: Seq<char>) -> Seq<
    char,
>;

/// Relies on jsonwebtoken::encode with the default HS256 header: signs the
/// claim set `{exp, nbf, data}` with the secret.  With this header the
/// encoder cannot fail: the key family matches, serializing the claim
/// object cannot fail, and the HMAC signer accepts any key length.
#[verifier::external_body]
fn jwt_encode(secret: &Vec<u8>, exp: i64, nbf: i64, data: &str) -> (r: Option<String>)
    ensures
        r is Some,
        r matches Some(t) ==> t@ == signed_token(secret@, exp, nbf, data@),
{
    let mut claims = serde_json::Map::new();
    claims.insert("exp".to_string(), serde_json::Value::from(exp));
    claims.insert("nbf".to_string(), serde_json::Value::from(nbf));
    claims.insert("data".to_string(), serde_json::Value::from(data));
    let key = jsonwebtoken::EncodingKey::from_secret(secret);
    jsonwebtoken::encode(&jsonwebtoken::Header::default(), &serde_json::Value::Object(claims), &key)
        .ok()
}

/// Relies on jsonwebtoken::decode over HS256, with signature verification
/// and claim parsing only (the caller judges the validity window): a token
/// that was signed over `{exp, nbf, data}` with the same secret decodes to
/// exactly those claims.
#[verifier::external_body]
fn jwt_decode(secret: &Vec<u8>, token: &str) -> (r: Option<Claims>)
    ensures
        r matches Some(c) ==> forall|exp: i64, nbf: i64, data: Seq<char>|
            token@ == signed_token(secret@, exp, nbf, data) ==> c.exp == exp && c.nbf == nbf
                && c.data@ == data,
        r is None ==> forall|exp: i64, nbf: i64, data: Seq<char>|
            token@ != signed_token(secret@, exp, nbf, data),
{
    let key = jsonwebtoken::DecodingKey::from_secret(secret);
    let mut validation = jsonwebtoken::Validation::new(jsonwebtoken::Algorithm::HS256);
    validation.validate_exp = false;
    validation.validate_nbf = false;
    validation.required_spec_claims = std::collections::HashSet::new();
    let decoded = jsonwebtoken::decode::<serde_json::Value>(token, &key, &validation).ok()?;
    let exp = decoded.claims.get("exp")?.as_i64()?;
    let nbf = decoded.claims.get("nbf")?.as_i64()?;
    let data = decoded.claims.get("data")?.as_str()?.to_string();
    Some(Claims { exp, nbf, data })
}

/// Relies on ring::rand::SystemRandom: a fresh 64-byte signing secret.
/// The bytes are random; only the length is stated.
#[verifier::external_body]
fn random_secret() -> (r: Option<Vec<u8>>)
    ensures
        r matches Some(s) ==> s@.len() == 64,
{
    let rng = ring::rand::SystemRandom::new();
    let mut buf = vec![0u8; 64];
    match ring::rand::SecureRandom::fill(&rng, &mut buf) {
        Ok(()) => Some(buf),
        Err(_) => None,
    }
}

/// Whether a claim set is acceptable at instant `now`: its window has
/// opened and has not yet closed.
pub open spec fn claims_acceptable(exp: i64, nbf: i64, now: i64) -> bool {
    nbf <= now < exp
}

/// Judge a decoded claim set at instant `now`: its payload when `now`
/// lies inside the validity window, `TokenInvalid` otherwise.
pub fn check_claims(now: i64, claims: Claims) -> (r: Result<String, TokenError>)
    ensures
        match r {
            Ok(d) => claims_acceptable(claims.exp, claims.nbf, now) && d@ == claims.data@,
            Err(e) => e == TokenError::TokenInvalid && !claims_acceptable(
                claims.exp,
                claims.nbf,
                now,
            ),
        },
{
    if claims.nbf <= now && now < claims.exp {
        Ok(claims.data)
    } else {
        Err(TokenError::TokenInvalid)
    }
}

/// Signs and verifies the opaque login tokens.
pub struct TokenGenerator {
    expires_after: i64,
    secret: Vec<u8>,
}

impl TokenGenerator {
    /// The signing secret.
    pub closed spec fn secret(self) -> Seq<u8> {
        self.secret@
    }

    /// How long a token stays valid, in seconds.
    pub closed spec fn expires_after(self) -> i64 {
        self.expires_after
    }

    /// The issuer's invariant: a non-negative lifetime.
    pub open spec fn wf(self) -> bool {
        0 <= self.expires_after()
    }

    /// An issuer with a fresh random secret and the given token lifetime
    /// in seconds.  Fails only when the system's randomness source does.
    pub fn new(expires_after: i64) -> (r: Result<TokenGenerator, TokenError>)
        requires
            expires_after >= 0,
        ensures
            match r {
                Ok(g) => g.wf() && g.expires_after() == expires_after && g.secret().len() == 64,
                Err(e) => e == TokenError::SigningFailure,
            },
    {
        match random_secret() {
            Some(secret) => Ok(TokenGenerator { expires_after, secret }),
            None => Err(TokenError::SigningFailure),
        }
    }

    /// Mint a token at instant `now` (Unix seconds): the claims are
    /// `nbf = now`, `exp = now` plus the lifetime, and the payload.
    /// `ClockOverflow` when the expiry does not fit.
    pub fn generate_at(&self, now: i64, data: &str) -> (r: Result<String, TokenError>)
        requires
            self.wf(),
            now >= 0,
        ensures
            now as int + self.expires_after() > i64::MAX ==> r matches Err(
                TokenError::ClockOverflow,
            ),
            now as int + self.expires_after() <= i64::MAX ==> (r matches Ok(t) && t@
                == signed_token(self.secret(), (now + self.expires_after()) as i64, now, data@)),
    {
        if now > i64::MAX - self.expires_after {
            return Err(TokenError::ClockOverflow);
        }
        let exp = now + self.expires_after;
        let t = jwt_encode(&self.secret, exp, now, data).unwrap();
        Ok(t)
    }

    /// Verify a token at instant `now`: any token this issuer minted is
    /// accepted inside its validity window and yields its payload back;
    /// the same token outside its window is refused with `TokenInvalid`.
    pub fn validate_at(&self, now: i64, token: &str) -> (r: Result<String, TokenError>)
        ensures
            forall|exp: i64, nbf: i64, data: Seq<char>|
                token@ == signed_token(self.secret(), exp, nbf, data) ==> match r {
                    Ok(d) => claims_acceptable(exp, nbf, now) && d@ == data,
                    Err(e) => e == TokenError::TokenInvalid && !claims_acceptable(exp, nbf, now),
                },
    {
        match jwt_decode(&self.secret, token) {
            Some(claims) => check_claims(now, claims),
            None => Err(TokenError::TokenInvalid),
        }
    }

    /// Mint a token for `data`, stamped with the current time.  Only an
    /// expiry past the clock's range is refused.
    pub fn generate(&self, data: &str) -> (r: Result<String, TokenError>)
        requires
            self.wf(),
        ensures
            r matches Err(e) ==> e == TokenError::ClockOverflow,
            r matches Ok(t) ==> exists|now: i64|
                0 <= now && now as int + self.expires_after() <= i64::MAX && t@ == #[trigger] signed_token(
                    self.secret(),
                    (now + self.expires_after()) as i64,
                    now,
                    data@,
                ),
    {
        let now_ms = crate::clock::now_unix_millis();
        let now = (now_ms / 1000) as i64;
        let r = self.generate_at(now, data);
        proof {
            if r is Ok {
                let t = r->Ok_0;
                assert(t@ == signed_token(
                    self.secret(),
                    (now + self.expires_after()) as i64,
                    now,
                    data@,
                ));
                assert(exists|w: i64|
                    0 <= w && w as int + self.expires_after() <= i64::MAX && t@
                        == #[trigger] signed_token(
                        self.secret(),
                        (w + self.expires_after()) as i64,
                        w,
                        data@,
                    ));
            }
        }
        r
    }

    /// Verify a token against the current time.  Whatever the instant, a
    /// token this issuer minted never validates to a different payload.
    pub fn validate(&self, token: &str) -> (r: Result<String, TokenError>)
        ensures
            forall|exp: i64, nbf: i64, data: Seq<char>|
                token@ == signed_token(self.secret(), exp, nbf, data) ==> (r matches Ok(d) ==> d@
                    == data),
    {
        let now_ms = crate::clock::now_unix_millis();
        let now = (now_ms / 1000) as i64;
        self.validate_at(now, token)
    }
}

/// A token minted at `now` round-trips: at every instant from `now` to
/// just before its expiry, the claims it was signed over are acceptable,
/// so `validate_at` (whose contract pins the result on this issuer's
/// tokens) returns exactly the payload `generate_at` signed.
pub proof fn lemma_token_round_trip(expires_after: i64, now: i64, later: i64)
    requires
        0 <= expires_after,
        now as int + expires_after <= i64::MAX,
        now <= later < now as int + expires_after,
    ensures
        claims_acceptable((now + expires_after) as i64, now, later),
{
}

/// A token validated at or after its expiry is no longer acceptable, so
/// `validate_at` refuses it with `TokenInvalid`; likewise before its
/// not-before instant.
pub proof fn lemma_stale_token_rejected(expires_after: i64, now: i64, later: i64)
    requires
        0 <= expires_after,
        now as int + expires_after <= i64::MAX,
        later >= now as int + expires_after || later < now,
    ensures
        !claims_acceptable((now + expires_after) as i64, now, later),
{
}

} // verus!

//! Device tokens: issuing JWTs, finding the token in a request, the
//! constant-time comparison used for shared secrets, and admitting a device.

use vstd::prelude::*;

use jsonwebtoken::{DecodingKey, Validation};
use serde_json::Value;
use crate::clock::{clock_unreadable_text, current, current_answer, now, Instant};
use crate::error::AppError;
use crate::text::{
    chars_have_prefix_at, chars_of, chars_range, has_prefix, lemma_split_on_nonempty, push_str,
    split_chars, split_on, string_of,
};

verus! {

broadcast use vstd::string::group_string_axioms;

/// The claims carried by a device token.
#[derive(Debug, Clone)]
pub struct Claims {
    /// device id
    pub sub: String,
    pub name: String,
    pub platform: Option<String>,
    pub iat: i64,
    pub exp: i64,
}

/// An authenticated device.
#[derive(Debug, Clone)]
pub struct AuthDevice {
    pub id: String,
    pub name: String,
}

/// Constant-time byte comparison; used for pairing code and admin password.
/// Every byte pair is inspected once the lengths agree.
pub fn constant_time_eq(a: &[u8], b: &[u8]) -> (r: bool)
    ensures
        r == (a@ == b@),
{
    if a.len() != b.len() {
        return false;
    }
    let n = a.len();
    let mut acc: u8 = 0;
    for i in 0..n
        invariant
            n == a@.len(),
            n == b@.len(),
            (acc == 0) == (forall|j: int| 0 <= j < i ==> a@[j] == b@[j]),
    {
        let x = a[i];
        let y = b[i];
        let old_acc = acc;
        acc = acc | (x ^ y);
        assert((old_acc | (x ^ y)) == 0 <==> (old_acc == 0 && x == y)) by (bit_vector);
        proof {
            if acc == 0 {
                assert forall|j: int| 0 <= j < i + 1 implies a@[j] == b@[j] by {
                    if j < i {
                    } else {
                        assert(a@[j] == x && b@[j] == y);
                    }
                }
            } else {
                if old_acc != 0 {
                    let j = choose|j: int| 0 <= j < i && a@[j] != b@[j];
                    assert(0 <= j < i + 1 && a@[j] != b@[j]);
                } else {
                    assert(a@[i as int] != b@[i as int]);
                }
            }
        }
    }
    proof {
        if acc == 0 {
            assert(a@ =~= b@);
        }
    }
    acc == 0
}

// ---------- finding the token ----------

/// `s` without `prefix`, when it starts with it (`str::strip_prefix`).
pub open spec fn strip_prefix(s: Seq<char>, prefix: Seq<char>) -> Option<Seq<char>> {
    if has_prefix(s, prefix) {
        Some(s.skip(prefix.len() as int))
    } else {
        None
    }
}

/// The first piece that starts with `prefix`, with the prefix removed.
pub open spec fn first_stripped(pieces: Seq<Seq<char>>, prefix: Seq<char>) -> Option<Seq<char>>
    decreases pieces.len(),
{
    if pieces.len() == 0 {
        None
    } else if has_prefix(pieces[0], prefix) {
        Some(pieces[0].skip(prefix.len() as int))
    } else {
        first_stripped(pieces.drop_first(), prefix)
    }
}

proof fn lemma_first_stripped_at(pieces: Seq<Seq<char>>, prefix: Seq<char>, k: int)
    requires
        0 <= k <= pieces.len(),
        forall|j: int| 0 <= j < k ==> !has_prefix(#[trigger] pieces[j], prefix),
    ensures
        k == pieces.len() ==> first_stripped(pieces, prefix) is None,
        k < pieces.len() && has_prefix(pieces[k], prefix) ==> first_stripped(pieces, prefix)
            == Some(pieces[k].skip(prefix.len() as int)),
    decreases k,
{
    if k > 0 {
        let t = pieces.drop_first();
        assert forall|j: int| 0 <= j < k - 1 implies !has_prefix(#[trigger] t[j], prefix) by {
            assert(t[j] == pieces[j + 1]);
        }
        assert(!has_prefix(pieces[0], prefix));
        if k < pieces.len() {
            assert(t[k - 1] == pieces[k]);
        }
        lemma_first_stripped_at(t, prefix, k - 1);
    }
}

/// The first `prefix`-led piece of `pieces`, with the prefix removed.
pub fn find_stripped(pieces: &Vec<Vec<char>>, prefix: &[char]) -> (r: Option<String>)
    ensures
        r is Some <==> first_stripped(pieces@.map_values(|v: Vec<char>| v@), prefix@) is Some,
        r matches Some(t) ==> Some(t@) == first_stripped(
            pieces@.map_values(|v: Vec<char>| v@),
            prefix@,
        ),
{
    let ghost views = pieces@.map_values(|v: Vec<char>| v@);
    let n = pieces.len();
    for k in 0..n
        invariant
            n == pieces@.len(),
            views == pieces@.map_values(|v: Vec<char>| v@),
            forall|j: int| 0 <= j < k ==> !has_prefix(#[trigger] views[j], prefix@),
    {
        let piece = &pieces[k];
        assert(views[k as int] == piece@);
        if chars_have_prefix_at(piece.as_slice(), 0, prefix) {
            proof {
                assert(piece@.skip(0) =~= piece@);
                lemma_first_stripped_at(views, prefix@, k as int);
            }
            let rest = chars_range(piece.as_slice(), prefix.len(), piece.len());
            assert(rest@ =~= piece@.skip(prefix@.len() as int));
            return Some(string_of(rest.as_slice()));
        }
        assert(piece@.skip(0) =~= piece@);
    }
    proof {
        lemma_first_stripped_at(views, prefix@, n as int);
    }
    None
}

/// Find a `token=...` parameter in a raw query string. JWTs are base64url so
/// they're URL-safe; no percent-decoding required.
pub fn query_token(query: &str) -> (r: Option<String>)
    ensures
        r is Some <==> first_stripped(split_on(query@, '&'), "token="@) is Some,
        r matches Some(t) ==> Some(t@) == first_stripped(split_on(query@, '&'), "token="@),
{
    let cs = chars_of(query);
    let pieces = split_chars(cs.as_slice(), '&');
    let prefix = chars_of("token=");
    proof {
        assert(pieces@.map_values(|v: Vec<char>| v@) =~= split_on(query@, '&'));
    }
    find_stripped(&pieces, prefix.as_slice())
}

/// The token a request presents: the `Authorization: Bearer …` header wins;
/// otherwise a `token=` query parameter (the browser WebSocket API cannot
/// set headers).
pub open spec fn presented_token(authorization: Option<Seq<char>>, query: Option<Seq<char>>) -> Option<Seq<char>> {
    match authorization {
        Some(h) if has_prefix(h, "Bearer "@) => Some(h.skip("Bearer "@.len() as int)),
        _ => match query {
            Some(q) => first_stripped(split_on(q, '&'), "token="@),
            None => None,
        },
    }
}

/// Picks the token out of the `Authorization` header value (when it is
/// readable text) and the raw query string.
pub fn request_token(authorization: Option<&str>, query: Option<&str>) -> (r: Option<String>)
    ensures
        r is Some <==> presented_token(
            opt_text(authorization),
            opt_text(query),
        ) is Some,
        r matches Some(t) ==> Some(t@) == presented_token(
            opt_text(authorization),
            opt_text(query),
        ),
{
    if let Some(h) = authorization {
        let cs = chars_of(h);
        let prefix = chars_of("Bearer ");
        if chars_have_prefix_at(cs.as_slice(), 0, prefix.as_slice()) {
            proof {
                assert(cs@.skip(0) =~= cs@);
            }
            let rest = chars_range(cs.as_slice(), prefix.len(), cs.len());
            assert(rest@ =~= h@.skip("Bearer "@.len() as int));
            return Some(string_of(rest.as_slice()));
        }
        assert(cs@.skip(0) =~= cs@);
    }
    match query {
        Some(q) => query_token(q),
        None => None,
    }
}

/// Whether a device may act: it must be known and not revoked.
/// `revoked` is the device's `revoked_at` column, `None` when no row exists.
pub fn admit_device(claims: Claims, revoked: Option<Option<String>>) -> (r: Result<AuthDevice, AppError>)
    ensures
        r is Ok <==> revoked == Some(None::<String>),
        r matches Ok(d) ==> d.id == claims.sub && d.name == claims.name,
        r matches Err(e) ==> e == AppError::Unauthorized,
{
    match revoked {
        Some(None) => Ok(AuthDevice { id: claims.sub, name: claims.name }),
        _ => Err(AppError::Unauthorized),
    }
}

// ---------- issuing tokens ----------

/// The latest instant `chrono` represents, as a Unix timestamp (end of year 262142).
pub const MAX_TIMESTAMP: i64 = 8210266876799;

/// Seconds in a day.
pub const SECS_PER_DAY: i64 = 86400;

/// The HS256 JSON Web Token that `jsonwebtoken::encode` produces for the
/// default header and these claims, signed with `secret`.
pub uninterp spec fn hs256_token(
    secret: Seq<char>,
    sub: Seq<char>,
    name: Seq<char>,
    platform: Option<Seq<char>>,
    iat: int,
    exp: int,
) -> Seq<char>;

/// The view of an optional string slice.
pub open spec fn opt_text(o: Option<&str>) -> Option<Seq<char>> {
    match o {
        Some(s) => Some(s@),
        None => None,
    }
}

/// The view of an optional string.
pub open spec fn opt_str(o: Option<String>) -> Option<Seq<char>> {
    match o {
        Some(s) => Some(s@),
        None => None,
    }
}

#[verifier::external_type_specification]
#[verifier::external_body]
pub struct ExJwtError(jsonwebtoken::errors::Error);

/// `jsonwebtoken::encode` with the default (HS256) header, claims serialised
/// field by field in declaration order, and an HMAC key made from the bytes
/// of `secret`. With an HMAC key and the HS256 header, `encode` has no
/// failing path (the header and a JSON object always serialise, and HMAC
/// signing always succeeds), so the result is the token named by
/// `hs256_token`.
#[verifier::external_body]
fn jwt_encode(claims: &Claims, secret: &str) -> (r: Result<String, jsonwebtoken::errors::Error>)
    ensures
        r is Ok,
        r matches Ok(t) ==> t@ == hs256_token(
            secret@,
            claims.sub@,
            claims.name@,
            opt_str(claims.platform),
            claims.iat as int,
            claims.exp as int,
        ),
{
    let mut m = serde_json::Map::new();
    m.insert("sub".to_string(), Value::String(claims.sub.clone()));
    m.insert("name".to_string(), Value::String(claims.name.clone()));
    let platform = match &claims.platform {
        Some(p) => Value::String(p.clone()),
        None => Value::Null,
    };
    m.insert("platform".to_string(), platform);
    m.insert("iat".to_string(), Value::from(claims.iat));
    m.insert("exp".to_string(), Value::from(claims.exp));
    let key = jsonwebtoken::EncodingKey::from_secret(secret.as_bytes());
    jsonwebtoken::encode(&jsonwebtoken::Header::default(), &Value::Object(m), &key)
}

/// The claims of a token issued at `now` (Unix seconds) that lives `ttl_days` days.
pub fn build_claims(device_id: &str, name: &str, platform: Option<&str>, now: i64, ttl_days: u32) -> (c: Claims)
    requires
        0 <= now <= MAX_TIMESTAMP,
    ensures
        c.sub@ == device_id@,
        c.name@ == name@,
        opt_str(c.platform) == (opt_text(platform)),
        c.iat == now,
        c.exp == now + ttl_days * SECS_PER_DAY,
{
    let exp = now + (ttl_days as i64) * SECS_PER_DAY;
    let platform = match platform {
        Some(p) => Some(p.to_owned()),
        None => None,
    };
    Claims { sub: device_id.to_owned(), name: name.to_owned(), platform, iat: now, exp }
}

/// Issues a token for a device at the given time. The expiry must stay
/// within the range of instants `chrono` represents.
pub fn issue_at(
    device_id: &str,
    name: &str,
    platform: Option<&str>,
    secret: &str,
    ttl_days: u32,
    now: i64,
) -> (r: String)
    requires
        0 <= now,
        now + ttl_days * SECS_PER_DAY <= MAX_TIMESTAMP,
    ensures
        r@ == hs256_token(
            secret@,
            device_id@,
            name@,
            opt_text(platform),
            now as int,
            now + ttl_days * SECS_PER_DAY,
        ),
{
    let claims = build_claims(device_id, name, platform, now, ttl_days);
    match jwt_encode(&claims, secret) {
        Ok(t) => t,
        Err(_) => {
            assert(false);
            String::new()
        },
    }
}

/// The answer when a token's expiry would lie beyond the last instant
/// `chrono` represents.
pub open spec fn expiry_out_of_range_text() -> Seq<char> {
    "token expiry out of range"@
}

/// The outcome of issuing a token at the clock reading `now`: the token,
/// or the out-of-range error when the expiry would pass `MAX_TIMESTAMP`.
pub open spec fn issued_at(
    r: Result<String, AppError>,
    secret: Seq<char>,
    device_id: Seq<char>,
    name: Seq<char>,
    platform: Option<Seq<char>>,
    ttl_days: u32,
    now: int,
) -> bool {
    if now + ttl_days * SECS_PER_DAY <= MAX_TIMESTAMP {
        r matches Ok(t) && t@ == hs256_token(secret, device_id, name, platform, now, now + ttl_days * SECS_PER_DAY)
    } else {
        r matches Err(AppError::Internal(m)) && m@ == expiry_out_of_range_text()
    }
}

/// Issues a token at the clock reading `now`: the token valid for
/// `ttl_days` days, or an internal error when its expiry would lie beyond
/// the last instant `chrono` represents.
pub fn issue_until(
    device_id: &str,
    name: &str,
    platform: Option<&str>,
    secret: &str,
    ttl_days: u32,
    now: i64,
) -> (r: Result<String, AppError>)
    requires
        0 <= now <= MAX_TIMESTAMP,
    ensures
        issued_at(r, secret@, device_id@, name@, opt_text(platform), ttl_days, now as int),
{
    let span = (ttl_days as i64) * SECS_PER_DAY;
    if span > MAX_TIMESTAMP - now {
        let mut msg = String::new();
        push_str(&mut msg, "token expiry out of range");
        return Err(AppError::Internal(msg));
    }
    Ok(issue_at(device_id, name, platform, secret, ttl_days, now))
}

/// Whether `r` is the internal error for an unreadable system clock.
pub open spec fn clock_failed<T>(r: Result<T, AppError>) -> bool {
    r matches Err(AppError::Internal(m)) && m@ == clock_unreadable_text()
}

/// Issues a token for a device, valid from now for `ttl_days` days: what
/// `issue_until` gives at the clock's reading. Returns an internal error
/// when the clock cannot be read.
pub fn issue(device_id: &str, name: &str, platform: Option<&str>, secret: &str, ttl_days: u32) -> (r: Result<String, AppError>)
    ensures
        clock_failed(r) || exists|now: int|
            0 <= now <= MAX_TIMESTAMP && #[trigger] issued_at(
                r,
                secret@,
                device_id@,
                name@,
                opt_text(platform),
                ttl_days,
                now,
            ),
        exists|reading: Option<Instant>|
            #[trigger] call_ensures(now, (), reading) && match reading {
                Some(t) => issued_at(
                    r,
                    secret@,
                    device_id@,
                    name@,
                    opt_text(platform),
                    ttl_days,
                    t.secs as int,
                ),
                None => clock_failed(r),
            },
{
    let c = current();
    let ghost reading = choose|reading: Option<Instant>|
        #[trigger] call_ensures(now, (), reading) && current_answer(c, reading);
    match c {
        Ok(t) => issue_until(device_id, name, platform, secret, ttl_days, t.secs),
        Err(e) => Err(e),
    }
}

// ---------- verifying tokens ----------

/// The claims of a token as plain values: sub, name, platform, iat, exp.
pub open spec fn claims_view(c: Claims) -> (Seq<char>, Seq<char>, Option<Seq<char>>, int, int) {
    (c.sub@, c.name@, opt_str(c.platform), c.iat as int, c.exp as int)
}

pub open spec fn opt_claims_view(c: Option<Claims>) -> Option<(Seq<char>, Seq<char>, Option<Seq<char>>, int, int)> {
    match c {
        Some(c) => Some(claims_view(c)),
        None => None,
    }
}

/// The claims `jsonwebtoken::decode` reads from `token` with the HS256 key
/// made from `secret`, checking the signature and the header but not the
/// expiry; `None` when it refuses the token.
pub uninterp spec fn hs256_claims(secret: Seq<char>, token: Seq<char>) -> Option<
    (Seq<char>, Seq<char>, Option<Seq<char>>, int, int),
>;

/// `jsonwebtoken::decode` with the default validation except the expiry
/// check (the clock is read by the caller), into a JSON object whose
/// fields are moved into the claims: `sub` and `name` strings, `platform` a
/// string or null or absent, `iat` and `exp` integers in `i64`. The
/// default validation requires `exp` as a non-negative integer. A token that
/// `encode` made for claims (the name `hs256_token`) decodes, with the
/// same secret, to exactly those claims.
/// Unlike a derived `Deserialize`, reading a JSON object keeps the last
/// value of a repeated key; the contract says nothing of such payloads,
/// which only the holder of the secret can sign.
#[verifier::external_body]
fn jwt_decode(token: &str, secret: &str) -> (r: Option<Claims>)
    ensures
        opt_claims_view(r) == hs256_claims(secret@, token@),
        r matches Some(c) ==> c.exp >= 0,
        forall|sub: Seq<char>, name: Seq<char>, platform: Option<Seq<char>>, iat: int, exp: int|
            #[trigger] hs256_token(secret@, sub, name, platform, iat, exp) == token@ && i64::MIN
                <= iat <= i64::MAX && 0 <= exp <= i64::MAX ==> opt_claims_view(r) == Some(
                (sub, name, platform, iat, exp),
            ),
{
    let mut v = Validation::default();
    v.validate_exp = false;
    let key = DecodingKey::from_secret(secret.as_bytes());
    let mut m = jsonwebtoken::decode::<serde_json::Map<String, Value>>(token, &key, &v).ok()?.claims;
    let platform = match m.remove("platform") {
        None | Some(Value::Null) => None,
        Some(Value::String(p)) => Some(p),
        Some(_) => return None,
    };
    let (Some(Value::String(sub)), Some(Value::String(name))) = (m.remove("sub"), m.remove("name")) else { return None };
    let (iat, exp) = (m.get("iat")?.as_i64()?, m.get("exp")?.as_i64()?);
    Some(Claims { sub, name, platform, iat, exp })
}

/// Seconds of clock skew tolerated past a token's expiry (jsonwebtoken's
/// default leeway).
pub const LEEWAY_SECS: i64 = 60;

/// Whether claims expiring at `exp` are still accepted at `now`.
pub open spec fn unexpired(exp: int, now: int) -> bool {
    now <= exp + LEEWAY_SECS
}

/// Whether decoded claims are accepted at `now`.
pub open spec fn accepted_at(claims: Option<(Seq<char>, Seq<char>, Option<Seq<char>>, int, int)>, now: int) -> bool {
    claims matches Some(c) && unexpired(c.4, now)
}

/// The verdict on decoded claims at the clock reading `now`: the claims
/// when the token decoded and has not expired, else unauthorized.
pub fn check_token(claims: Option<Claims>, now: i64) -> (r: Result<Claims, AppError>)
    ensures
        r is Ok <==> (claims matches Some(c) && unexpired(c.exp as int, now as int)),
        r matches Ok(c) ==> claims == Some(c),
        r matches Err(e) ==> e == AppError::Unauthorized,
{
    match claims {
        Some(c) => if (now as i128) <= (c.exp as i128) + (LEEWAY_SECS as i128) {
            Ok(c)
        } else {
            Err(AppError::Unauthorized)
        },
        None => Err(AppError::Unauthorized),
    }
}

/// The verdict on `token` at the clock reading `now`: the claims it
/// decodes to while unexpired, else unauthorized.
pub open spec fn verdict_at(r: Result<Claims, AppError>, secret: Seq<char>, token: Seq<char>, now: int) -> bool {
    &&& (r is Ok <==> accepted_at(hs256_claims(secret, token), now))
    &&& (r matches Ok(c) ==> hs256_claims(secret, token) == Some(claims_view(c)))
    &&& (r matches Err(e) ==> e == AppError::Unauthorized)
}

/// Verifies a device token at the clock reading `now`: its signature under
/// `secret`, its header, its claims and its expiry. A token issued for some
/// claims with `secret` verifies to exactly those claims until the leeway
/// past its expiry, and is refused after.
pub fn verify_at(token: &str, secret: &str, now: i64) -> (r: Result<Claims, AppError>)
    ensures
        verdict_at(r, secret@, token@, now as int),
        forall|sub: Seq<char>, name: Seq<char>, platform: Option<Seq<char>>, iat: int, exp: int|
            #[trigger] hs256_token(secret@, sub, name, platform, iat, exp) == token@ && i64::MIN
                <= iat <= i64::MAX && 0 <= exp <= i64::MAX ==> (if unexpired(exp, now as int) {
                r matches Ok(c) && claims_view(c) == (sub, name, platform, iat, exp)
            } else {
                r matches Err(e) && e == AppError::Unauthorized
            }),
{
    let decoded = jwt_decode(token, secret);
    check_token(decoded, now)
}

/// The verdict of `verify` for the clock reading `reading`: what
/// `verify_at` gives at the instant read (a token issued with `secret` for
/// some claims verifies to them until the leeway past its expiry, and is
/// refused after), or the internal error when no instant could be read.
pub open spec fn verified_at_reading(
    r: Result<Claims, AppError>,
    secret: Seq<char>,
    token: Seq<char>,
    reading: Option<Instant>,
) -> bool {
    match reading {
        Some(t) => {
            &&& verdict_at(r, secret, token, t.secs as int)
            &&& forall|sub: Seq<char>, name: Seq<char>, platform: Option<Seq<char>>, iat: int, exp: int|
                #[trigger] hs256_token(secret, sub, name, platform, iat, exp) == token && i64::MIN
                    <= iat <= i64::MAX && 0 <= exp <= i64::MAX ==> (if exp + LEEWAY_SECS >= t.secs {
                    r matches Ok(c) && claims_view(c) == (sub, name, platform, iat, exp)
                } else {
                    r matches Err(e) && e == AppError::Unauthorized
                })
        },
        None => clock_failed(r),
    }
}

/// A token issued with `secret` whose expiry, with the leeway, lies before
/// the instant the clock was read at is refused as unauthorized.
pub proof fn lemma_expired_token_refused(
    r: Result<Claims, AppError>,
    secret: Seq<char>,
    t: Instant,
    sub: Seq<char>,
    name: Seq<char>,
    platform: Option<Seq<char>>,
    iat: int,
    exp: int,
)
    requires
        verified_at_reading(r, secret, hs256_token(secret, sub, name, platform, iat, exp), Some(t)),
        i64::MIN <= iat <= i64::MAX,
        0 <= exp <= i64::MAX,
        exp + 60 < t.secs,
    ensures
        r == Err::<Claims, AppError>(AppError::Unauthorized),
{
}

/// A token issued with `secret` verifies, at any instant up to a minute
/// past its expiry, to exactly the claims it was issued for.
pub proof fn lemma_fresh_token_accepted(
    r: Result<Claims, AppError>,
    secret: Seq<char>,
    t: Instant,
    sub: Seq<char>,
    name: Seq<char>,
    platform: Option<Seq<char>>,
    iat: int,
    exp: int,
)
    requires
        verified_at_reading(r, secret, hs256_token(secret, sub, name, platform, iat, exp), Some(t)),
        i64::MIN <= iat <= i64::MAX,
        0 <= exp <= i64::MAX,
        t.secs <= exp + 60,
    ensures
        r matches Ok(c) && c.sub@ == sub && c.name@ == name && opt_str(c.platform) == platform
            && c.iat == iat && c.exp == exp,
{
}

/// Verifies a device token against the clock: what `verify_at` gives at
/// the instant the clock is read at. Returns an internal error when the
/// clock cannot be read.
pub fn verify(token: &str, secret: &str) -> (r: Result<Claims, AppError>)
    ensures
        clock_failed(r) || exists|now: int|
            0 <= now <= MAX_TIMESTAMP && #[trigger] verdict_at(r, secret@, token@, now),
        hs256_claims(secret@, token@) is None ==> r is Err,
        exists|reading: Option<Instant>|
            #[trigger] call_ensures(now, (), reading) && verified_at_reading(
                r,
                secret@,
                token@,
                reading,
            ),
{
    let c = current();
    let ghost reading = choose|reading: Option<Instant>|
        #[trigger] call_ensures(now, (), reading) && current_answer(c, reading);
    match c {
        Ok(t) => verify_at(token, secret, t.secs),
        Err(e) => Err(e),
    }
}

} // verus!

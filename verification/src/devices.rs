//! Device pairing.
//!
//! `POST /devices/pair { pairing_code, name, platform }` →
//! `{ device_id, token }` on success.
//!
//! The pairing code is set server-side. If unset, pairing is disabled and
//! the endpoint always answers 401.

use vstd::prelude::*;

use crate::auth::{
    constant_time_eq, expiry_out_of_range_text, hs256_token, issue_until, opt_str, opt_text,
    MAX_TIMESTAMP, SECS_PER_DAY,
};
use crate::error::AppError;
use crate::text::{chars_of, is_white_space, push_str, trim_white_space, trim_with};

verus! {

broadcast use vstd::string::group_string_axioms;

#[derive(Debug, Clone)]
pub struct PairRequest {
    pub pairing_code: String,
    pub name: String,
    pub platform: Option<String>,
}

#[derive(Debug, Clone)]
pub struct PairResponse {
    pub device_id: String,
    pub token: String,
}

/// A name with nothing but white space in it.
pub open spec fn is_blank(name: Seq<char>) -> bool {
    trim_with(name, |c: char| is_white_space(c)).len() == 0
}

/// Whether a pairing request may register a device: pairing must be enabled
/// (a code configured), the code must match, and the name must not be blank.
pub fn check_pairing(expected: Option<&str>, req: &PairRequest) -> (r: Result<(), AppError>)
    ensures
        expected is None ==> r matches Err(AppError::Unauthorized),
        expected matches Some(code) && req.pairing_code@ != code@ ==> r matches Err(
            AppError::Unauthorized,
        ),
        expected matches Some(code) && req.pairing_code@ == code@ && is_blank(req.name@) ==> (
        r matches Err(AppError::BadRequest(m)) && m@ == "name is required"@),
        expected matches Some(code) && req.pairing_code@ == code@ && !is_blank(req.name@) ==> r is Ok,
{
    let code = match expected {
        Some(c) => c,
        None => return Err(AppError::Unauthorized),
    };
    let same = constant_time_eq(req.pairing_code.as_str().as_bytes(), code.as_bytes());
    proof {
        vstd::utf8::encode_utf8_decode_utf8(req.pairing_code@);
        vstd::utf8::encode_utf8_decode_utf8(code@);
    }
    if !same {
        return Err(AppError::Unauthorized);
    }
    let cs = chars_of(req.name.as_str());
    let t = trim_white_space(cs.as_slice());
    if t.len() == 0 {
        let mut m = String::new();
        push_str(&mut m, "name is required");
        return Err(AppError::BadRequest(m));
    }
    Ok(())
}

/// The outcome of completing a pairing at the clock reading `now`: the new
/// device's id with its token, or the out-of-range error when the token's
/// expiry would pass `MAX_TIMESTAMP`.
pub open spec fn paired_at(
    r: Result<PairResponse, AppError>,
    req: PairRequest,
    device_id: String,
    secret: Seq<char>,
    ttl_days: u32,
    now: int,
) -> bool {
    if now + ttl_days * SECS_PER_DAY <= MAX_TIMESTAMP {
        r matches Ok(resp) && resp.device_id == device_id && resp.token@ == hs256_token(
            secret,
            device_id@,
            req.name@,
            opt_str(req.platform),
            now,
            now + ttl_days * SECS_PER_DAY,
        )
    } else {
        r matches Err(AppError::Internal(m)) && m@ == expiry_out_of_range_text()
    }
}

/// Completes an accepted pairing at the clock reading `now`: issues the
/// device's token.
pub fn pair_response(req: &PairRequest, device_id: String, secret: &str, ttl_days: u32, now: i64) -> (r: Result<PairResponse, AppError>)
    requires
        0 <= now <= MAX_TIMESTAMP,
    ensures
        paired_at(r, *req, device_id, secret@, ttl_days, now as int),
{
    let platform: Option<&str> = match &req.platform {
        Some(p) => Some(p.as_str()),
        None => None,
    };
    let issued = issue_until(device_id.as_str(), req.name.as_str(), platform, secret, ttl_days, now);
    assert(opt_text(platform) == opt_str(req.platform));
    match issued {
        Ok(token) => Ok(PairResponse { device_id, token }),
        Err(e) => Err(e),
    }
}

} // verus!

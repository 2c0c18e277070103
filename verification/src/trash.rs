//! Soft deletion into the trash, and restoring from it.

use vstd::prelude::*;

use crate::clock::{day_label, plus_days, representable, rfc3339, rfc3339_text, utc_format_text, Instant};
use crate::auth::SECS_PER_DAY;
use crate::error::AppError;
use crate::file::{trash_rel, trash_stored_rel};
use crate::sync::SyncEvent;
use crate::text::push_str;

verus! {

broadcast use vstd::string::group_string_axioms;

/// Where and until when a deleted file is kept.
#[derive(Debug, Clone)]
pub struct TrashRecord {
    /// relative to the trash root
    pub stored_rel: String,
    pub deleted_at: String,
    pub expires_at: String,
}

/// The trash entry for `canon`, deleted at `now` and kept `ttl_days` days,
/// filed under the day of deletion. An expiry beyond the last instant
/// `chrono` represents is an internal error.
pub fn trash_record(now: Instant, ttl_days: u32, trash_id: &str, canon: &str) -> (r: Result<TrashRecord, AppError>)
    requires
        representable(now),
    ensures
        r is Ok <==> now.secs + ttl_days * SECS_PER_DAY <= crate::auth::MAX_TIMESTAMP,
        r matches Ok(t) ==> {
            &&& t.stored_rel@ == trash_rel(
                utc_format_text(now.secs as int, now.nanos as int, "%Y-%m-%d"@),
                trash_id@,
                canon@,
            )
            &&& t.deleted_at@ == rfc3339_text(now.secs as int, now.nanos as int)
            &&& t.expires_at@ == rfc3339_text(
                now.secs + ttl_days * SECS_PER_DAY,
                now.nanos as int,
            )
        },
        r matches Err(e) ==> e is Internal,
{
    match plus_days(now, ttl_days) {
        None => {
            let mut m = String::new();
            push_str(&mut m, "trash expiry out of range");
            Err(AppError::Internal(m))
        },
        Some(exp) => {
            let day = day_label(now);
            let stored_rel = trash_stored_rel(day.as_str(), trash_id, canon);
            Ok(TrashRecord { stored_rel, deleted_at: rfc3339(now), expires_at: rfc3339(exp) })
        },
    }
}

/// The answer when a restore target is occupied.
pub open spec fn occupied_text(path: Seq<char>) -> Seq<char> {
    "path '"@ + path + "' already exists in the vault; delete or rename it first"@
}

/// A trashed file goes back only to a free path.
pub fn restore_check(original_path: &str, occupied: bool) -> (r: Result<(), AppError>)
    ensures
        !occupied ==> r is Ok,
        occupied ==> (r matches Err(AppError::BadRequest(m)) && m@ == occupied_text(original_path@)),
{
    if occupied {
        let mut m = String::new();
        push_str(&mut m, "path '");
        push_str(&mut m, original_path);
        push_str(&mut m, "' already exists in the vault; delete or rename it first");
        Err(AppError::BadRequest(m))
    } else {
        Ok(())
    }
}

/// The event announcing a restored file: with an empty origin every
/// connected device pulls it.
pub fn restore_event(canon: &str, etag: &str, size: i64) -> (e: SyncEvent)
    ensures
        crate::file::is_change(e, canon@, etag@, size, Seq::<char>::empty()),
{
    proof {
        reveal_strlit("");
        assert(""@ =~= Seq::<char>::empty());
    }
    crate::file::change_event(canon, etag, size, "")
}

} // verus!

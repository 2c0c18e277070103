//! The file API's decisions: which precondition header a request carries,
//! what a PUT or DELETE does to the stored version, where displaced copies
//! are kept, and which sync events follow.
//!
//! Conflict policy (B+):
//! - PUT with mismatched `If-Match` does NOT reject. The incoming body becomes
//!   the new active version; the previous active is moved to `conflicts/<id>/...`.
//! - DELETE with mismatched/absent `If-Match` is rejected (modify-wins).

use vstd::prelude::*;

use crate::error::AppError;
use crate::storage::{
    dot, dot_dot, is_canonical_rel, is_plain_name, join_with_slash, lemma_named_all, lemma_split_join,
    lemma_split_of_plain, split_on_slash,
};
use crate::sync::SyncEvent;
use crate::text::{chars_of, is_quote, push_chars, push_str, str_eq, string_of, trim_quotes, trim_with};

verus! {

broadcast use vstd::string::group_string_axioms;

/// One row of the vault index.
#[derive(Debug, Clone)]
pub struct FileEntry {
    pub path: String,
    pub etag: String,
    pub size_bytes: i64,
    pub modified_at: String,
}

/// A header value with surrounding double quotes removed.
pub open spec fn unquoted(h: Seq<char>) -> Seq<char> {
    trim_with(h, |c: char| is_quote(c))
}

/// The ETag a client names in `If-Match`: the header without quotes, when
/// anything is left.
pub open spec fn precondition_etag(header: Option<Seq<char>>) -> Option<Seq<char>> {
    match header {
        Some(h) => if unquoted(h).len() > 0 {
            Some(unquoted(h))
        } else {
            None
        },
        None => None,
    }
}

/// Reads `If-Match` (its text, when readable): quotes are stripped and an
/// empty value counts as absent.
pub fn if_match(header: Option<&str>) -> (r: Option<String>)
    ensures
        r is Some <==> precondition_etag(crate::auth::opt_text(header)) is Some,
        r matches Some(v) ==> Some(v@) == precondition_etag(crate::auth::opt_text(header)),
{
    match header {
        Some(h) => {
            let cs = chars_of(h);
            let t = trim_quotes(cs.as_slice());
            if t.len() > 0 {
                Some(string_of(t.as_slice()))
            } else {
                None
            }
        },
        None => None,
    }
}

/// Whether an `If-None-Match` value names `etag` (quotes ignored).
pub fn none_match_hits(header: &str, etag: &str) -> (r: bool)
    ensures
        r == (unquoted(header@) == etag@),
{
    let cs = chars_of(header);
    let t = trim_quotes(cs.as_slice());
    let e = chars_of(etag);
    crate::text::chars_eq(t.as_slice(), e.as_slice())
}

/// The value of the `ETag` response header: the etag in double quotes.
pub open spec fn quoted(etag: Seq<char>) -> Seq<char> {
    seq!['"'] + etag + seq!['"']
}

pub fn etag_header(etag: &str) -> (r: String)
    ensures
        r@ == quoted(etag@),
{
    let mut out = String::new();
    out.push('"');
    push_str(&mut out, etag);
    out.push('"');
    out
}

/// A client that sends back the `ETag` header it was served, in `If-Match`
/// or `If-None-Match`, names the version it was served (any etag without
/// quotes, such as the hex digests the server makes).
pub proof fn lemma_served_etag_round_trip(etag: Seq<char>)
    requires
        etag.len() > 0,
        !etag.contains('"'),
    ensures
        unquoted(quoted(etag)) == etag,
        precondition_etag(Some(quoted(etag))) == Some(etag),
{
    let p = |c: char| is_quote(c);
    let s = quoted(etag);
    assert(s[0] == '"');
    assert(s[1] == etag[0]);
    if p(etag[0]) {
        assert(etag.contains(etag[0]));
    }
    crate::text::lemma_leading_count(s, p, 1);
    let t = s.skip(1);
    assert(t =~= etag + seq!['"']);
    assert forall|k: int| t.len() - 1 <= k < t.len() implies p(#[trigger] t[k]) by {}
    assert(t[t.len() - 2] == etag[etag.len() - 1]);
    if p(etag[etag.len() - 1]) {
        assert(etag.contains(etag[etag.len() - 1]));
    }
    crate::text::lemma_trailing_count(t, p, t.len() - 1);
    assert(t.take(t.len() - 1) =~= etag);
}

/// What an accepted PUT does.
#[derive(Debug, Clone)]
pub enum PutOutcome {
    /// No stored version and no `If-Match`: a fresh file.
    Create,
    /// `If-Match` names the stored version: a normal update.
    Modify { etag_before: String },
    /// A stored version exists but `If-Match` is absent or names another
    /// version: the upload still wins and the stored version is preserved
    /// as a conflict copy.
    Conflict { etag_before: String },
}

/// The outcome of a PUT given the stored ETag (if the path is indexed) and
/// the `If-Match` ETag (if sent).
pub fn decide_put(current: Option<&str>, if_match: Option<&str>) -> (r: Result<PutOutcome, AppError>)
    ensures
        current is None && if_match is None ==> r matches Ok(PutOutcome::Create),
        current is None && if_match is Some ==> (r matches Err(
            AppError::EtagMismatch { current: c0 },
        ) && c0@.len() == 0),
        (current matches Some(c) && if_match matches Some(m) && c@ == m@) ==> (r matches Ok(
            PutOutcome::Modify { etag_before },
        ) && etag_before@ == current.unwrap()@),
        (current matches Some(c) && !(if_match matches Some(m) && c@ == m@)) ==> (r matches Ok(
            PutOutcome::Conflict { etag_before },
        ) && etag_before@ == current.unwrap()@),
{
    match current {
        None => match if_match {
            None => Ok(PutOutcome::Create),
            Some(_) => Err(AppError::EtagMismatch { current: String::new() }),
        },
        Some(c) => {
            let matched = match if_match {
                Some(m) => str_eq(c, m),
                None => false,
            };
            if matched {
                Ok(PutOutcome::Modify { etag_before: c.to_owned() })
            } else {
                Ok(PutOutcome::Conflict { etag_before: c.to_owned() })
            }
        },
    }
}

impl PutOutcome {
    /// The audit-log operation name.
    pub fn audit_op(&self) -> (r: &'static str)
        ensures
            r@ == (match *self {
                PutOutcome::Create => "create"@,
                PutOutcome::Modify { .. } => "modify"@,
                PutOutcome::Conflict { .. } => "conflict"@,
            }),
    {
        match self {
            PutOutcome::Create => "create",
            PutOutcome::Modify { .. } => "modify",
            PutOutcome::Conflict { .. } => "conflict",
        }
    }

    /// The stored ETag the write replaces, if any.
    pub fn etag_before(&self) -> (r: Option<String>)
        ensures
            match *self {
                PutOutcome::Create => r is None,
                PutOutcome::Modify { etag_before } => r matches Some(e) && e@ == etag_before@,
                PutOutcome::Conflict { etag_before } => r matches Some(e) && e@ == etag_before@,
            },
    {
        match self {
            PutOutcome::Create => None,
            PutOutcome::Modify { etag_before } => Some(etag_before.clone()),
            PutOutcome::Conflict { etag_before } => Some(etag_before.clone()),
        }
    }
}

/// Whether a DELETE may proceed: the path must be indexed (else `NotFound`)
/// and `If-Match` must name the stored version (modify-wins: otherwise
/// `EtagMismatch` carrying the stored ETag).
pub fn decide_delete(current: Option<&str>, if_match: Option<&str>) -> (r: Result<(), AppError>)
    ensures
        current is None ==> r matches Err(AppError::NotFound),
        (current matches Some(c) && if_match matches Some(m) && c@ == m@) ==> r is Ok,
        (current matches Some(c) && !(if_match matches Some(m) && c@ == m@)) ==> (r matches Err(
            AppError::EtagMismatch { current: cur },
        ) && cur@ == current.unwrap()@),
{
    match current {
        None => Err(AppError::NotFound),
        Some(c) => {
            let matched = match if_match {
                Some(m) => str_eq(c, m),
                None => false,
            };
            if matched {
                Ok(())
            } else {
                Err(AppError::EtagMismatch { current: c.to_owned() })
            }
        },
    }
}

// ---------- where displaced versions are kept ----------

/// `s` with every `/` replaced by `__`.
pub open spec fn flatten_slashes(s: Seq<char>) -> Seq<char>
    decreases s.len(),
{
    if s.len() == 0 {
        Seq::empty()
    } else {
        flatten_slashes(s.drop_last()) + (if s.last() == '/' {
            seq!['_', '_']
        } else {
            seq![s.last()]
        })
    }
}

/// A flattened path holds no `/`.
pub proof fn lemma_flatten_has_no_slash(s: Seq<char>)
    ensures
        !flatten_slashes(s).contains('/'),
    decreases s.len(),
{
    if s.len() > 0 {
        lemma_flatten_has_no_slash(s.drop_last());
        let a = flatten_slashes(s.drop_last());
        let b: Seq<char> = if s.last() == '/' {
            seq!['_', '_']
        } else {
            seq![s.last()]
        };
        let f = flatten_slashes(s);
        assert(f =~= a + b);
        if f.contains('/') {
            let k = choose|k: int| 0 <= k < f.len() && f[k] == '/';
            if k < a.len() {
                assert(a[k] == '/');
            } else {
                assert(b[k - a.len()] == '/');
            }
        }
    }
}

/// Flattening brings in no character other than `_`.
proof fn lemma_flatten_free_of(s: Seq<char>, c: char)
    requires
        c != '_',
        !s.contains(c),
    ensures
        !flatten_slashes(s).contains(c),
    decreases s.len(),
{
    if s.len() > 0 {
        let t = s.drop_last();
        assert(!t.contains(c)) by {
            if t.contains(c) {
                let k = choose|k: int| 0 <= k < t.len() && t[k] == c;
                assert(s[k] == c);
            }
        }
        lemma_flatten_free_of(t, c);
        let a = flatten_slashes(t);
        let b: Seq<char> = if s.last() == '/' {
            seq!['_', '_']
        } else {
            seq![s.last()]
        };
        let f = flatten_slashes(s);
        assert(f =~= a + b);
        assert(s[s.len() - 1] == s.last());
        if f.contains(c) {
            let k = choose|k: int| 0 <= k < f.len() && f[k] == c;
            if k < a.len() {
                assert(a[k] == c);
            } else {
                assert(b[k - a.len()] == c);
            }
        }
    }
}

/// A path without `/` is its own flattening.
proof fn lemma_flatten_plain(s: Seq<char>)
    requires
        !s.contains('/'),
    ensures
        flatten_slashes(s) == s,
    decreases s.len(),
{
    if s.len() > 0 {
        let t = s.drop_last();
        assert(!t.contains('/')) by {
            if t.contains('/') {
                let k = choose|k: int| 0 <= k < t.len() && t[k] == '/';
                assert(s[k] == '/');
            }
        }
        lemma_flatten_plain(t);
        assert(s[s.len() - 1] == s.last());
        assert(t.push(s.last()) =~= s);
        assert(flatten_slashes(s) =~= t + seq![s.last()]);
    }
}

/// Flattening a path with a `/` leaves an `_` in it.
proof fn lemma_flatten_marks_slash(s: Seq<char>)
    requires
        s.contains('/'),
    ensures
        flatten_slashes(s).contains('_'),
    decreases s.len(),
{
    let t = s.drop_last();
    let a = flatten_slashes(t);
    let f = flatten_slashes(s);
    if s.last() == '/' {
        assert(f =~= a + seq!['_', '_']);
        assert(f[a.len() as int] == '_');
    } else {
        let k = choose|k: int| 0 <= k < s.len() && s[k] == '/';
        assert(k < s.len() - 1);
        assert(t[k] == '/');
        lemma_flatten_marks_slash(t);
        let j = choose|j: int| 0 <= j < a.len() && a[j] == '_';
        assert(f =~= a + seq![s.last()]);
        assert(f[j] == '_');
    }
}

/// The flattening of a canonical path is a plain file name.
proof fn lemma_flatten_of_canonical(canon: Seq<char>)
    requires
        is_canonical_rel(canon),
    ensures
        is_plain_name(flatten_slashes(canon)),
{
    let f = flatten_slashes(canon);
    lemma_flatten_has_no_slash(canon);
    lemma_flatten_free_of(canon, '\0');
    if canon.contains('/') {
        lemma_flatten_marks_slash(canon);
        let j = choose|j: int| 0 <= j < f.len() && f[j] == '_';
        assert(f != dot()) by {
            if f == dot() {
                assert(dot()[j] == '.');
            }
        }
        assert(f != dot_dot()) by {
            if f == dot_dot() {
                assert(dot_dot()[j] == '.');
            }
        }
    } else {
        lemma_flatten_plain(canon);
        lemma_split_of_plain(canon);
        assert(split_on_slash(canon)[0] == canon);
    }
}

/// A text without `c` in any of three parts has none in their concatenation.
proof fn lemma_concat_free_of(a: Seq<char>, b: Seq<char>, c: char)
    requires
        !a.contains(c),
        !b.contains(c),
    ensures
        !(a + b).contains(c),
{
    let s = a + b;
    if s.contains(c) {
        let k = choose|k: int| 0 <= k < s.len() && s[k] == c;
        if k < a.len() {
            assert(a[k] == c);
        } else {
            assert(b[k - a.len()] == c);
        }
    }
}

/// The place a losing version is kept is a canonical path, so the
/// conflicts root accepts it unchanged (for a conflict id that is a plain
/// name, such as a UUID).
pub proof fn lemma_conflict_copy_accepted(conflict_id: Seq<char>, canon: Seq<char>)
    requires
        is_plain_name(conflict_id),
        is_canonical_rel(canon),
    ensures
        is_canonical_rel(conflict_rel(conflict_id, canon)),
{
    reveal_strlit(".bin");
    lemma_flatten_of_canonical(canon);
    let flat = flatten_slashes(canon);
    let bin = ".bin"@;
    let f = flat + bin;
    assert(!bin.contains('/')) by {
        if bin.contains('/') {
            let k = choose|k: int| 0 <= k < bin.len() && bin[k] == '/';
        }
    }
    assert(!bin.contains('\0')) by {
        if bin.contains('\0') {
            let k = choose|k: int| 0 <= k < bin.len() && bin[k] == '\0';
        }
    }
    lemma_concat_free_of(flat, bin, '/');
    lemma_concat_free_of(flat, bin, '\0');
    assert(f.len() >= 4);
    assert(f != dot());
    assert(f != dot_dot());
    let parts = seq![conflict_id, f];
    let x = conflict_rel(conflict_id, canon);
    assert(join_with_slash(parts.drop_last()) == conflict_id);
    assert(x =~= join_with_slash(parts));
    lemma_split_join(parts);
    lemma_named_all(parts);
    lemma_concat_free_of(conflict_id + seq!['/'], f, '\0');
    lemma_concat_free_of(conflict_id, seq!['/'], '\0');
    assert(x =~= (conflict_id + seq!['/']) + f);
}

/// The place a deleted file is kept is a canonical path, so the trash root
/// accepts it unchanged (for a day label and a trash id that are plain
/// names, such as `2026-06-10` and a UUID).
pub proof fn lemma_trash_copy_accepted(day: Seq<char>, trash_id: Seq<char>, canon: Seq<char>)
    requires
        is_plain_name(day),
        is_plain_name(trash_id),
        is_canonical_rel(canon),
    ensures
        is_canonical_rel(trash_rel(day, trash_id, canon)),
{
    lemma_flatten_of_canonical(canon);
    let f = flatten_slashes(canon);
    let parts = seq![day, trash_id, f];
    let x = trash_rel(day, trash_id, canon);
    let p2 = parts.drop_last();
    assert(p2 =~= seq![day, trash_id]);
    assert(p2.drop_last() =~= seq![day]);
    assert(join_with_slash(seq![day]) == day);
    assert(join_with_slash(p2) == join_with_slash(p2.drop_last()) + seq!['/'] + p2.last());
    assert(join_with_slash(p2) =~= day + seq!['/'] + trash_id);
    assert(x =~= join_with_slash(parts));
    lemma_split_join(parts);
    lemma_named_all(parts);
    lemma_concat_free_of(day, seq!['/'], '\0');
    lemma_concat_free_of(day + seq!['/'], trash_id, '\0');
    lemma_concat_free_of(day + seq!['/'] + trash_id, seq!['/'], '\0');
    lemma_concat_free_of(day + seq!['/'] + trash_id + seq!['/'], f, '\0');
    assert(x =~= day + seq!['/'] + trash_id + seq!['/'] + f);
}

/// Turns a canonical vault path into a single file name.
pub fn sanitize_for_filename(canon: &str) -> (r: String)
    ensures
        r@ == flatten_slashes(canon@),
{
    let cs = chars_of(canon);
    let mut out = String::new();
    let n = cs.len();
    for i in 0..n
        invariant
            n == cs@.len(),
            cs@ == canon@,
            out@ == flatten_slashes(cs@.take(i as int)),
    {
        proof {
            assert(cs@.take(i + 1).drop_last() =~= cs@.take(i as int));
        }
        if cs[i] == '/' {
            out.push('_');
            out.push('_');
            proof {
                assert(out@ =~= flatten_slashes(cs@.take(i as int)) + seq!['_', '_']);
            }
        } else {
            out.push(cs[i]);
            proof {
                assert(out@ =~= flatten_slashes(cs@.take(i as int)) + seq![cs@[i as int]]);
            }
        }
    }
    assert(cs@.take(n as int) =~= cs@);
    out
}

/// Where a losing version is kept, relative to the conflicts root:
/// `<conflict_id>/<flattened path>.bin`.
pub open spec fn conflict_rel(conflict_id: Seq<char>, canon: Seq<char>) -> Seq<char> {
    conflict_id + seq!['/'] + flatten_slashes(canon) + ".bin"@
}

pub fn conflict_stored_rel(conflict_id: &str, canon: &str) -> (r: String)
    ensures
        r@ == conflict_rel(conflict_id@, canon@),
{
    let mut out = String::new();
    push_str(&mut out, conflict_id);
    out.push('/');
    let flat = sanitize_for_filename(canon);
    push_str(&mut out, flat.as_str());
    push_str(&mut out, ".bin");
    out
}

/// The record of a conflict: the path, the version that won (the upload),
/// the version that lost (the one that was stored), where the losing
/// version is kept, the device that wrote it, and when it was detected.
#[derive(Debug, Clone)]
pub struct ConflictRecord {
    pub id: String,
    pub path: String,
    pub active_etag: String,
    pub losing_etag: String,
    pub stored_path: String,
    pub losing_device: Option<String>,
    pub detected_at: String,
}

/// The conflict an accepted PUT records, if its outcome is a conflict.
/// `stored_by` is the device that wrote the stored (losing) version.
pub fn conflict_record(
    outcome: &PutOutcome,
    conflict_id: &str,
    canon: &str,
    new_etag: &str,
    stored_by: Option<&str>,
    now: &str,
) -> (r: Option<ConflictRecord>)
    ensures
        match *outcome {
            PutOutcome::Conflict { etag_before } => r matches Some(c) && c.id@ == conflict_id@
                && c.path@ == canon@ && c.active_etag@ == new_etag@ && c.losing_etag@
                == etag_before@ && c.stored_path@ == conflict_rel(conflict_id@, canon@)
                && crate::auth::opt_str(c.losing_device) == crate::auth::opt_text(stored_by)
                && c.detected_at@ == now@,
            _ => r is None,
        },
{
    match outcome {
        PutOutcome::Conflict { etag_before } => {
            let losing_device = match stored_by {
                Some(d) => Some(d.to_owned()),
                None => None,
            };
            Some(
                ConflictRecord {
                    id: conflict_id.to_owned(),
                    path: canon.to_owned(),
                    active_etag: new_etag.to_owned(),
                    losing_etag: etag_before.clone(),
                    stored_path: conflict_stored_rel(conflict_id, canon),
                    losing_device,
                    detected_at: now.to_owned(),
                },
            )
        },
        _ => None,
    }
}

/// Where a deleted file is kept, relative to the trash root:
/// `<day>/<trash_id>/<flattened path>`.
pub open spec fn trash_rel(day: Seq<char>, trash_id: Seq<char>, canon: Seq<char>) -> Seq<char> {
    day + seq!['/'] + trash_id + seq!['/'] + flatten_slashes(canon)
}

pub fn trash_stored_rel(day: &str, trash_id: &str, canon: &str) -> (r: String)
    ensures
        r@ == trash_rel(day@, trash_id@, canon@),
{
    let mut out = String::new();
    push_str(&mut out, day);
    out.push('/');
    push_str(&mut out, trash_id);
    out.push('/');
    let flat = sanitize_for_filename(canon);
    push_str(&mut out, flat.as_str());
    out
}

// ---------- the events a write causes ----------

/// `e` announces that `path` now holds version `etag` of `size` bytes.
pub open spec fn is_change(e: SyncEvent, path: Seq<char>, etag: Seq<char>, size: i64, origin: Seq<char>) -> bool {
    e matches SyncEvent::FileChanged { path: p, etag: t, size: s, origin_device: o } && p@ == path
        && t@ == etag && s == size && o@ == origin
}

/// `e` announces a conflict on `path`.
pub open spec fn is_conflict(
    e: SyncEvent,
    path: Seq<char>,
    active: Seq<char>,
    losing: Seq<char>,
    id: Seq<char>,
    origin: Seq<char>,
) -> bool {
    e matches SyncEvent::FileConflict {
        path: p,
        active_etag: a,
        losing_etag: l,
        conflict_id: i,
        origin_device: o,
    } && p@ == path && a@ == active && l@ == losing && i@ == id && o@ == origin
}

/// A change event.
pub fn change_event(path: &str, etag: &str, size: i64, origin: &str) -> (e: SyncEvent)
    ensures
        is_change(e, path@, etag@, size, origin@),
{
    SyncEvent::FileChanged {
        path: path.to_owned(),
        etag: etag.to_owned(),
        size,
        origin_device: origin.to_owned(),
    }
}

/// The events an accepted PUT broadcasts, in order: for a conflict, first
/// the conflict notice, then the resulting change; otherwise the change.
/// All carry the writing device as origin, so it is not echoed back.
pub fn put_events(
    outcome: &PutOutcome,
    canon: &str,
    new_etag: &str,
    size: i64,
    device: &str,
    conflict_id: &str,
) -> (r: Vec<SyncEvent>)
    ensures
        match *outcome {
            PutOutcome::Conflict { etag_before } => r@.len() == 2 && is_conflict(
                r@[0],
                canon@,
                new_etag@,
                etag_before@,
                conflict_id@,
                device@,
            ) && is_change(r@[1], canon@, new_etag@, size, device@),
            _ => r@.len() == 1 && is_change(r@[0], canon@, new_etag@, size, device@),
        },
{
    let mut r: Vec<SyncEvent> = Vec::new();
    match outcome {
        PutOutcome::Conflict { etag_before } => {
            r.push(
                SyncEvent::FileConflict {
                    path: canon.to_owned(),
                    active_etag: new_etag.to_owned(),
                    losing_etag: etag_before.clone(),
                    conflict_id: conflict_id.to_owned(),
                    origin_device: device.to_owned(),
                },
            );
        },
        _ => {},
    }
    r.push(change_event(canon, new_etag, size, device));
    r
}

/// The event an accepted DELETE broadcasts.
pub fn delete_event(canon: &str, device: &str) -> (e: SyncEvent)
    ensures
        e matches SyncEvent::FileDeleted { path, origin_device } && path@ == canon@
            && origin_device@ == device@,
{
    SyncEvent::FileDeleted { path: canon.to_owned(), origin_device: device.to_owned() }
}

} // verus!

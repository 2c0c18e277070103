//! The audit log: the row each vault change adds.

use vstd::prelude::*;

use crate::auth::{opt_str, opt_text};
use crate::file::PutOutcome;

verus! {

broadcast use vstd::string::group_string_axioms;

/// One audit-log row (its free-form `extra` field aside).
#[derive(Debug, Clone)]
pub struct AuditEntry {
    pub ts: String,
    pub op: String,
    pub path: String,
    pub device: Option<String>,
    pub etag_before: Option<String>,
    pub etag_after: Option<String>,
    pub size: Option<i64>,
}

/// The entry as plain values.
pub open spec fn entry_view(a: AuditEntry) -> (
    Seq<char>,
    Seq<char>,
    Seq<char>,
    Option<Seq<char>>,
    Option<Seq<char>>,
    Option<Seq<char>>,
    Option<i64>,
) {
    (a.ts@, a.op@, a.path@, opt_str(a.device), opt_str(a.etag_before), opt_str(a.etag_after), a.size)
}

fn owned(s: Option<&str>) -> (r: Option<String>)
    ensures
        opt_str(r) == opt_text(s),
{
    match s {
        Some(t) => Some(t.to_owned()),
        None => None,
    }
}

/// The entry an accepted PUT adds: `create`, `modify` or `conflict`, by the
/// writing device, from the replaced version (if any) to the new one.
pub fn write_audit(
    outcome: &PutOutcome,
    canon: &str,
    new_etag: &str,
    size: i64,
    device: &str,
    now: &str,
) -> (r: AuditEntry)
    ensures
        entry_view(r) == (
            now@,
            match *outcome {
                PutOutcome::Create => "create"@,
                PutOutcome::Modify { .. } => "modify"@,
                PutOutcome::Conflict { .. } => "conflict"@,
            },
            canon@,
            Some(device@),
            match *outcome {
                PutOutcome::Create => None,
                PutOutcome::Modify { etag_before } => Some(etag_before@),
                PutOutcome::Conflict { etag_before } => Some(etag_before@),
            },
            Some(new_etag@),
            Some(size),
        ),
{
    let before = outcome.etag_before();
    AuditEntry {
        ts: now.to_owned(),
        op: outcome.audit_op().to_owned(),
        path: canon.to_owned(),
        device: Some(device.to_owned()),
        etag_before: before,
        etag_after: Some(new_etag.to_owned()),
        size: Some(size),
    }
}

/// The entry an accepted DELETE adds: `delete`, by the deleting device, of
/// the stored version.
pub fn delete_audit(canon: &str, device: &str, etag: &str, size: i64, now: &str) -> (r: AuditEntry)
    ensures
        entry_view(r) == (now@, "delete"@, canon@, Some(device@), Some(etag@), None::<Seq<char>>, Some(size)),
{
    AuditEntry {
        ts: now.to_owned(),
        op: "delete".to_owned(),
        path: canon.to_owned(),
        device: Some(device.to_owned()),
        etag_before: Some(etag.to_owned()),
        etag_after: None,
        size: Some(size),
    }
}

/// The entry a restore from the trash adds: `restore`, by no device, of the
/// version that comes back.
pub fn restore_audit(canon: &str, etag: &str, size: i64, now: &str) -> (r: AuditEntry)
    ensures
        entry_view(r) == (now@, "restore"@, canon@, None::<Seq<char>>, None::<Seq<char>>, Some(etag@), Some(size)),
{
    AuditEntry {
        ts: now.to_owned(),
        op: "restore".to_owned(),
        path: canon.to_owned(),
        device: None,
        etag_before: None,
        etag_after: Some(etag.to_owned()),
        size: Some(size),
    }
}

/// The entry a purge adds: `trash_purged`, for the path the file had.
pub fn purge_audit(original_path: &str, now: &str) -> (r: AuditEntry)
    ensures
        entry_view(r) == (
            now@,
            "trash_purged"@,
            original_path@,
            None::<Seq<char>>,
            None::<Seq<char>>,
            None::<Seq<char>>,
            None::<i64>,
        ),
{
    AuditEntry {
        ts: now.to_owned(),
        op: "trash_purged".to_owned(),
        path: original_path.to_owned(),
        device: None,
        etag_before: None,
        etag_after: None,
        size: None,
    }
}

/// The entry a conflict resolution adds: `conflict_resolved`, by the
/// resolving device (none from the admin console).
pub fn resolution_audit(path: &str, actor: Option<&str>, now: &str) -> (r: AuditEntry)
    ensures
        entry_view(r) == (
            now@,
            "conflict_resolved"@,
            path@,
            opt_text(actor),
            None::<Seq<char>>,
            None::<Seq<char>>,
            None::<i64>,
        ),
{
    AuditEntry {
        ts: now.to_owned(),
        op: "conflict_resolved".to_owned(),
        path: path.to_owned(),
        device: owned(actor),
        etag_before: None,
        etag_after: None,
        size: None,
    }
}

} // verus!

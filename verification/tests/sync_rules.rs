use obsidian_nas_server::audit::{delete_audit, purge_audit, resolution_audit, restore_audit, write_audit};
use obsidian_nas_server::auth::{
    admit_device, check_token, constant_time_eq, issue, issue_at, issue_until, query_token,
    request_token, verify, verify_at, Claims,
};
use obsidian_nas_server::conflicts::{
    conflict_copy_name, keep_both_path, parse_choice, resolution_event, sanitize_label, Resolution,
};
use obsidian_nas_server::devices::{check_pairing, pair_response, PairRequest};
use obsidian_nas_server::error::AppError;
use obsidian_nas_server::file::{
    conflict_record, decide_delete, decide_put, etag_header, if_match, none_match_hits, put_events,
    PutOutcome,
};
use obsidian_nas_server::sync::{should_forward, socket_step, Received, SocketAction, SyncEvent};
use obsidian_nas_server::trash::{restore_check, restore_event, trash_record};
use obsidian_nas_server::clock::{self, Instant};

#[test]
fn copy_name_with_extension() {
    assert_eq!(
        conflict_copy_name("notes/foo.md", "dev", "20260101-0000"),
        "notes/foo (conflict-dev-20260101-0000).md"
    );
}

#[test]
fn copy_name_without_extension() {
    assert_eq!(
        conflict_copy_name("notes/foo", "dev", "20260101-0000"),
        "notes/foo (conflict-dev-20260101-0000)"
    );
}

#[test]
fn copy_name_edge_cases() {
    assert_eq!(conflict_copy_name(".hidden", "d", "t"), ".hidden (conflict-d-t)");
    assert_eq!(conflict_copy_name("dir/.rc", "d", "t"), "dir/.rc (conflict-d-t)");
    assert_eq!(conflict_copy_name("a.tar.gz", "d", "t"), "a.tar (conflict-d-t).gz");
    assert_eq!(conflict_copy_name("notes.d/foo", "d", "t"), "notes.d/foo (conflict-d-t)");
    assert_eq!(conflict_copy_name("v1.2/notes", "d", "t"), "v1.2/notes (conflict-d-t)");
    assert_eq!(conflict_copy_name("v1.2/a.md", "d", "t"), "v1.2/a (conflict-d-t).md");
    assert_eq!(conflict_copy_name("a/b/", "d", "t"), "a/b/ (conflict-d-t)");
}

#[test]
fn labels_are_filesystem_safe() {
    assert_eq!(sanitize_label("My Mac/Book.pro"), "My_Mac_Book_pro");
    assert_eq!(sanitize_label("맥북-1_x"), "맥북-1_x");
    assert_eq!(sanitize_label("abcdefghijklmnopqrstuvwxyz0123"), "abcdefghijklmnopqrstuvwx");
    for name in ["a b", "../x", "é!", "日本語の名前がとても長いデバイスの名前です。はい"] {
        let expect: String = name
            .chars()
            .map(|c| if c.is_alphanumeric() || c == '-' || c == '_' { c } else { '_' })
            .collect::<String>()
            .chars()
            .take(24)
            .collect();
        assert_eq!(sanitize_label(name), expect);
    }
}

#[test]
fn choices_parse() {
    assert_eq!(parse_choice("keep_active").unwrap(), Resolution::KeepActive);
    assert_eq!(parse_choice("use_other").unwrap(), Resolution::UseOther);
    assert_eq!(parse_choice("keep_both").unwrap(), Resolution::KeepBoth);
    match parse_choice("merge") {
        Err(AppError::BadRequest(m)) => assert_eq!(
            m,
            "unknown choice: merge (expected keep_active | use_other | keep_both)"
        ),
        other => panic!("{other:?}"),
    }
}

#[test]
fn keep_both_names_the_losing_device() {
    assert_eq!(keep_both_path("n/a.md", Some("My Phone"), "20260101-0000"), "n/a (conflict-My_Phone-20260101-0000).md");
    assert_eq!(keep_both_path("n/a.md", None, "20260101-0000"), "n/a (conflict-unknown-20260101-0000).md");
}

#[test]
fn resolution_events_reach_the_right_devices() {
    assert!(resolution_event(Resolution::KeepActive, "p", "e", 1, Some("d")).is_none());
    match resolution_event(Resolution::UseOther, "p", "e", 3, Some("dev1")).unwrap() {
        SyncEvent::FileChanged { path, etag, size, origin_device } => {
            assert_eq!((path.as_str(), etag.as_str(), size, origin_device.as_str()), ("p", "e", 3, "dev1"));
        }
        other => panic!("{other:?}"),
    }
    let admin = resolution_event(Resolution::UseOther, "p", "e", 3, None).unwrap();
    assert_eq!(admin.origin(), "");
    let both = resolution_event(Resolution::KeepBoth, "p (c).md", "e", 3, Some("dev1")).unwrap();
    assert_eq!(both.origin(), "");
    assert!(should_forward(&both, "dev1"));
}

#[test]
fn constant_time_comparison() {
    assert!(constant_time_eq(b"secret", b"secret"));
    assert!(!constant_time_eq(b"secret", b"secreT"));
    assert!(!constant_time_eq(b"secret", b"secre"));
    assert!(constant_time_eq(b"", b""));
}

#[test]
fn token_from_header_or_query() {
    assert_eq!(query_token("a=1&token=abc.def&token=x"), Some("abc.def".to_string()));
    assert_eq!(query_token("tokens=1&x"), None);
    assert_eq!(query_token("token="), Some(String::new()));
    assert_eq!(request_token(Some("Bearer xyz"), Some("token=q")), Some("xyz".to_string()));
    assert_eq!(request_token(Some("Basic xyz"), Some("token=q")), Some("q".to_string()));
    assert_eq!(request_token(None, Some("a=b")), None);
    assert_eq!(request_token(None, None), None);
}

#[test]
fn revoked_devices_are_refused() {
    let c = Claims { sub: "id".into(), name: "n".into(), platform: None, iat: 0, exp: 1 };
    let d = admit_device(c.clone(), Some(None)).unwrap();
    assert_eq!((d.id.as_str(), d.name.as_str()), ("id", "n"));
    assert!(matches!(admit_device(c.clone(), Some(Some("2026".into()))), Err(AppError::Unauthorized)));
    assert!(matches!(admit_device(c, None), Err(AppError::Unauthorized)));
}

#[test]
fn issued_tokens_verify_and_carry_claims() {
    let token = issue("dev-1", "Mac", Some("macos"), "s3cret", 365).unwrap();
    let data = jsonwebtoken::decode::<serde_json::Value>(
        &token,
        &jsonwebtoken::DecodingKey::from_secret(b"s3cret"),
        &jsonwebtoken::Validation::default(),
    )
    .unwrap();
    let c = data.claims;
    assert_eq!(c["sub"], "dev-1");
    assert_eq!(c["name"], "Mac");
    assert_eq!(c["platform"], "macos");
    assert_eq!(c["exp"].as_i64().unwrap() - c["iat"].as_i64().unwrap(), 365 * 86400);
    let payload = token.split('.').nth(1).unwrap();
    assert!(payload.starts_with("eyJzdWIiOi"), "claims start with sub: {payload}");
    let bad = jsonwebtoken::decode::<serde_json::Value>(
        &token,
        &jsonwebtoken::DecodingKey::from_secret(b"other"),
        &jsonwebtoken::Validation::default(),
    );
    assert!(bad.is_err());
    let none = issue("d", "n", None, "k", 1).unwrap();
    let v = jsonwebtoken::decode::<serde_json::Value>(
        &none,
        &jsonwebtoken::DecodingKey::from_secret(b"k"),
        &jsonwebtoken::Validation::default(),
    )
    .unwrap();
    assert!(v.claims["platform"].is_null());
    match issue("d", "n", None, "k", u32::MAX) {
        Err(AppError::Internal(m)) => assert_eq!(m, "token expiry out of range"),
        other => panic!("{other:?}"),
    }
}

fn encode_value(claims: serde_json::Map<String, serde_json::Value>, secret: &[u8]) -> String {
    jsonwebtoken::encode(
        &jsonwebtoken::Header::default(),
        &serde_json::Value::Object(claims),
        &jsonwebtoken::EncodingKey::from_secret(secret),
    )
    .unwrap()
}

fn claim_map(pairs: Vec<(&str, serde_json::Value)>) -> serde_json::Map<String, serde_json::Value> {
    let mut m = serde_json::Map::new();
    for (k, v) in pairs {
        m.insert(k.to_string(), v);
    }
    m
}

#[test]
fn issue_at_gives_the_encoded_token() {
    let t = issue_at("dev-1", "Mac", Some("macos"), "k", 2, 1_000);
    let expected = encode_value(
        claim_map(vec![
            ("sub", "dev-1".into()),
            ("name", "Mac".into()),
            ("platform", "macos".into()),
            ("iat", 1_000.into()),
            ("exp", (1_000 + 2 * 86_400).into()),
        ]),
        b"k",
    );
    assert_eq!(t, expected);
}

#[test]
fn verify_round_trips_issued_tokens() {
    let token = issue("dev-1", "Mac", Some("macos"), "s3cret", 365).unwrap();
    let c = verify(&token, "s3cret").unwrap();
    assert_eq!((c.sub.as_str(), c.name.as_str(), c.platform.as_deref()), ("dev-1", "Mac", Some("macos")));
    assert_eq!(c.exp - c.iat, 365 * 86_400);
    assert!(matches!(verify(&token, "other"), Err(AppError::Unauthorized)));
    assert!(matches!(verify("not.a.token", "s3cret"), Err(AppError::Unauthorized)));
    let none = issue("d", "n", None, "k", 1).unwrap();
    assert_eq!(verify(&none, "k").unwrap().platform, None);
    // Expired long ago (beyond the leeway).
    let old = issue_at("d", "n", None, "k", 0, 1_000);
    assert!(matches!(verify(&old, "k"), Err(AppError::Unauthorized)));
}

#[test]
fn verify_follows_default_validation() {
    let future = 4_000_000_000i64;
    let base = |extra: Vec<(&str, serde_json::Value)>| {
        let mut v = vec![
            ("sub", serde_json::Value::from("d")),
            ("name", "n".into()),
            ("iat", 1.into()),
            ("exp", future.into()),
        ];
        v.extend(extra);
        encode_value(claim_map(v), b"k")
    };
    // platform may be absent or null.
    assert_eq!(verify(&base(vec![]), "k").unwrap().platform, None);
    assert_eq!(verify(&base(vec![("platform", serde_json::Value::Null)]), "k").unwrap().platform, None);
    // an audience is refused, as are claims of the wrong type.
    assert!(verify(&base(vec![("aud", "x".into())]), "k").is_err());
    assert!(verify(&base(vec![("platform", 3.into())]), "k").is_err());
    let no_exp = encode_value(claim_map(vec![("sub", "d".into()), ("name", "n".into()), ("iat", 1.into())]), b"k");
    assert!(verify(&no_exp, "k").is_err());
}

#[test]
fn token_expiry_allows_a_minute_of_skew() {
    let c = Claims { sub: "d".into(), name: "n".into(), platform: None, iat: 0, exp: 100 };
    assert_eq!(check_token(Some(c.clone()), 160).unwrap().exp, 100);
    assert!(matches!(check_token(Some(c), 161), Err(AppError::Unauthorized)));
    assert!(matches!(check_token(None, 0), Err(AppError::Unauthorized)));
}

#[test]
fn pairing_rules() {
    let req = |code: &str, name: &str| PairRequest {
        pairing_code: code.to_string(),
        name: name.to_string(),
        platform: None,
    };
    assert!(matches!(check_pairing(None, &req("x", "n")), Err(AppError::Unauthorized)));
    assert!(matches!(check_pairing(Some("code"), &req("cod", "n")), Err(AppError::Unauthorized)));
    match check_pairing(Some("code"), &req("code", " \t\u{3000}")) {
        Err(AppError::BadRequest(m)) => assert_eq!(m, "name is required"),
        other => panic!("{other:?}"),
    }
    assert!(check_pairing(Some("code"), &req("code", " Mac ")).is_ok());
    let resp = pair_response(&req("code", "Mac"), "dev-9".to_string(), "k", 30, clock::current().unwrap().secs).unwrap();
    assert_eq!(resp.device_id, "dev-9");
    let c = verify(&resp.token, "k").unwrap();
    assert_eq!((c.sub.as_str(), c.name.as_str()), ("dev-9", "Mac"));
    assert_eq!(c.exp - c.iat, 30 * 86_400);
    match pair_response(&req("code", "Mac"), "dev-9".to_string(), "k", u32::MAX, 1_000) {
        Err(AppError::Internal(m)) => assert_eq!(m, "token expiry out of range"),
        other => panic!("{other:?}"),
    }
}

#[test]
fn white_space_matches_std() {
    for u in 0..=0x10FFFFu32 {
        if let Some(c) = char::from_u32(u) {
            assert_eq!(obsidian_nas_server::text::white_space(c), c.is_whitespace(), "{u:x}");
        }
    }
}

#[test]
fn if_match_strips_quotes() {
    assert_eq!(if_match(Some("\"abc\"")), Some("abc".to_string()));
    assert_eq!(if_match(Some("abc")), Some("abc".to_string()));
    assert_eq!(if_match(Some("\"\"")), None);
    assert_eq!(if_match(Some("")), None);
    assert_eq!(if_match(None), None);
    assert_eq!(if_match(Some("\"a\"b\"")), Some("a\"b".to_string()));
    assert!(none_match_hits("\"e1\"", "e1"));
    assert!(!none_match_hits("\"e1\"", "e2"));
}

#[test]
fn put_policy() {
    assert!(matches!(decide_put(None, None), Ok(PutOutcome::Create)));
    match decide_put(None, Some("e")) {
        Err(AppError::EtagMismatch { current }) => assert_eq!(current, ""),
        other => panic!("{other:?}"),
    }
    match decide_put(Some("e1"), Some("e1")) {
        Ok(PutOutcome::Modify { etag_before }) => assert_eq!(etag_before, "e1"),
        other => panic!("{other:?}"),
    }
    for im in [Some("e0"), None] {
        match decide_put(Some("e1"), im) {
            Ok(PutOutcome::Conflict { etag_before }) => assert_eq!(etag_before, "e1"),
            other => panic!("{other:?}"),
        }
    }
    assert_eq!(PutOutcome::Create.audit_op(), "create");
    assert_eq!(PutOutcome::Conflict { etag_before: "x".into() }.etag_before(), Some("x".to_string()));
}

#[test]
fn put_events_in_order() {
    let ev = put_events(&PutOutcome::Conflict { etag_before: "old".into() }, "p", "new", 5, "dev", "cid");
    assert_eq!(ev.len(), 2);
    match &ev[0] {
        SyncEvent::FileConflict { path, active_etag, losing_etag, conflict_id, origin_device } => {
            assert_eq!(
                (path.as_str(), active_etag.as_str(), losing_etag.as_str(), conflict_id.as_str(), origin_device.as_str()),
                ("p", "new", "old", "cid", "dev")
            );
        }
        other => panic!("{other:?}"),
    }
    assert!(matches!(&ev[1], SyncEvent::FileChanged { .. }));
    let ev = put_events(&PutOutcome::Create, "p", "new", 5, "dev", "cid");
    assert_eq!(ev.len(), 1);
    assert!(!should_forward(&ev[0], "dev"));
    assert!(should_forward(&ev[0], "other"));
}

#[test]
fn delete_policy() {
    assert!(matches!(decide_delete(None, Some("e")), Err(AppError::NotFound)));
    assert!(decide_delete(Some("e"), Some("e")).is_ok());
    for im in [Some("x"), None] {
        match decide_delete(Some("e"), im) {
            Err(AppError::EtagMismatch { current }) => assert_eq!(current, "e"),
            other => panic!("{other:?}"),
        }
    }
}

#[test]
fn restore_rules() {
    assert!(restore_check("a.md", false).is_ok());
    match restore_check("a.md", true) {
        Err(AppError::BadRequest(m)) => {
            assert_eq!(m, "path 'a.md' already exists in the vault; delete or rename it first")
        }
        other => panic!("{other:?}"),
    }
    assert_eq!(restore_event("a.md", "e", 1).origin(), "");
}

#[test]
fn trash_records_use_utc_days() {
    let now = Instant { secs: 1781094600, nanos: 5 };
    let t = trash_record(now, 30, "tid", "notes/a.md").unwrap();
    assert_eq!(t.stored_rel, "2026-06-10/tid/notes__a.md");
    assert_eq!(t.deleted_at, "2026-06-10T12:30:00.000000005+00:00");
    assert_eq!(t.expires_at, "2026-07-10T12:30:00.000000005+00:00");
    assert_eq!(clock::minute_label(now), "20260610-1230");
    assert!(trash_record(now, u32::MAX, "t", "a").is_err());
    let n = clock::now().unwrap();
    assert!(n.secs > 1_700_000_000 && n.nanos < 1_000_000_000);
    let c = clock::current().unwrap();
    assert!(c.secs >= n.secs);
}

#[test]
fn events_skip_their_origin() {
    let e = SyncEvent::FileDeleted { path: "p".into(), origin_device: "d1".into() };
    assert_eq!(e.origin(), "d1");
    assert!(!should_forward(&e, "d1"));
    assert!(should_forward(&e, "d2"));
}

#[test]
fn served_etag_round_trips() {
    let etag = obsidian_nas_server::storage::etag_of(b"hello");
    let h = etag_header(&etag);
    assert_eq!(h, format!("\"{etag}\""));
    assert_eq!(if_match(Some(&h)), Some(etag.clone()));
    assert!(none_match_hits(&h, &etag));
    assert_eq!(etag_header(""), "\"\"");
}

#[test]
fn conflicts_record_the_losing_version_and_its_author() {
    let conflict = PutOutcome::Conflict { etag_before: "old".into() };
    let rec = conflict_record(&conflict, "cid", "notes/a.md", "new", Some("dev-a"), "2026-06-10").unwrap();
    assert_eq!(rec.id, "cid");
    assert_eq!(rec.path, "notes/a.md");
    assert_eq!(rec.active_etag, "new");
    assert_eq!(rec.losing_etag, "old");
    assert_eq!(rec.stored_path, "cid/notes__a.md.bin");
    assert_eq!(rec.losing_device.as_deref(), Some("dev-a"));
    assert_eq!(rec.detected_at, "2026-06-10");
    assert!(conflict_record(&PutOutcome::Create, "cid", "a", "e", None, "t").is_none());
}

#[test]
fn socket_forwards_others_events_in_order_until_closed() {
    let ev = |path: &str, origin: &str| SyncEvent::FileDeleted {
        path: path.to_string(),
        origin_device: origin.to_string(),
    };
    let received = vec![
        Received::Event(ev("a", "d2")),
        Received::Event(ev("b", "me")),
        Received::Lagged(3),
        Received::Event(ev("c", "")),
        Received::Closed,
        Received::Event(ev("d", "d2")),
    ];
    let mut sent = Vec::new();
    for r in received {
        match socket_step(r, "me") {
            SocketAction::Send(SyncEvent::FileDeleted { path, .. }) => sent.push(path),
            SocketAction::Send(other) => panic!("{other:?}"),
            SocketAction::Skip => continue,
            SocketAction::Stop => break,
        }
    }
    assert_eq!(sent, vec!["a".to_string(), "c".to_string()]);
}

#[test]
fn audit_rows_of_each_change() {
    let w = write_audit(&PutOutcome::Modify { etag_before: "e0".into() }, "a.md", "e1", 5, "dev", "t");
    assert_eq!((w.ts.as_str(), w.op.as_str(), w.path.as_str()), ("t", "modify", "a.md"));
    assert_eq!((w.device.as_deref(), w.etag_before.as_deref(), w.etag_after.as_deref(), w.size), (Some("dev"), Some("e0"), Some("e1"), Some(5)));
    let c = write_audit(&PutOutcome::Create, "a.md", "e1", 5, "dev", "t");
    assert_eq!((c.op.as_str(), c.etag_before.as_deref()), ("create", None));
    let d = delete_audit("a.md", "dev", "e1", 5, "t");
    assert_eq!((d.op.as_str(), d.etag_before.as_deref(), d.etag_after.as_deref()), ("delete", Some("e1"), None));
    let r = restore_audit("a.md", "e1", 5, "t");
    assert_eq!((r.op.as_str(), r.device.as_deref(), r.etag_after.as_deref()), ("restore", None, Some("e1")));
    let p = purge_audit("a.md", "t");
    assert_eq!((p.op.as_str(), p.size), ("trash_purged", None));
    let x = resolution_audit("a.md", Some("dev"), "t");
    assert_eq!((x.op.as_str(), x.device.as_deref()), ("conflict_resolved", Some("dev")));
    assert_eq!(resolution_audit("a.md", None, "t").device, None);
}

#[test]
fn tokens_at_given_clock_readings() {
    let t = issue_until("dev", "Mac", None, "k", 1, 1_000).unwrap();
    assert_eq!(t, issue_at("dev", "Mac", None, "k", 1, 1_000));
    let c = verify_at(&t, "k", 1_000 + 86_400 + 60).unwrap();
    assert_eq!((c.sub.as_str(), c.iat, c.exp), ("dev", 1_000, 1_000 + 86_400));
    assert!(matches!(verify_at(&t, "k", 1_000 + 86_400 + 61), Err(AppError::Unauthorized)));
    assert!(matches!(verify_at(&t, "other", 1_000), Err(AppError::Unauthorized)));
    match issue_until("dev", "Mac", None, "k", 2, 8_210_266_876_799 - 86_400) {
        Err(AppError::Internal(m)) => assert_eq!(m, "token expiry out of range"),
        other => panic!("{other:?}"),
    }
    assert!(issue_until("dev", "Mac", None, "k", 1, 8_210_266_876_799 - 86_400).is_ok());
}

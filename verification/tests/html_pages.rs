use obsidian_nas_server::admin::{
    admin_gate, error_notice, login_outcome, LoginOutcome, lang_code, lang_of, layout, layout_bare, login_html, msg_html,
    notice_location, ok_notice, read_cookie, revoke_notice, tr, Gate, Lang, PAGE_HEAD, PAGE_TAIL,
};
use obsidian_nas_server::config::{path_join, Config};
use obsidian_nas_server::error::AppError;
use obsidian_nas_server::html::{
    esc, ext_of, human_size, image_mime, int_to_text, raw_content_type, text_ext, urlenc,
};
use obsidian_nas_server::pages::{
    clip, download_disposition, like_pattern, needs_preview_read, render_pane, search_query,
};

fn reference_esc(s: &str) -> String {
    s.replace('&', "&amp;")
        .replace('<', "&lt;")
        .replace('>', "&gt;")
        .replace('"', "&quot;")
}

fn reference_urlenc(s: &str) -> String {
    s.bytes()
        .map(|b| match b {
            b'A'..=b'Z' | b'a'..=b'z' | b'0'..=b'9' | b'-' | b'_' | b'.' | b'~' => {
                (b as char).to_string()
            }
            _ => format!("%{:02X}", b),
        })
        .collect()
}

fn reference_human_size(bytes: i64) -> String {
    let b = bytes as f64;
    if b >= 1_073_741_824.0 {
        format!("{:.2} GB", b / 1_073_741_824.0)
    } else if b >= 1_048_576.0 {
        format!("{:.1} MB", b / 1_048_576.0)
    } else if b >= 1024.0 {
        format!("{:.1} KB", b / 1024.0)
    } else {
        format!("{bytes} B")
    }
}

fn reference_ext_of(path: &str) -> String {
    path.rsplit('.').next().unwrap_or("").to_ascii_lowercase()
}

#[test]
fn esc_replaces_the_four_specials() {
    assert_eq!(esc("a<b>&\"c'"), "a&lt;b&gt;&amp;&quot;c'");
    assert_eq!(esc(""), "");
    assert_eq!(esc("&amp;"), "&amp;amp;");
    for s in ["<script>alert(\"x\")</script>", "plain 한국어", "&&<<>>\"\""] {
        assert_eq!(esc(s), reference_esc(s));
    }
}

#[test]
fn escaped_text_cannot_open_a_tag() {
    let e = esc("<img src=x onerror=\"y\">");
    assert!(!e.contains('<') && !e.contains('>') && !e.contains('"'));
}

#[test]
fn urlenc_keeps_unreserved_bytes() {
    assert_eq!(urlenc("a b/ü~"), "a%20b%2F%C3%BC~");
    assert_eq!(urlenc("AZaz09-_.~"), "AZaz09-_.~");
    assert_eq!(urlenc(""), "");
    for s in ["notes/My File.md", "한글.md", "50%+&=?#", "\u{1F600}"] {
        assert_eq!(urlenc(s), reference_urlenc(s));
    }
}

#[test]
fn int_to_text_matches_display() {
    for n in [0i64, 1, -1, 9, 10, 12345, -987654321, i64::MAX, i64::MIN] {
        assert_eq!(int_to_text(n), n.to_string());
    }
}

#[test]
fn human_size_units() {
    assert_eq!(human_size(0), "0 B");
    assert_eq!(human_size(1023), "1023 B");
    assert_eq!(human_size(-5), "-5 B");
    assert_eq!(human_size(1024), "1.0 KB");
    assert_eq!(human_size(1536), "1.5 KB");
    assert_eq!(human_size(1_048_576), "1.0 MB");
    assert_eq!(human_size(1_073_741_824), "1.00 GB");
    assert_eq!(human_size(5_368_709_120), "5.00 GB");
}

#[test]
fn human_size_matches_float_formatting() {
    let mut values: Vec<i64> = vec![
        1024 + 51,
        1024 + 52,
        1024 + 102,
        1_048_575,
        1_048_576 + 52_428,
        1_048_576 + 52_429,
        1_073_741_823,
        1_207_959_552,
        1_084_479_242,
        1_084_479_243,
        i64::MAX,
        i64::MAX - 1,
        9_007_199_254_740_993,
        123_456_789_012_345,
        i64::MIN,
    ];
    let mut x: u64 = 0x9E37_79B9_7F4A_7C15;
    for _ in 0..2000 {
        x ^= x << 13;
        x ^= x >> 7;
        x ^= x << 17;
        let shift = (x % 60) as u32;
        values.push(((x >> 4) >> shift) as i64);
    }
    for k in 1024i64..4096 {
        values.push(k);
    }
    for v in values {
        assert_eq!(human_size(v), reference_human_size(v), "bytes = {v}");
    }
}

#[test]
fn ext_of_takes_the_last_dot_piece_lowercased() {
    assert_eq!(ext_of("notes/Readme.MD"), "md");
    assert_eq!(ext_of("archive.tar.GZ"), "gz");
    assert_eq!(ext_of("noext"), "noext");
    assert_eq!(ext_of("dir.d/file"), "d/file");
    assert_eq!(ext_of("trailing."), "");
    for p in ["a/B.Png", "x.yaml", "", ".hidden", "한글.TXT"] {
        assert_eq!(ext_of(p), reference_ext_of(p));
    }
}

#[test]
fn file_types() {
    assert_eq!(image_mime("png"), Some("image/png"));
    assert_eq!(image_mime("jpg"), Some("image/jpeg"));
    assert_eq!(image_mime("svg"), Some("image/svg+xml"));
    assert_eq!(image_mime("md"), None);
    assert_eq!(raw_content_type("webp"), "image/webp");
    assert_eq!(raw_content_type("pdf"), "application/octet-stream");
    for e in ["md", "txt", "json", "canvas", "base", "csv", "log", "yml", "yaml", "toml"] {
        assert!(text_ext(e));
    }
    assert!(!text_ext("png"));
    assert!(!text_ext("MD"));
}

#[test]
fn translations() {
    assert_eq!(tr(Lang::En, "files"), "Files");
    assert_eq!(tr(Lang::Ko, "files"), "파일");
    assert_eq!(tr(Lang::En, "activity"), "Activity");
    assert_eq!(tr(Lang::Ko, "activity"), "활동 로그");
    assert_eq!(tr(Lang::En, "no_such_key"), "?");
    assert_eq!(tr(Lang::Ko, "no_such_key"), "?");
}

#[test]
fn cookies_and_language() {
    assert_eq!(read_cookie(Some("a=1; ons_lang=en"), "ons_lang"), Some("en".to_string()));
    assert_eq!(read_cookie(Some("ons_admin=abc;ons_lang=ko"), "ons_admin"), Some("abc".to_string()));
    assert_eq!(read_cookie(Some("  ons_admin=x  "), "ons_admin"), Some("x".to_string()));
    assert_eq!(read_cookie(Some("ons_admin2=x"), "ons_admin"), None);
    assert_eq!(read_cookie(Some("a=1; a=2"), "a"), Some("1".to_string()));
    assert_eq!(read_cookie(None, "a"), None);
    assert_eq!(lang_of(Some("ons_lang=en")), Lang::En);
    assert_eq!(lang_of(Some("ons_lang=ko")), Lang::Ko);
    assert_eq!(lang_of(Some("ons_lang=EN")), Lang::Ko);
    assert_eq!(lang_of(None), Lang::Ko);
    assert_eq!(lang_code("en"), "en");
    assert_eq!(lang_code("fr"), "ko");
}

#[test]
fn console_gate() {
    assert_eq!(admin_gate(false, true), Gate::Disabled);
    assert_eq!(admin_gate(true, false), Gate::Login);
    assert_eq!(admin_gate(true, true), Gate::Allowed);
}

#[test]
fn bare_layout_wraps_content() {
    let page = layout_bare("<p>x</p>");
    assert_eq!(page, format!("{PAGE_HEAD}<p>x</p>{PAGE_TAIL}"));
    assert!(page.starts_with("<!doctype html><html><head><meta charset=\"utf-8\">\n"));
    assert!(page.contains("\n*{box-sizing:border-box}\n"));
    assert!(page.ends_with("</style></head><body><p>x</p></body></html>"));
}

#[test]
fn login_page_markup() {
    for (l, wrong) in [(Lang::Ko, false), (Lang::En, true)] {
        let err = if wrong {
            format!(r#"<p class="err">{}</p>"#, tr(l, "wrong_password"))
        } else {
            String::new()
        };
        let expected = layout_bare(&format!(
            r#"<form method="post" action="/admin/login" class="card">
            <h2>NAS Sync</h2>{err}
            <input type="password" name="password" placeholder="{}" autofocus>
            <button type="submit" class="primary">{}</button>
            <p class="lang"><a href="/admin/lang/ko">한국어</a> · <a href="/admin/lang/en">English</a></p>
        </form>"#,
            tr(l, "password"),
            tr(l, "sign_in"),
        ));
        assert_eq!(login_html(l, wrong), expected);
    }
}

#[test]
fn console_layout_markup() {
    let items = [
        ("activity", "📋"),
        ("files", "📁"),
        ("conflicts", "⚠️"),
        ("trash", "🗑"),
        ("devices", "💻"),
        ("settings", "⚙️"),
    ];
    for l in [Lang::Ko, Lang::En] {
        let active = "files";
        let mut nav = String::new();
        for (slug, icon) in items {
            let cls = if slug == active { " class=\"on\"" } else { "" };
            nav.push_str(&format!(
                r#"<a href="/admin/{slug}"{cls}><span class="ico">{icon}</span><span class="lbl">{}</span></a>"#,
                tr(l, slug)
            ));
        }
        let (lang_a, lang_b) = match l {
            Lang::Ko => (r#"<b>한국어</b>"#.to_string(), r#"<a href="/admin/lang/en">EN</a>"#.to_string()),
            Lang::En => (r#"<a href="/admin/lang/ko">한국어</a>"#.to_string(), "<b>EN</b>".to_string()),
        };
        let body = "<p>BODY</p>";
        let expected = layout_bare(&format!(
            r#"<div class="shell">
<aside><div class="logo">🗄 NAS Sync</div><nav>{nav}</nav>
<div class="aside-foot"><span class="lang">{lang_a} · {lang_b}</span>
<form method="post" action="/admin/logout"><button>{}</button></form></div></aside>
<main><header><h1>{}</h1></header><section>{body}</section></main></div>"#,
            tr(l, "logout"),
            tr(l, active),
        ));
        assert_eq!(layout(l, active, body), expected);
    }
}

#[test]
fn notices() {
    assert_eq!(msg_html(Some("a<b")), r#"<p class="msg">a&lt;b</p>"#);
    assert_eq!(msg_html(None), "");
    assert_eq!(ok_notice(None), "OK");
    assert_eq!(ok_notice(Some("keep_both")), "OK: keep_both");
    assert_eq!(error_notice(&AppError::NotFound), "error: not found");
    assert_eq!(error_notice(&AppError::BadRequest("x".into())), "error: bad request: x");
    assert_eq!(revoke_notice(1), "OK");
    assert_eq!(revoke_notice(0), "not found / already revoked");
    assert_eq!(notice_location("devices", "OK: a b"), "/admin/devices?msg=OK%3A%20a%20b");
}

#[test]
fn error_answers() {
    let cases: Vec<(AppError, u16, &str, &str)> = vec![
        (AppError::NotFound, 404, "not_found", "not found"),
        (AppError::EtagMismatch { current: "e".into() }, 412, "etag_mismatch", "etag mismatch"),
        (AppError::InvalidPath, 400, "invalid_path", "invalid path"),
        (AppError::Unauthorized, 401, "unauthorized", "unauthorized"),
        (AppError::BadRequest("m".into()), 400, "bad_request", "bad request: m"),
        (AppError::Io("disk".into()), 500, "io", "io: disk"),
        (AppError::Db("locked".into()), 500, "db", "db: locked"),
        (AppError::Internal("boom".into()), 500, "internal", "internal: boom"),
    ];
    for (e, status, code, text) in cases {
        assert_eq!(e.status_code(), status);
        assert_eq!(e.error_code(), code);
        assert_eq!(e.describe(), text);
    }
}

#[test]
fn config_defaults() {
    let c = Config::default();
    assert_eq!(c.bind, "0.0.0.0:8080");
    assert_eq!(c.data_dir, "./data");
    assert_eq!(c.vault_path, "./data/vault");
    assert_eq!(c.trash_path, "./data/trash");
    assert_eq!(c.conflicts_path, "./data/conflicts");
    assert_eq!(c.db_path, "./data/meta.db");
    assert_eq!(c.trash_ttl_days, 30);
    assert_eq!(c.max_file_size_mb, 100);
    assert_eq!(c.jwt_ttl_days, 365);
    assert!(c.pairing_code.is_none());
    assert!(c.admin_password.is_none());
    assert!(c.uses_placeholder_secret());
    assert_eq!(c.max_body_bytes(), 100 * 1024 * 1024);
    let other = Config { jwt_secret: "s3cret".into(), ..Config::default() };
    assert!(!other.uses_placeholder_secret());
}

#[test]
fn path_join_like_std() {
    for (b, n) in [("./data", "vault"), ("/srv/", "x"), ("", "meta.db"), ("a/b", "c")] {
        let expected = std::path::Path::new(b).join(n).to_string_lossy().into_owned();
        assert_eq!(path_join(b, n), expected);
    }
}

#[test]
fn comparison_panes() {
    assert_eq!(render_pane(b"a<b"), "<pre class=\"cmp-text\">a&lt;b</pre>");
    assert_eq!(render_pane(&[0xff, 0xfe]), "<pre class=\"cmp-text muted\">(binary)</pre>");
    let big = vec![b'a'; 262_145];
    assert_eq!(render_pane(&big), "<pre class=\"cmp-text\">(256 KB)</pre>");
    let edge = vec![b'a'; 262_144];
    assert!(render_pane(&edge).starts_with("<pre class=\"cmp-text\">aaa"));
}

#[test]
fn download_names() {
    assert_eq!(
        download_disposition("notes/My File.md"),
        "attachment; filename*=UTF-8''My%20File.md"
    );
    assert_eq!(download_disposition("top.txt"), "attachment; filename*=UTF-8''top.txt");
    assert_eq!(download_disposition("a/한.md"), "attachment; filename*=UTF-8''%ED%95%9C.md");
}

#[test]
fn file_search() {
    assert_eq!(search_query(Some("  hi ")), "hi");
    assert_eq!(search_query(None), "");
    assert_eq!(like_pattern("50%_x"), "%50\\%\\_x%");
    assert_eq!(like_pattern(""), "%%");
}

#[test]
fn clipping_and_previews() {
    assert_eq!(clip("hello", 3), "hel");
    assert_eq!(clip("hi", 10), "hi");
    assert_eq!(clip("한글", 3), "한");
    assert!(needs_preview_read("notes/a.md", 10));
    assert!(!needs_preview_read("notes/a.md", 262_145));
    assert!(!needs_preview_read("img/a.png", 10));
    assert!(!needs_preview_read("bin/a.exe", 10));
}

#[test]
fn url_encoding_is_url_safe() {
    for s in ["a b/ü~", "\u{0}\u{7f}\u{1F600}", "<>\"'&;=?#%", "plain-text_1.0~"] {
        let e = urlenc(s);
        assert!(e
            .chars()
            .all(|c| c.is_ascii_alphanumeric() || matches!(c, '-' | '_' | '.' | '~' | '%')));
        assert!(axum::http::HeaderValue::from_str(&e).is_ok());
    }
}

#[test]
fn login_decisions() {
    assert_eq!(login_outcome(None, "x"), LoginOutcome::Disabled);
    assert_eq!(login_outcome(Some("pw"), "pw"), LoginOutcome::Accepted);
    assert_eq!(login_outcome(Some("pw"), "pW"), LoginOutcome::Wrong);
    assert_eq!(login_outcome(Some("pw"), ""), LoginOutcome::Wrong);
}

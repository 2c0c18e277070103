//! The web admin console's page rendering (server-rendered HTML, EN/KO),
//! its language and session cookies, and who may see it.

use vstd::prelude::*;

use crate::auth::{find_stripped, first_stripped, opt_text};
use crate::html::{esc, escaped, decimal, push_decimal};
use crate::text::{
    chars_of, is_white_space, push_str, split_chars, split_on, str_eq, string_of,
    trim_white_space, trim_with,
};

verus! {

broadcast use vstd::string::group_string_axioms;

/// The console's languages.
#[derive(Debug, Clone, Copy, PartialEq, Eq)]
pub enum Lang {
    Ko,
    En,
}

/// The console's UI strings, by language. Unknown keys read `?`.
pub open spec fn tr_text(l: Lang, k: Seq<char>) -> Seq<char> {
    if k == "activity"@ {
        if l == Lang::Ko { "활동 로그"@ } else { "Activity"@ }
    } else if k == "files"@ {
        if l == Lang::Ko { "파일"@ } else { "Files"@ }
    } else if k == "conflicts"@ {
        if l == Lang::Ko { "충돌"@ } else { "Conflicts"@ }
    } else if k == "trash"@ {
        if l == Lang::Ko { "휴지통"@ } else { "Trash"@ }
    } else if k == "devices"@ {
        if l == Lang::Ko { "디바이스"@ } else { "Devices"@ }
    } else if k == "settings"@ {
        if l == Lang::Ko { "설정"@ } else { "Settings"@ }
    } else if k == "logout"@ {
        if l == Lang::Ko { "로그아웃"@ } else { "Logout"@ }
    } else if k == "sign_in"@ {
        if l == Lang::Ko { "로그인"@ } else { "Sign in"@ }
    } else if k == "password"@ {
        if l == Lang::Ko { "비밀번호"@ } else { "password"@ }
    } else if k == "wrong_password"@ {
        if l == Lang::Ko { "비밀번호가 올바르지 않습니다."@ } else { "Wrong password."@ }
    } else if k == "time"@ {
        if l == Lang::Ko { "시각 (UTC)"@ } else { "time (UTC)"@ }
    } else if k == "op"@ {
        if l == Lang::Ko { "작업"@ } else { "op"@ }
    } else if k == "path"@ {
        if l == Lang::Ko { "경로"@ } else { "path"@ }
    } else if k == "device"@ {
        if l == Lang::Ko { "디바이스"@ } else { "device"@ }
    } else if k == "size"@ {
        if l == Lang::Ko { "크기"@ } else { "size"@ }
    } else if k == "all_ops"@ {
        if l == Lang::Ko { "전체 작업"@ } else { "all ops"@ }
    } else if k == "search_ph"@ {
        if l == Lang::Ko { "파일 경로 검색…"@ } else { "search file paths…"@ }
    } else if k == "search"@ {
        if l == Lang::Ko { "검색"@ } else { "Search"@ }
    } else if k == "modified"@ {
        if l == Lang::Ko { "수정 시각"@ } else { "modified"@ }
    } else if k == "modified_by"@ {
        if l == Lang::Ko { "수정 디바이스"@ } else { "modified by"@ }
    } else if k == "download"@ {
        if l == Lang::Ko { "다운로드"@ } else { "download"@ }
    } else if k == "no_files"@ {
        if l == Lang::Ko { "검색 결과가 없습니다."@ } else { "No files matched."@ }
    } else if k == "files_shown"@ {
        if l == Lang::Ko { "표시 (최대 100건)"@ } else { "shown (max 100)"@ }
    } else if k == "no_conflicts"@ {
        if l == Lang::Ko { "미해결 충돌이 없습니다. 🎉"@ } else { "No unresolved conflicts. 🎉"@ }
    } else if k == "detected"@ {
        if l == Lang::Ko { "감지 시각"@ } else { "detected"@ }
    } else if k == "losing_device"@ {
        if l == Lang::Ko { "진 버전 디바이스"@ } else { "losing device"@ }
    } else if k == "action"@ {
        if l == Lang::Ko { "동작"@ } else { "action"@ }
    } else if k == "keep_active"@ {
        if l == Lang::Ko { "현재 유지"@ } else { "keep active"@ }
    } else if k == "use_other"@ {
        if l == Lang::Ko { "다른 버전 사용"@ } else { "use other"@ }
    } else if k == "keep_both"@ {
        if l == Lang::Ko { "둘 다 보관"@ } else { "keep both"@ }
    } else if k == "trash_empty"@ {
        if l == Lang::Ko { "휴지통이 비어 있습니다."@ } else { "Trash is empty."@ }
    } else if k == "deleted"@ {
        if l == Lang::Ko { "삭제 시각"@ } else { "deleted"@ }
    } else if k == "deleted_by"@ {
        if l == Lang::Ko { "삭제 디바이스"@ } else { "by"@ }
    } else if k == "expires"@ {
        if l == Lang::Ko { "만료일"@ } else { "expires"@ }
    } else if k == "restore"@ {
        if l == Lang::Ko { "복구"@ } else { "restore"@ }
    } else if k == "purge"@ {
        if l == Lang::Ko { "영구 삭제"@ } else { "purge"@ }
    } else if k == "purge_confirm"@ {
        if l == Lang::Ko { "영구적으로 삭제할까요?"@ } else { "Permanently delete?"@ }
    } else if k == "name"@ {
        if l == Lang::Ko { "이름"@ } else { "name"@ }
    } else if k == "platform"@ {
        if l == Lang::Ko { "플랫폼"@ } else { "platform"@ }
    } else if k == "paired"@ {
        if l == Lang::Ko { "페어링"@ } else { "paired"@ }
    } else if k == "last_seen"@ {
        if l == Lang::Ko { "마지막 접속"@ } else { "last seen"@ }
    } else if k == "status"@ {
        if l == Lang::Ko { "상태"@ } else { "status"@ }
    } else if k == "active"@ {
        if l == Lang::Ko { "활성"@ } else { "active"@ }
    } else if k == "revoked"@ {
        if l == Lang::Ko { "차단됨"@ } else { "revoked"@ }
    } else if k == "revoke"@ {
        if l == Lang::Ko { "차단"@ } else { "revoke"@ }
    } else if k == "revoke_confirm"@ {
        if l == Lang::Ko { "이 디바이스를 차단할까요? 다시 페어링해야 합니다."@ } else { "Revoke this device? It must pair again."@ }
    } else if k == "server_config"@ {
        if l == Lang::Ko { "서버 설정"@ } else { "Server configuration"@ }
    } else if k == "vault_stats"@ {
        if l == Lang::Ko { "보관함 상태"@ } else { "Vault status"@ }
    } else if k == "pairing_code"@ {
        if l == Lang::Ko { "페어링 코드"@ } else { "Pairing code"@ }
    } else if k == "pairing_disabled"@ {
        if l == Lang::Ko { "(미설정 — 페어링 비활성)"@ } else { "(unset — pairing disabled)"@ }
    } else if k == "trash_ttl"@ {
        if l == Lang::Ko { "휴지통 보관 기간"@ } else { "Trash retention"@ }
    } else if k == "days"@ {
        if l == Lang::Ko { "일"@ } else { "days"@ }
    } else if k == "max_file"@ {
        if l == Lang::Ko { "파일 크기 제한"@ } else { "Max file size"@ }
    } else if k == "jwt_ttl"@ {
        if l == Lang::Ko { "토큰 유효 기간"@ } else { "Token lifetime"@ }
    } else if k == "bind_addr"@ {
        if l == Lang::Ko { "바인드 주소"@ } else { "Bind address"@ }
    } else if k == "file_count"@ {
        if l == Lang::Ko { "파일 수"@ } else { "Files"@ }
    } else if k == "total_size"@ {
        if l == Lang::Ko { "총 용량"@ } else { "Total size"@ }
    } else if k == "db_size"@ {
        if l == Lang::Ko { "DB 크기"@ } else { "DB size"@ }
    } else if k == "active_devices"@ {
        if l == Lang::Ko { "활성 디바이스"@ } else { "Active devices"@ }
    } else if k == "trash_count"@ {
        if l == Lang::Ko { "휴지통 항목"@ } else { "Items in trash"@ }
    } else if k == "open_conflicts"@ {
        if l == Lang::Ko { "미해결 충돌"@ } else { "Open conflicts"@ }
    } else if k == "audit_rows"@ {
        if l == Lang::Ko { "로그 행 수"@ } else { "Audit rows"@ }
    } else if k == "preview"@ {
        if l == Lang::Ko { "미리보기"@ } else { "Preview"@ }
    } else if k == "back_to_list"@ {
        if l == Lang::Ko { "← 목록으로"@ } else { "← Back to list"@ }
    } else if k == "no_preview"@ {
        if l == Lang::Ko { "이 형식은 미리보기를 지원하지 않습니다."@ } else { "Preview is not available for this file type."@ }
    } else if k == "too_large"@ {
        if l == Lang::Ko { "파일이 커서 미리보기를 표시하지 않습니다 (256 KB 제한)."@ } else { "File too large to preview (256 KB limit)."@ }
    } else if k == "compare"@ {
        if l == Lang::Ko { "비교"@ } else { "Compare"@ }
    } else if k == "current_version"@ {
        if l == Lang::Ko { "현재 버전 (활성)"@ } else { "Current version (active)"@ }
    } else if k == "other_version"@ {
        if l == Lang::Ko { "다른 기기 버전"@ } else { "Other device's version"@ }
    } else if k == "missing_local"@ {
        if l == Lang::Ko { "(활성 버전이 없습니다)"@ } else { "(no active version)"@ }
    } else if k == "binary_file"@ {
        if l == Lang::Ko { "(바이너리 파일 — 미리보기 불가)"@ } else { "(binary file — cannot preview)"@ }
    } else if k == "back_to_conflicts"@ {
        if l == Lang::Ko { "← 충돌 목록"@ } else { "← Back to conflicts"@ }
    } else {
        "?"@
    }
}

/// All UI chrome strings. Technical op names (create/modify/…) stay as-is.
pub fn tr(l: Lang, k: &str) -> (r: &'static str)
    ensures
        r@ == tr_text(l, k@),
{
    let ko = match l { Lang::Ko => true, Lang::En => false };
    if str_eq(k, "activity") {
        if ko { "활동 로그" } else { "Activity" }
    } else if str_eq(k, "files") {
        if ko { "파일" } else { "Files" }
    } else if str_eq(k, "conflicts") {
        if ko { "충돌" } else { "Conflicts" }
    } else if str_eq(k, "trash") {
        if ko { "휴지통" } else { "Trash" }
    } else if str_eq(k, "devices") {
        if ko { "디바이스" } else { "Devices" }
    } else if str_eq(k, "settings") {
        if ko { "설정" } else { "Settings" }
    } else if str_eq(k, "logout") {
        if ko { "로그아웃" } else { "Logout" }
    } else if str_eq(k, "sign_in") {
        if ko { "로그인" } else { "Sign in" }
    } else if str_eq(k, "password") {
        if ko { "비밀번호" } else { "password" }
    } else if str_eq(k, "wrong_password") {
        if ko { "비밀번호가 올바르지 않습니다." } else { "Wrong password." }
    } else if str_eq(k, "time") {
        if ko { "시각 (UTC)" } else { "time (UTC)" }
    } else if str_eq(k, "op") {
        if ko { "작업" } else { "op" }
    } else if str_eq(k, "path") {
        if ko { "경로" } else { "path" }
    } else if str_eq(k, "device") {
        if ko { "디바이스" } else { "device" }
    } else if str_eq(k, "size") {
        if ko { "크기" } else { "size" }
    } else if str_eq(k, "all_ops") {
        if ko { "전체 작업" } else { "all ops" }
    } else if str_eq(k, "search_ph") {
        if ko { "파일 경로 검색…" } else { "search file paths…" }
    } else if str_eq(k, "search") {
        if ko { "검색" } else { "Search" }
    } else if str_eq(k, "modified") {
        if ko { "수정 시각" } else { "modified" }
    } else if str_eq(k, "modified_by") {
        if ko { "수정 디바이스" } else { "modified by" }
    } else if str_eq(k, "download") {
        if ko { "다운로드" } else { "download" }
    } else if str_eq(k, "no_files") {
        if ko { "검색 결과가 없습니다." } else { "No files matched." }
    } else if str_eq(k, "files_shown") {
        if ko { "표시 (최대 100건)" } else { "shown (max 100)" }
    } else if str_eq(k, "no_conflicts") {
        if ko { "미해결 충돌이 없습니다. 🎉" } else { "No unresolved conflicts. 🎉" }
    } else if str_eq(k, "detected") {
        if ko { "감지 시각" } else { "detected" }
    } else if str_eq(k, "losing_device") {
        if ko { "진 버전 디바이스" } else { "losing device" }
    } else if str_eq(k, "action") {
        if ko { "동작" } else { "action" }
    } else if str_eq(k, "keep_active") {
        if ko { "현재 유지" } else { "keep active" }
    } else if str_eq(k, "use_other") {
        if ko { "다른 버전 사용" } else { "use other" }
    } else if str_eq(k, "keep_both") {
        if ko { "둘 다 보관" } else { "keep both" }
    } else if str_eq(k, "trash_empty") {
        if ko { "휴지통이 비어 있습니다." } else { "Trash is empty." }
    } else if str_eq(k, "deleted") {
        if ko { "삭제 시각" } else { "deleted" }
    } else if str_eq(k, "deleted_by") {
        if ko { "삭제 디바이스" } else { "by" }
    } else if str_eq(k, "expires") {
        if ko { "만료일" } else { "expires" }
    } else if str_eq(k, "restore") {
        if ko { "복구" } else { "restore" }
    } else if str_eq(k, "purge") {
        if ko { "영구 삭제" } else { "purge" }
    } else if str_eq(k, "purge_confirm") {
        if ko { "영구적으로 삭제할까요?" } else { "Permanently delete?" }
    } else if str_eq(k, "name") {
        if ko { "이름" } else { "name" }
    } else if str_eq(k, "platform") {
        if ko { "플랫폼" } else { "platform" }
    } else if str_eq(k, "paired") {
        if ko { "페어링" } else { "paired" }
    } else if str_eq(k, "last_seen") {
        if ko { "마지막 접속" } else { "last seen" }
    } else if str_eq(k, "status") {
        if ko { "상태" } else { "status" }
    } else if str_eq(k, "active") {
        if ko { "활성" } else { "active" }
    } else if str_eq(k, "revoked") {
        if ko { "차단됨" } else { "revoked" }
    } else if str_eq(k, "revoke") {
        if ko { "차단" } else { "revoke" }
    } else if str_eq(k, "revoke_confirm") {
        if ko { "이 디바이스를 차단할까요? 다시 페어링해야 합니다." } else { "Revoke this device? It must pair again." }
    } else if str_eq(k, "server_config") {
        if ko { "서버 설정" } else { "Server configuration" }
    } else if str_eq(k, "vault_stats") {
        if ko { "보관함 상태" } else { "Vault status" }
    } else if str_eq(k, "pairing_code") {
        if ko { "페어링 코드" } else { "Pairing code" }
    } else if str_eq(k, "pairing_disabled") {
        if ko { "(미설정 — 페어링 비활성)" } else { "(unset — pairing disabled)" }
    } else if str_eq(k, "trash_ttl") {
        if ko { "휴지통 보관 기간" } else { "Trash retention" }
    } else if str_eq(k, "days") {
        if ko { "일" } else { "days" }
    } else if str_eq(k, "max_file") {
        if ko { "파일 크기 제한" } else { "Max file size" }
    } else if str_eq(k, "jwt_ttl") {
        if ko { "토큰 유효 기간" } else { "Token lifetime" }
    } else if str_eq(k, "bind_addr") {
        if ko { "바인드 주소" } else { "Bind address" }
    } else if str_eq(k, "file_count") {
        if ko { "파일 수" } else { "Files" }
    } else if str_eq(k, "total_size") {
        if ko { "총 용량" } else { "Total size" }
    } else if str_eq(k, "db_size") {
        if ko { "DB 크기" } else { "DB size" }
    } else if str_eq(k, "active_devices") {
        if ko { "활성 디바이스" } else { "Active devices" }
    } else if str_eq(k, "trash_count") {
        if ko { "휴지통 항목" } else { "Items in trash" }
    } else if str_eq(k, "open_conflicts") {
        if ko { "미해결 충돌" } else { "Open conflicts" }
    } else if str_eq(k, "audit_rows") {
        if ko { "로그 행 수" } else { "Audit rows" }
    } else if str_eq(k, "preview") {
        if ko { "미리보기" } else { "Preview" }
    } else if str_eq(k, "back_to_list") {
        if ko { "← 목록으로" } else { "← Back to list" }
    } else if str_eq(k, "no_preview") {
        if ko { "이 형식은 미리보기를 지원하지 않습니다." } else { "Preview is not available for this file type." }
    } else if str_eq(k, "too_large") {
        if ko { "파일이 커서 미리보기를 표시하지 않습니다 (256 KB 제한)." } else { "File too large to preview (256 KB limit)." }
    } else if str_eq(k, "compare") {
        if ko { "비교" } else { "Compare" }
    } else if str_eq(k, "current_version") {
        if ko { "현재 버전 (활성)" } else { "Current version (active)" }
    } else if str_eq(k, "other_version") {
        if ko { "다른 기기 버전" } else { "Other device's version" }
    } else if str_eq(k, "missing_local") {
        if ko { "(활성 버전이 없습니다)" } else { "(no active version)" }
    } else if str_eq(k, "binary_file") {
        if ko { "(바이너리 파일 — 미리보기 불가)" } else { "(binary file — cannot preview)" }
    } else if str_eq(k, "back_to_conflicts") {
        if ko { "← 충돌 목록" } else { "← Back to conflicts" }
    } else {
        "?"
    }
}


// ---------- cookies and access ----------

/// The name of the session cookie.
pub const COOKIE: &'static str = "ons_admin";

/// The name of the language cookie.
pub const LANG_COOKIE: &'static str = "ons_lang";

/// The value of cookie `name` in a `Cookie` header: the first `;`-separated
/// pair, trimmed, that starts with `name=`.
pub open spec fn cookie_in(header: Seq<char>, name: Seq<char>) -> Option<Seq<char>> {
    first_stripped(
        split_on(header, ';').map_values(|p: Seq<char>| trim_with(p, |c: char| is_white_space(c))),
        name + "="@,
    )
}

/// Reads cookie `name` from the `Cookie` header text, if the header is present.
pub fn read_cookie(header: Option<&str>, name: &str) -> (r: Option<String>)
    ensures
        header is None ==> r is None,
        header matches Some(h) ==> (r is Some <==> cookie_in(h@, name@) is Some),
        header matches Some(h) ==> (r matches Some(v) ==> Some(v@) == cookie_in(h@, name@)),
{
    let h = match header {
        Some(h) => h,
        None => return None,
    };
    let cs = chars_of(h);
    let pieces = split_chars(cs.as_slice(), ';');
    let mut trimmed: Vec<Vec<char>> = Vec::new();
    let n = pieces.len();
    for i in 0..n
        invariant
            n == pieces@.len(),
            trimmed@.len() == i,
            forall|j: int|
                0 <= j < i ==> #[trigger] trimmed@[j]@ == trim_with(
                    pieces@[j]@,
                    |c: char| is_white_space(c),
                ),
    {
        let t = trim_white_space(pieces[i].as_slice());
        trimmed.push(t);
    }
    let mut prefix = chars_of(name);
    prefix.push('=');
    proof {
        reveal_strlit("=");
        assert(prefix@ =~= name@ + "="@);
        assert(trimmed@.map_values(|v: Vec<char>| v@) =~= split_on(h@, ';').map_values(
            |p: Seq<char>| trim_with(p, |c: char| is_white_space(c)),
        ));
    }
    find_stripped(&trimmed, prefix.as_slice())
}

/// The console language: English when the language cookie says `en`,
/// Korean otherwise.
pub open spec fn lang_for(cookie_header: Option<Seq<char>>) -> Lang {
    match cookie_header {
        Some(h) => if cookie_in(h, LANG_COOKIE@) == Some("en"@) {
            Lang::En
        } else {
            Lang::Ko
        },
        None => Lang::Ko,
    }
}

pub fn lang_of(cookie_header: Option<&str>) -> (r: Lang)
    ensures
        r == lang_for(opt_text(cookie_header)),
{
    match read_cookie(cookie_header, LANG_COOKIE) {
        Some(v) => if str_eq(v.as_str(), "en") {
            Lang::En
        } else {
            Lang::Ko
        },
        None => Lang::Ko,
    }
}

/// The language code stored by `/admin/lang/:code`: `en` stays, anything
/// else becomes `ko`.
pub fn lang_code(code: &str) -> (r: &'static str)
    ensures
        r@ == (if code@ == "en"@ {
            "en"@
        } else {
            "ko"@
        }),
{
    if str_eq(code, "en") {
        "en"
    } else {
        "ko"
    }
}

/// What a console request gets before its page.
#[derive(Debug, Clone, Copy, PartialEq, Eq)]
pub enum Gate {
    /// No admin password is configured: the console does not exist (404).
    Disabled,
    /// No valid session: go to the login page.
    Login,
    /// Serve the page.
    Allowed,
}

/// The console is served only when enabled and to a known session.
pub fn admin_gate(enabled: bool, session_known: bool) -> (r: Gate)
    ensures
        !enabled ==> r == Gate::Disabled,
        enabled && !session_known ==> r == Gate::Login,
        enabled && session_known ==> r == Gate::Allowed,
{
    if !enabled {
        Gate::Disabled
    } else if session_known {
        Gate::Allowed
    } else {
        Gate::Login
    }
}

/// What a login attempt leads to.
#[derive(Debug, Clone, Copy, PartialEq, Eq)]
pub enum LoginOutcome {
    /// No admin password is configured: the console does not exist (404).
    Disabled,
    /// The password does not match: the login page again, with the notice.
    Wrong,
    /// The password matches: a new session starts.
    Accepted,
}

/// A login succeeds exactly when a password is configured and the given
/// one equals it (compared in constant time over the bytes).
pub fn login_outcome(configured: Option<&str>, password: &str) -> (r: LoginOutcome)
    ensures
        configured is None ==> r == LoginOutcome::Disabled,
        configured matches Some(p) && password@ == p@ ==> r == LoginOutcome::Accepted,
        configured matches Some(p) && password@ != p@ ==> r == LoginOutcome::Wrong,
{
    match configured {
        None => LoginOutcome::Disabled,
        Some(expected) => {
            let same = crate::auth::constant_time_eq(password.as_bytes(), expected.as_bytes());
            proof {
                vstd::utf8::encode_utf8_decode_utf8(password@);
                vstd::utf8::encode_utf8_decode_utf8(expected@);
            }
            if same {
                LoginOutcome::Accepted
            } else {
                LoginOutcome::Wrong
            }
        },
    }
}

// ---------- page frame ----------

/// Everything of a console page before its content.
pub const PAGE_HEAD: &'static str = "<!doctype html><html><head><meta charset=\"utf-8\">\n<meta name=\"viewport\" content=\"width=device-width, initial-scale=1\">\n<title>NAS Sync</title>\n<style>\n*{box-sizing:border-box}\nbody{font:14px/1.5 -apple-system,system-ui,'Apple SD Gothic Neo','Malgun Gothic',sans-serif;margin:0;background:#eef1f5;color:#22293a}\n.shell{display:flex;min-height:100vh}\naside{width:210px;background:#252e42;color:#aab3c5;display:flex;flex-direction:column;flex-shrink:0}\n.logo{padding:18px 16px;font-weight:700;color:#fff;font-size:15px;border-bottom:1px solid #323d56}\naside nav{display:flex;flex-direction:column;padding:8px;gap:2px;flex:1}\naside nav a{color:#aab3c5;text-decoration:none;padding:9px 12px;border-radius:8px;display:flex;align-items:center;gap:10px}\naside nav a:hover{background:#2e3950;color:#fff}\naside nav a.on{background:#3b6fde;color:#fff}\n.ico{width:18px;text-align:center}\n.aside-foot{padding:12px 16px;border-top:1px solid #323d56;display:flex;justify-content:space-between;align-items:center}\n.aside-foot .lang a{color:#aab3c5}\n.aside-foot .lang b{color:#fff}\nmain{flex:1;min-width:0}\nheader{background:#fff;border-bottom:1px solid #e2e6ee;padding:14px 28px}\nheader h1{margin:0;font-size:17px}\nsection{padding:24px 28px;max-width:1100px}\ntable{width:100%;border-collapse:collapse;background:#fff;border-radius:10px;overflow:hidden;box-shadow:0 1px 3px rgba(20,30,60,.07)}\nth,td{text-align:left;padding:9px 14px;border-bottom:1px solid #eef0f4;word-break:break-all}\nth{background:#f7f9fc;font-weight:600;font-size:12px;color:#5a6478}\ntable.kv{max-width:560px;margin-bottom:24px}\ntable.kv th{width:200px;background:#f7f9fc}\nh3{margin:8px 0 10px}\ncode{background:#f0f3f8;padding:2px 8px;border-radius:6px;font-size:13px}\nbutton,.btn{cursor:pointer;border:1px solid #cdd4e0;background:#fff;border-radius:7px;padding:5px 11px;margin-right:4px;font-size:13px;color:#22293a;text-decoration:none;display:inline-block}\nbutton:hover,.btn:hover{background:#eef2ff;border-color:#9db4e8}\nbutton.primary{background:#3b6fde;border-color:#3b6fde;color:#fff}\nbutton.danger{color:#c0392b;border-color:#e4b6b0}\n.inline{display:inline}\n.card{max-width:330px;margin:90px auto;background:#fff;padding:28px;border-radius:12px;box-shadow:0 4px 16px rgba(20,30,60,.1);display:flex;flex-direction:column;gap:12px}\n.card input{padding:9px;border:1px solid #cdd4e0;border-radius:7px}\n.card .lang{text-align:center;margin:0}\n.msg{background:#e7f5ec;border:1px solid #bde3cb;padding:8px 12px;border-radius:8px}\n.err{color:#c0392b;margin:0}\n.bar{margin-bottom:14px;display:flex;align-items:center;gap:8px}\n.search{padding:7px 10px;border:1px solid #cdd4e0;border-radius:7px;width:300px}\n.count{color:#5a6478;font-size:13px}\nselect{padding:7px;border-radius:7px;border:1px solid #cdd4e0;background:#fff}\n.op{font-size:12px;padding:2px 7px;border-radius:5px;background:#eef0f4}\n.op-delete,.op-trash_purged{background:#fdecea;color:#c0392b}\n.op-conflict{background:#fff3df;color:#a96b00}\n.op-create{background:#e7f5ec;color:#1e7b45}\n.op-restore,.op-conflict_resolved{background:#e8efff;color:#2455b5}\n.badge{font-size:12px;padding:2px 8px;border-radius:10px}\n.badge.on{background:#e7f5ec;color:#1e7b45}\n.badge.off{background:#fdecea;color:#c0392b}\n.preview-img{max-width:100%;border-radius:10px;box-shadow:0 1px 4px rgba(20,30,60,.15);background:#fff}\n.preview-text{background:#fff;border-radius:10px;padding:16px;box-shadow:0 1px 3px rgba(20,30,60,.07);white-space:pre-wrap;word-break:break-word;max-height:70vh;overflow:auto}\ntd a{color:#2455b5;text-decoration:none}\ntd a:hover{text-decoration:underline}\n.muted{color:#8a93a6}\n.cmp{display:grid;grid-template-columns:1fr 1fr;gap:12px;margin-bottom:14px}\n.cmp-pane{background:#fff;border-radius:10px;overflow:hidden;box-shadow:0 1px 3px rgba(20,30,60,.07);min-width:0}\n.cmp-head{padding:8px 12px;font-weight:600;font-size:12px;border-bottom:1px solid #eef0f4}\n.cmp-head-active{background:#e8efff;color:#2455b5}\n.cmp-head-other{background:#fff3df;color:#a96b00}\n.cmp-text{margin:0;padding:12px;white-space:pre-wrap;word-break:break-word;max-height:60vh;overflow:auto;font-size:13px}\n.cmp-pane p{padding:12px;margin:0}\n.cmp-actions{display:flex;flex-wrap:wrap;gap:8px}\n/* Tables scroll horizontally rather than overflowing the viewport. */\ntable{display:block;overflow-x:auto;white-space:nowrap}\ntable.kv{white-space:normal}\ntd,th{white-space:nowrap}\n@media (max-width:760px){\n  .shell{flex-direction:column}\n  aside{width:100%;flex-direction:row;align-items:center}\n  aside nav{flex-direction:row;overflow-x:auto}\n  aside nav a .lbl{display:none}\n  aside nav a{padding:9px 11px}\n  .logo,.aside-foot{border:0}\n  .aside-foot{flex-shrink:0}\n  header{padding:12px 16px}\n  section{padding:16px}\n  .cmp{grid-template-columns:1fr}\n  .search{width:100%}\n  .bar{flex-wrap:wrap}\n}\n</style></head><body>";

/// Everything of a console page after its content.
pub const PAGE_TAIL: &'static str = "</body></html>";

/// A whole console page around `content`.
pub open spec fn page_text(content: Seq<char>) -> Seq<char> {
    PAGE_HEAD@ + content + PAGE_TAIL@
}

/// Wraps `content` in the page frame (head, styles, body).
pub fn layout_bare(content: &str) -> (r: String)
    ensures
        r@ == page_text(content@),
{
    let mut out = String::new();
    push_str(&mut out, PAGE_HEAD);
    push_str(&mut out, content);
    push_str(&mut out, PAGE_TAIL);
    out
}

} // verus!

verus! {

/// One navigation link of the sidebar; the current page's link is marked `on`.
pub open spec fn nav_item_text(l: Lang, active: Seq<char>, slug: Seq<char>, icon: Seq<char>) -> Seq<char> {
    "<a href=\"/admin/"@ + slug + "\""@ + (if slug == active {
        " class=\"on\""@
    } else {
        Seq::<char>::empty()
    }) + "><span class=\"ico\">"@ + icon + "</span><span class=\"lbl\">"@ + tr_text(l, slug)
        + "</span></a>"@
}

fn nav_item(l: Lang, active: &str, slug: &str, icon: &str) -> (r: String)
    ensures
        r@ == nav_item_text(l, active@, slug@, icon@),
{
    let mut out = String::new();
    push_str(&mut out, "<a href=\"/admin/");
    push_str(&mut out, slug);
    push_str(&mut out, "\"");
    let ghost before = out@;
    if str_eq(slug, active) {
        push_str(&mut out, " class=\"on\"");
    } else {
        assert(out@ =~= before + Seq::<char>::empty());
    }
    push_str(&mut out, "><span class=\"ico\">");
    push_str(&mut out, icon);
    push_str(&mut out, "</span><span class=\"lbl\">");
    push_str(&mut out, tr(l, slug));
    push_str(&mut out, "</span></a>");
    out
}

/// The sidebar: activity, files, conflicts, trash, devices, settings.
pub open spec fn nav_text(l: Lang, active: Seq<char>) -> Seq<char> {
    nav_item_text(l, active, "activity"@, "\u{1f4cb}"@) + nav_item_text(
        l,
        active,
        "files"@,
        "\u{1f4c1}"@,
    ) + nav_item_text(l, active, "conflicts"@, "\u{26a0}\u{fe0f}"@) + nav_item_text(
        l,
        active,
        "trash"@,
        "\u{1f5d1}"@,
    ) + nav_item_text(l, active, "devices"@, "\u{1f4bb}"@) + nav_item_text(
        l,
        active,
        "settings"@,
        "\u{2699}\u{fe0f}"@,
    )
}

fn nav(l: Lang, active: &str) -> (r: String)
    ensures
        r@ == nav_text(l, active@),
{
    let mut out = String::new();
    let a = nav_item(l, active, "activity", "\u{1f4cb}");
    push_str(&mut out, a.as_str());
    assert(out@ =~= Seq::<char>::empty() + a@);
    let b = nav_item(l, active, "files", "\u{1f4c1}");
    push_str(&mut out, b.as_str());
    let c = nav_item(l, active, "conflicts", "\u{26a0}\u{fe0f}");
    push_str(&mut out, c.as_str());
    let d = nav_item(l, active, "trash", "\u{1f5d1}");
    push_str(&mut out, d.as_str());
    let e = nav_item(l, active, "devices", "\u{1f4bb}");
    push_str(&mut out, e.as_str());
    let f = nav_item(l, active, "settings", "\u{2699}\u{fe0f}");
    push_str(&mut out, f.as_str());
    out
}

/// The language switch: the current language in bold, the other as a link.
pub open spec fn lang_switch_text(l: Lang) -> Seq<char> {
    match l {
        Lang::Ko => "<b>\u{d55c}\u{ad6d}\u{c5b4}</b>"@ + " \u{b7} "@
            + "<a href=\"/admin/lang/en\">EN</a>"@,
        Lang::En => "<a href=\"/admin/lang/ko\">\u{d55c}\u{ad6d}\u{c5b4}</a>"@ + " \u{b7} "@
            + "<b>EN</b>"@,
    }
}

/// A console page: sidebar, language switch, logout, title and `body`.
pub open spec fn layout_text(l: Lang, active: Seq<char>, body: Seq<char>) -> Seq<char> {
    page_text(
        "<div class=\"shell\">\n<aside><div class=\"logo\">\u{1f5c4} NAS Sync</div><nav>"@ + nav_text(
            l,
            active,
        ) + "</nav>\n<div class=\"aside-foot\"><span class=\"lang\">"@ + lang_switch_text(l)
            + "</span>\n<form method=\"post\" action=\"/admin/logout\"><button>"@ + tr_text(
            l,
            "logout"@,
        ) + "</button></form></div></aside>\n<main><header><h1>"@ + tr_text(l, active)
            + "</h1></header><section>"@ + body + "</section></main></div>"@,
    )
}

pub fn layout(l: Lang, active: &str, body: &str) -> (r: String)
    ensures
        r@ == layout_text(l, active@, body@),
{
    let mut out = String::new();
    push_str(&mut out, "<div class=\"shell\">\n<aside><div class=\"logo\">\u{1f5c4} NAS Sync</div><nav>");
    let n = nav(l, active);
    push_str(&mut out, n.as_str());
    push_str(&mut out, "</nav>\n<div class=\"aside-foot\"><span class=\"lang\">");
    let mut sw = String::new();
    match l {
        Lang::Ko => {
            push_str(&mut sw, "<b>\u{d55c}\u{ad6d}\u{c5b4}</b>");
            push_str(&mut sw, " \u{b7} ");
            push_str(&mut sw, "<a href=\"/admin/lang/en\">EN</a>");
        },
        Lang::En => {
            push_str(&mut sw, "<a href=\"/admin/lang/ko\">\u{d55c}\u{ad6d}\u{c5b4}</a>");
            push_str(&mut sw, " \u{b7} ");
            push_str(&mut sw, "<b>EN</b>");
        },
    }
    proof {
        reveal_strlit("");
    }
    assert(sw@ =~= lang_switch_text(l)) by {
        assert(Seq::<char>::empty() + "<b>\u{d55c}\u{ad6d}\u{c5b4}</b>"@ =~= "<b>\u{d55c}\u{ad6d}\u{c5b4}</b>"@);
        assert(Seq::<char>::empty() + "<a href=\"/admin/lang/ko\">\u{d55c}\u{ad6d}\u{c5b4}</a>"@ =~= "<a href=\"/admin/lang/ko\">\u{d55c}\u{ad6d}\u{c5b4}</a>"@);
    }
    push_str(&mut out, sw.as_str());
    push_str(&mut out, "</span>\n<form method=\"post\" action=\"/admin/logout\"><button>");
    push_str(&mut out, tr(l, "logout"));
    push_str(&mut out, "</button></form></div></aside>\n<main><header><h1>");
    push_str(&mut out, tr(l, active));
    push_str(&mut out, "</h1></header><section>");
    push_str(&mut out, body);
    push_str(&mut out, "</section></main></div>");
    proof {
        assert(out@ =~= "<div class=\"shell\">\n<aside><div class=\"logo\">\u{1f5c4} NAS Sync</div><nav>"@ + nav_text(
            l,
            active@,
        ) + "</nav>\n<div class=\"aside-foot\"><span class=\"lang\">"@ + lang_switch_text(l)
            + "</span>\n<form method=\"post\" action=\"/admin/logout\"><button>"@ + tr_text(
            l,
            "logout"@,
        ) + "</button></form></div></aside>\n<main><header><h1>"@ + tr_text(l, active@)
            + "</h1></header><section>"@ + body@ + "</section></main></div>"@);
    }
    layout_bare(out.as_str())
}

/// The login form, with the wrong-password notice when `wrong`.
pub open spec fn login_text(l: Lang, wrong: bool) -> Seq<char> {
    let err = if wrong {
        "<p class=\"err\">"@ + tr_text(l, "wrong_password"@) + "</p>"@
    } else {
        Seq::<char>::empty()
    };
    page_text(
        "<form method=\"post\" action=\"/admin/login\" class=\"card\">\n            <h2>NAS Sync</h2>"@
            + err
            + "\n            <input type=\"password\" name=\"password\" placeholder=\""@ + tr_text(
            l,
            "password"@,
        ) + "\" autofocus>\n            <button type=\"submit\" class=\"primary\">"@ + tr_text(
            l,
            "sign_in"@,
        )
            + "</button>\n            <p class=\"lang\"><a href=\"/admin/lang/ko\">\u{d55c}\u{ad6d}\u{c5b4}</a> \u{b7} <a href=\"/admin/lang/en\">English</a></p>\n        </form>"@,
    )
}

pub fn login_html(l: Lang, wrong: bool) -> (r: String)
    ensures
        r@ == login_text(l, wrong),
{
    let mut err = String::new();
    if wrong {
        push_str(&mut err, "<p class=\"err\">");
        push_str(&mut err, tr(l, "wrong_password"));
        push_str(&mut err, "</p>");
    }
    let mut out = String::new();
    push_str(&mut out, "<form method=\"post\" action=\"/admin/login\" class=\"card\">\n            <h2>NAS Sync</h2>");
    push_str(&mut out, err.as_str());
    push_str(&mut out, "\n            <input type=\"password\" name=\"password\" placeholder=\"");
    push_str(&mut out, tr(l, "password"));
    push_str(&mut out, "\" autofocus>\n            <button type=\"submit\" class=\"primary\">");
    push_str(&mut out, tr(l, "sign_in"));
    push_str(&mut out, "</button>\n            <p class=\"lang\"><a href=\"/admin/lang/ko\">\u{d55c}\u{ad6d}\u{c5b4}</a> \u{b7} <a href=\"/admin/lang/en\">English</a></p>\n        </form>");
    proof {
        let e = if wrong {
            "<p class=\"err\">"@ + tr_text(l, "wrong_password"@) + "</p>"@
        } else {
            Seq::<char>::empty()
        };
        assert(err@ =~= e);
    }
    layout_bare(out.as_str())
}

/// A notice paragraph when a message is given.
pub open spec fn msg_text(msg: Option<Seq<char>>) -> Seq<char> {
    match msg {
        Some(m) => "<p class=\"msg\">"@ + escaped(m) + "</p>"@,
        None => Seq::empty(),
    }
}

pub fn msg_html(msg: Option<&str>) -> (r: String)
    ensures
        r@ == msg_text(opt_text(msg)),
{
    let mut out = String::new();
    match msg {
        Some(m) => {
            push_str(&mut out, "<p class=\"msg\">");
            let e = esc(m);
            push_str(&mut out, e.as_str());
            push_str(&mut out, "</p>");
            assert(out@ =~= "<p class=\"msg\">"@ + escaped(m@) + "</p>"@);
        },
        None => {},
    }
    out
}

} // verus!

verus! {

/// The notice after a successful console action: `OK`, or `OK: <detail>`.
pub open spec fn ok_notice_text(detail: Option<Seq<char>>) -> Seq<char> {
    match detail {
        Some(d) => "OK: "@ + d,
        None => "OK"@,
    }
}

pub fn ok_notice(detail: Option<&str>) -> (r: String)
    ensures
        r@ == ok_notice_text(opt_text(detail)),
{
    let mut out = String::new();
    match detail {
        Some(d) => {
            push_str(&mut out, "OK: ");
            push_str(&mut out, d);
            assert(out@ =~= "OK: "@ + d@);
        },
        None => {
            push_str(&mut out, "OK");
            assert(out@ =~= "OK"@);
        },
    }
    out
}

/// The notice after a failed console action: `error: <error text>`.
pub fn error_notice(e: &crate::error::AppError) -> (r: String)
    ensures
        r@ == "error: "@ + crate::error::text_of(*e),
{
    let mut out = String::new();
    push_str(&mut out, "error: ");
    let t = e.describe();
    push_str(&mut out, t.as_str());
    out
}

/// The notice after a revoke: whether a still-active device was revoked.
pub fn revoke_notice(rows_affected: u64) -> (r: &'static str)
    ensures
        r@ == (if rows_affected > 0 {
            "OK"@
        } else {
            "not found / already revoked"@
        }),
{
    if rows_affected > 0 {
        "OK"
    } else {
        "not found / already revoked"
    }
}

/// Where a console action redirects: back to `page` with the notice.
pub open spec fn notice_location_text(page: Seq<char>, msg: Seq<char>) -> Seq<char> {
    "/admin/"@ + page + "?msg="@ + crate::html::url_encoded(vstd::utf8::encode_utf8(msg))
}

pub fn notice_location(page: &str, msg: &str) -> (r: String)
    ensures
        r@ == notice_location_text(page@, msg@),
{
    let mut out = String::new();
    push_str(&mut out, "/admin/");
    push_str(&mut out, page);
    push_str(&mut out, "?msg=");
    let u = crate::html::urlenc(msg);
    push_str(&mut out, u.as_str());
    out
}

} // verus!

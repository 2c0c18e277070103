//! The admin console's pages, rendered from the rows their queries return.

use vstd::prelude::*;
use vstd::string::StringSliceAdditionalSpecFns;
use vstd::utf8::{decode_utf8, encode_utf8, is_char_boundary, valid_utf8};

use crate::admin::{layout, layout_text, msg_html, msg_text, tr, tr_text, Lang};
use crate::auth::{opt_str, opt_text};
use crate::html::{
    decimal, esc, escaped, extension, ext_of, human_size, image_mime_of, int_text, int_to_text,
    is_text_ext, push_decimal, size_text, text_ext, url_encoded, urlenc, image_mime,
};
use crate::text::{holds_text, lemma_holds_part, lemma_holds_trans, lemma_holds_within, push_str};

verus! {

broadcast use vstd::string::group_string_axioms;

// ---------- clipping timestamps ----------

/// The byte length `k` capped at the length of `s`'s UTF-8 encoding.
pub open spec fn capped(s: Seq<char>, k: int) -> int {
    if k < encode_utf8(s).len() {
        k
    } else {
        encode_utf8(s).len() as int
    }
}

/// Cutting `s` after `k` bytes falls between characters (slicing a `str`
/// elsewhere panics).
pub open spec fn clip_ok(s: Seq<char>, k: int) -> bool {
    is_char_boundary(encode_utf8(s), capped(s, k))
}

/// The text of the first `k` bytes of `s` (all of it when shorter).
pub open spec fn clipped(s: Seq<char>, k: int) -> Seq<char> {
    decode_utf8(encode_utf8(s).take(capped(s, k)))
}

/// `&s[..k.min(s.len())]`.
pub fn clip(s: &str, k: usize) -> (r: &str)
    requires
        clip_ok(s@, k as int),
    ensures
        r@ == clipped(s@, k as int),
{
    let n = s.as_bytes().len();
    let m = if k < n {
        k
    } else {
        n
    };
    let (a, _) = s.split_at(m);
    proof {
        vstd::utf8::encode_utf8_decode_utf8(a@);
        assert(encode_utf8(s@).take(m as int) =~= encode_utf8(s@).subrange(0, m as int));
    }
    a
}

/// An em dash, shown for missing values.
pub open spec fn dash() -> Seq<char> {
    "\u{2014}"@
}

/// The value, or `fallback` when absent.
pub open spec fn or_else(o: Option<Seq<char>>, fallback: Seq<char>) -> Seq<char> {
    match o {
        Some(s) => s,
        None => fallback,
    }
}

fn text_or<'a>(o: &'a Option<String>, fallback: &'a str) -> (r: &'a str)
    ensures
        r@ == or_else(opt_str(*o), fallback@),
{
    match o {
        Some(s) => s.as_str(),
        None => fallback,
    }
}

// ---------- activity ----------

/// One audit-log row: id, time, operation, path, device name, size.
#[derive(Debug, Clone)]
pub struct AuditRow {
    pub id: i64,
    pub ts: String,
    pub op: String,
    pub path: String,
    pub device: Option<String>,
    pub size: Option<i64>,
}

/// The operations the activity filter offers.
pub open spec fn op_option_text(op: Seq<char>, filter: Seq<char>) -> Seq<char> {
    "<option value=\""@ + op + "\""@ + (if op == filter {
        " selected"@
    } else {
        Seq::<char>::empty()
    }) + ">"@ + op + "</option>"@
}

fn op_option(op: &str, filter: &str) -> (r: String)
    ensures
        r@ == op_option_text(op@, filter@),
{
    let mut out = String::new();
    push_str(&mut out, "<option value=\"");
    push_str(&mut out, op);
    push_str(&mut out, "\"");
    let ghost before = out@;
    if crate::text::str_eq(op, filter) {
        push_str(&mut out, " selected");
    } else {
        assert(out@ =~= before + Seq::<char>::empty());
    }
    push_str(&mut out, ">");
    push_str(&mut out, op);
    push_str(&mut out, "</option>");
    out
}

/// The operation filter's options.
pub open spec fn op_options_text(filter: Seq<char>) -> Seq<char> {
    op_option_text("create"@, filter) + op_option_text("modify"@, filter) + op_option_text(
        "delete"@,
        filter,
    ) + op_option_text("restore"@, filter) + op_option_text("conflict"@, filter)
        + op_option_text("conflict_resolved"@, filter) + op_option_text("trash_purged"@, filter)
}

fn op_options(filter: &str) -> (r: String)
    ensures
        r@ == op_options_text(filter@),
{
    let mut out = String::new();
    let a = op_option("create", filter);
    push_str(&mut out, a.as_str());
    assert(out@ =~= a@);
    let s = op_option("modify", filter);
    push_str(&mut out, s.as_str());
    let s = op_option("delete", filter);
    push_str(&mut out, s.as_str());
    let s = op_option("restore", filter);
    push_str(&mut out, s.as_str());
    let s = op_option("conflict", filter);
    push_str(&mut out, s.as_str());
    let s = op_option("conflict_resolved", filter);
    push_str(&mut out, s.as_str());
    let s = op_option("trash_purged", filter);
    push_str(&mut out, s.as_str());
    out
}

/// An optional size as text, a dash when absent.
pub open spec fn opt_size_text(size: Option<i64>) -> Seq<char> {
    match size {
        Some(b) => size_text(b as int),
        None => dash(),
    }
}

/// One activity table row.
pub open spec fn audit_row_text(r: AuditRow) -> Seq<char> {
    "<tr><td>"@ + escaped(clipped(r.ts@, 19)) + "</td><td><span class=\"op op-"@ + escaped(r.op@)
        + "\">"@ + escaped(r.op@) + "</span></td><td>"@ + escaped(r.path@) + "</td><td>"@
        + escaped(or_else(opt_str(r.device), dash())) + "</td><td>"@ + opt_size_text(r.size)
        + "</td></tr>"@
}

fn audit_row(r: &AuditRow) -> (s: String)
    requires
        clip_ok(r.ts@, 19),
    ensures
        s@ == audit_row_text(*r),
{
    let mut out = String::new();
    push_str(&mut out, "<tr><td>");
    let e = esc(clip(r.ts.as_str(), 19));
    push_str(&mut out, e.as_str());
    push_str(&mut out, "</td><td><span class=\"op op-");
    let e = esc(r.op.as_str());
    push_str(&mut out, e.as_str());
    push_str(&mut out, "\">");
    push_str(&mut out, e.as_str());
    push_str(&mut out, "</span></td><td>");
    let e = esc(r.path.as_str());
    push_str(&mut out, e.as_str());
    push_str(&mut out, "</td><td>");
    let e = esc(text_or(&r.device, "\u{2014}"));
    push_str(&mut out, e.as_str());
    push_str(&mut out, "</td><td>");
    let size = match r.size {
        Some(b) => human_size(b),
        None => {
            let mut d = String::new();
            push_str(&mut d, "\u{2014}");
            assert(d@ =~= dash());
            d
        },
    };
    push_str(&mut out, size.as_str());
    push_str(&mut out, "</td></tr>");
    out
}

/// The rows of a table, in order.
pub open spec fn audit_rows_text(rows: Seq<AuditRow>) -> Seq<char>
    decreases rows.len(),
{
    if rows.len() == 0 {
        Seq::empty()
    } else {
        audit_rows_text(rows.drop_last()) + audit_row_text(rows.last())
    }
}

/// The activity page body.
pub open spec fn activity_body_text(l: Lang, filter: Seq<char>, msg: Option<Seq<char>>, rows: Seq<AuditRow>) -> Seq<char> {
    msg_text(msg)
        + "<form method=\"get\" class=\"bar\"><select name=\"op\" onchange=\"this.form.submit()\"><option value=\"\">"@
        + tr_text(l, "all_ops"@) + "</option>"@ + op_options_text(filter)
        + "</select></form><table><tr><th>"@ + tr_text(l, "time"@) + "</th><th>"@ + tr_text(
        l,
        "op"@,
    ) + "</th><th>"@ + tr_text(l, "path"@) + "</th><th>"@ + tr_text(l, "device"@) + "</th><th>"@
        + tr_text(l, "size"@) + "</th></tr>"@ + audit_rows_text(rows) + "</table>"@
}

/// The activity page: the newest audit rows with an operation filter.
pub fn activity_page(l: Lang, filter: &str, msg: Option<&str>, rows: &Vec<AuditRow>) -> (r: String)
    requires
        forall|i: int| 0 <= i < rows@.len() ==> clip_ok(#[trigger] rows@[i].ts@, 19),
    ensures
        r@ == layout_text(l, "activity"@, activity_body_text(l, filter@, opt_text(msg), rows@)),
{
    let mut body = msg_html(msg);
    push_str(
        &mut body,
        "<form method=\"get\" class=\"bar\"><select name=\"op\" onchange=\"this.form.submit()\"><option value=\"\">",
    );
    push_str(&mut body, tr(l, "all_ops"));
    push_str(&mut body, "</option>");
    let opts = op_options(filter);
    push_str(&mut body, opts.as_str());
    push_str(&mut body, "</select></form><table><tr><th>");
    push_str(&mut body, tr(l, "time"));
    push_str(&mut body, "</th><th>");
    push_str(&mut body, tr(l, "op"));
    push_str(&mut body, "</th><th>");
    push_str(&mut body, tr(l, "path"));
    push_str(&mut body, "</th><th>");
    push_str(&mut body, tr(l, "device"));
    push_str(&mut body, "</th><th>");
    push_str(&mut body, tr(l, "size"));
    push_str(&mut body, "</th></tr>");
    let mut table = String::new();
    let n = rows.len();
    for i in 0..n
        invariant
            n == rows@.len(),
            forall|j: int| 0 <= j < rows@.len() ==> clip_ok(#[trigger] rows@[j].ts@, 19),
            table@ == audit_rows_text(rows@.take(i as int)),
    {
        let row = audit_row(&rows[i]);
        push_str(&mut table, row.as_str());
        proof {
            assert(rows@.take(i + 1).drop_last() =~= rows@.take(i as int));
        }
    }
    assert(rows@.take(n as int) =~= rows@);
    push_str(&mut body, table.as_str());
    push_str(&mut body, "</table>");
    layout(l, "activity", body.as_str())
}

} // verus!

verus! {

// ---------- files ----------

/// One vault-index row for the file list.
#[derive(Debug, Clone)]
pub struct FileRow {
    pub path: String,
    pub etag: String,
    pub size: i64,
    pub modified: String,
    pub device: Option<String>,
}

/// The search text of the files page: the `q` parameter, trimmed.
pub open spec fn search_text(q: Option<Seq<char>>) -> Seq<char> {
    crate::text::trim_with(or_else(q, Seq::empty()), |c: char| crate::text::is_white_space(c))
}

pub fn search_query(q: Option<&str>) -> (r: String)
    ensures
        r@ == search_text(opt_text(q)),
{
    let cs = match q {
        Some(s) => crate::text::chars_of(s),
        None => Vec::new(),
    };
    let t = crate::text::trim_white_space(cs.as_slice());
    crate::text::string_of(t.as_slice())
}

/// Each `%` and `_` of `s` escaped with a backslash.
pub open spec fn like_escaped(s: Seq<char>) -> Seq<char>
    decreases s.len(),
{
    if s.len() == 0 {
        Seq::empty()
    } else {
        like_escaped(s.drop_last()) + if s.last() == '%' || s.last() == '_' {
            seq!['\\', s.last()]
        } else {
            seq![s.last()]
        }
    }
}

/// The SQL `LIKE` pattern matching paths that contain `q` literally.
pub open spec fn like_pattern_text(q: Seq<char>) -> Seq<char> {
    seq!['%'] + like_escaped(q) + seq!['%']
}

pub fn like_pattern(q: &str) -> (r: String)
    ensures
        r@ == like_pattern_text(q@),
{
    let cs = crate::text::chars_of(q);
    let n = cs.len();
    let mut mid = String::new();
    for i in 0..n
        invariant
            n == cs@.len(),
            cs@ == q@,
            mid@ == like_escaped(cs@.take(i as int)),
    {
        let c = cs[i];
        proof {
            assert(cs@.take(i + 1).drop_last() =~= cs@.take(i as int));
        }
        let ghost before = mid@;
        if c == '%' || c == '_' {
            mid.push('\\');
            mid.push(c);
        } else {
            mid.push(c);
        }
        assert(mid@ =~= before + if c == '%' || c == '_' {
            seq!['\\', c]
        } else {
            seq![c]
        });
    }
    assert(cs@.take(n as int) =~= cs@);
    let mut out = String::new();
    out.push('%');
    push_str(&mut out, mid.as_str());
    out.push('%');
    assert(out@ =~= like_pattern_text(q@));
    out
}

/// One row of the file list.
pub open spec fn file_row_text(l: Lang, r: FileRow) -> Seq<char> {
    "<tr><td><a href=\"/admin/files/view?path="@ + url_encoded(encode_utf8(r.path@)) + "\">"@
        + escaped(r.path@) + "</a></td><td>"@ + size_text(r.size as int) + "</td><td>"@ + escaped(
        clipped(r.modified@, 19),
    ) + "</td><td>"@ + escaped(or_else(opt_str(r.device), dash()))
        + "</td>\n                <td><a class=\"btn\" href=\"/admin/files/download?path="@
        + url_encoded(encode_utf8(r.path@)) + "\">"@ + tr_text(l, "download"@) + "</a></td></tr>"@
}

fn file_row(l: Lang, r: &FileRow) -> (s: String)
    requires
        clip_ok(r.modified@, 19),
    ensures
        s@ == file_row_text(l, *r),
{
    let mut out = String::new();
    push_str(&mut out, "<tr><td><a href=\"/admin/files/view?path=");
    let u = urlenc(r.path.as_str());
    push_str(&mut out, u.as_str());
    push_str(&mut out, "\">");
    let e = esc(r.path.as_str());
    push_str(&mut out, e.as_str());
    push_str(&mut out, "</a></td><td>");
    let h = human_size(r.size);
    push_str(&mut out, h.as_str());
    push_str(&mut out, "</td><td>");
    let e = esc(clip(r.modified.as_str(), 19));
    push_str(&mut out, e.as_str());
    push_str(&mut out, "</td><td>");
    let e = esc(text_or(&r.device, "\u{2014}"));
    push_str(&mut out, e.as_str());
    push_str(&mut out, "</td>\n                <td><a class=\"btn\" href=\"/admin/files/download?path=");
    push_str(&mut out, u.as_str());
    push_str(&mut out, "\">");
    push_str(&mut out, tr(l, "download"));
    push_str(&mut out, "</a></td></tr>");
    out
}

pub open spec fn file_rows_text(l: Lang, rows: Seq<FileRow>) -> Seq<char>
    decreases rows.len(),
{
    if rows.len() == 0 {
        Seq::empty()
    } else {
        file_rows_text(l, rows.drop_last()) + file_row_text(l, rows.last())
    }
}

/// The file list, or a notice when nothing matched.
pub open spec fn file_table_text(l: Lang, rows: Seq<FileRow>) -> Seq<char> {
    if rows.len() == 0 {
        "<p>"@ + tr_text(l, "no_files"@) + "</p>"@
    } else {
        "<table><tr><th>"@ + tr_text(l, "path"@) + "</th><th>"@ + tr_text(l, "size"@) + "</th><th>"@
            + tr_text(l, "modified"@) + "</th><th>"@ + tr_text(l, "modified_by"@)
            + "</th><th></th></tr>"@ + file_rows_text(l, rows) + "</table>"@
    }
}

/// The files page body.
pub open spec fn files_body_text(l: Lang, q: Seq<char>, msg: Option<Seq<char>>, rows: Seq<FileRow>) -> Seq<char> {
    msg_text(msg)
        + "<form method=\"get\" class=\"bar\"><input type=\"search\" name=\"q\" value=\""@
        + escaped(q) + "\" placeholder=\""@ + tr_text(l, "search_ph"@)
        + "\" class=\"search\">\n           <button type=\"submit\" class=\"primary\">"@
        + tr_text(l, "search"@) + "</button>\n           <span class=\"count\">"@ + decimal(
        rows.len(),
    ) + " "@ + tr_text(l, "files_shown"@) + "</span></form>"@ + file_table_text(l, rows)
}

/// The files page: search box, then the matching (or most recent) files.
pub fn files_page(l: Lang, q: &str, msg: Option<&str>, rows: &Vec<FileRow>) -> (r: String)
    requires
        forall|i: int| 0 <= i < rows@.len() ==> clip_ok(#[trigger] rows@[i].modified@, 19),
    ensures
        r@ == layout_text(l, "files"@, files_body_text(l, q@, opt_text(msg), rows@)),
{
    let mut body = msg_html(msg);
    push_str(&mut body, "<form method=\"get\" class=\"bar\"><input type=\"search\" name=\"q\" value=\"");
    let e = esc(q);
    push_str(&mut body, e.as_str());
    push_str(&mut body, "\" placeholder=\"");
    push_str(&mut body, tr(l, "search_ph"));
    push_str(&mut body, "\" class=\"search\">\n           <button type=\"submit\" class=\"primary\">");
    push_str(&mut body, tr(l, "search"));
    push_str(&mut body, "</button>\n           <span class=\"count\">");
    crate::html::push_decimal(&mut body, rows.len() as u128);
    push_str(&mut body, " ");
    push_str(&mut body, tr(l, "files_shown"));
    push_str(&mut body, "</span></form>");
    let mut table = String::new();
    if rows.len() == 0 {
        push_str(&mut table, "<p>");
        push_str(&mut table, tr(l, "no_files"));
        push_str(&mut table, "</p>");
        assert(table@ =~= "<p>"@ + tr_text(l, "no_files"@) + "</p>"@);
    } else {
        push_str(&mut table, "<table><tr><th>");
        push_str(&mut table, tr(l, "path"));
        push_str(&mut table, "</th><th>");
        push_str(&mut table, tr(l, "size"));
        push_str(&mut table, "</th><th>");
        push_str(&mut table, tr(l, "modified"));
        push_str(&mut table, "</th><th>");
        push_str(&mut table, tr(l, "modified_by"));
        push_str(&mut table, "</th><th></th></tr>");
        let mut list = String::new();
        let n = rows.len();
        for i in 0..n
            invariant
                n == rows@.len(),
                forall|j: int| 0 <= j < rows@.len() ==> clip_ok(#[trigger] rows@[j].modified@, 19),
                list@ == file_rows_text(l, rows@.take(i as int)),
        {
            let row = file_row(l, &rows[i]);
            push_str(&mut list, row.as_str());
            proof {
                assert(rows@.take(i + 1).drop_last() =~= rows@.take(i as int));
            }
        }
        assert(rows@.take(n as int) =~= rows@);
        push_str(&mut table, list.as_str());
        push_str(&mut table, "</table>");
        assert(table@ =~= "<table><tr><th>"@ + tr_text(l, "path"@) + "</th><th>"@ + tr_text(
            l,
            "size"@,
        ) + "</th><th>"@ + tr_text(l, "modified"@) + "</th><th>"@ + tr_text(l, "modified_by"@)
            + "</th><th></th></tr>"@ + file_rows_text(l, rows@) + "</table>"@);
    }
    push_str(&mut body, table.as_str());
    layout(l, "files", body.as_str())
}

} // verus!

verus! {

// ---------- previews ----------

/// `std::str::from_utf8`: the text of the bytes when they are valid UTF-8.
#[verifier::external_body]
pub fn utf8_text<'a>(bytes: &'a [u8]) -> (r: Option<&'a str>)
    ensures
        r is Some <==> valid_utf8(bytes@),
        r matches Some(s) ==> s@ == decode_utf8(bytes@),
{
    std::str::from_utf8(bytes).ok()
}

/// The most text a preview shows, in bytes.
pub const PREVIEW_TEXT_MAX: i64 = 262144;

/// One side of the conflict comparison: UTF-8 text in a `<pre>`, a
/// placeholder for binary content, or only the size beyond 256 KB.
pub open spec fn pane_text(bytes: Seq<u8>) -> Seq<char> {
    if bytes.len() > 262144 {
        "<pre class=\"cmp-text\">("@ + decimal(bytes.len() / 1024) + " KB)</pre>"@
    } else if valid_utf8(bytes) {
        "<pre class=\"cmp-text\">"@ + escaped(decode_utf8(bytes)) + "</pre>"@
    } else {
        "<pre class=\"cmp-text muted\">(binary)</pre>"@
    }
}

pub fn render_pane(bytes: &[u8]) -> (r: String)
    ensures
        r@ == pane_text(bytes@),
{
    let mut out = String::new();
    if bytes.len() > 262144 {
        push_str(&mut out, "<pre class=\"cmp-text\">(");
        push_decimal(&mut out, (bytes.len() / 1024) as u128);
        push_str(&mut out, " KB)</pre>");
        return out;
    }
    match utf8_text(bytes) {
        Some(text) => {
            push_str(&mut out, "<pre class=\"cmp-text\">");
            let e = esc(text);
            push_str(&mut out, e.as_str());
            push_str(&mut out, "</pre>");
            assert(out@ =~= "<pre class=\"cmp-text\">"@ + escaped(decode_utf8(bytes@)) + "</pre>"@);
        },
        None => {
            push_str(&mut out, "<pre class=\"cmp-text muted\">(binary)</pre>");
            assert(out@ =~= "<pre class=\"cmp-text muted\">(binary)</pre>"@);
        },
    }
    out
}

/// Whether the preview of `canon` (of `size` bytes) shows its text, so the
/// file must be read: a text type within the size limit.
pub open spec fn preview_reads(canon: Seq<char>, size: i64) -> bool {
    image_mime_of(extension(canon)) is None && is_text_ext(extension(canon)) && size
        <= PREVIEW_TEXT_MAX
}

pub fn needs_preview_read(canon: &str, size: i64) -> (r: bool)
    ensures
        r == preview_reads(canon@, size),
{
    let ext = ext_of(canon);
    image_mime(ext.as_str()).is_none() && text_ext(ext.as_str()) && size <= PREVIEW_TEXT_MAX
}

/// The preview block of the file page.
pub open spec fn preview_text(l: Lang, canon: Seq<char>, size: i64, bytes: Option<Seq<u8>>) -> Seq<char> {
    let ext = extension(canon);
    if image_mime_of(ext) is Some {
        "<img class=\"preview-img\" src=\"/admin/files/raw?path="@ + url_encoded(encode_utf8(canon))
            + "\" alt=\""@ + escaped(canon) + "\">"@
    } else if is_text_ext(ext) {
        if size > PREVIEW_TEXT_MAX {
            "<p>"@ + tr_text(l, "too_large"@) + "</p>"@
        } else {
            match bytes {
                Some(b) => if valid_utf8(b) {
                    "<pre class=\"preview-text\">"@ + escaped(decode_utf8(b)) + "</pre>"@
                } else {
                    "<p>"@ + tr_text(l, "no_preview"@) + "</p>"@
                },
                None => "<p>"@ + tr_text(l, "no_preview"@) + "</p>"@,
            }
        }
    } else {
        "<p>"@ + tr_text(l, "no_preview"@) + "</p>"@
    }
}

fn preview(l: Lang, canon: &str, size: i64, bytes: Option<&[u8]>) -> (r: String)
    ensures
        r@ == preview_text(
            l,
            canon@,
            size,
            match bytes {
                Some(b) => Some(b@),
                None => None,
            },
        ),
{
    let ext = ext_of(canon);
    let mut out = String::new();
    if image_mime(ext.as_str()).is_some() {
        push_str(&mut out, "<img class=\"preview-img\" src=\"/admin/files/raw?path=");
        let u = urlenc(canon);
        push_str(&mut out, u.as_str());
        push_str(&mut out, "\" alt=\"");
        let e = esc(canon);
        push_str(&mut out, e.as_str());
        push_str(&mut out, "\">");
        assert(out@ =~= "<img class=\"preview-img\" src=\"/admin/files/raw?path="@ + url_encoded(
            encode_utf8(canon@),
        ) + "\" alt=\""@ + escaped(canon@) + "\">"@);
        return out;
    }
    let mut text: Option<&str> = None;
    if text_ext(ext.as_str()) && size <= PREVIEW_TEXT_MAX {
        if let Some(b) = bytes {
            text = utf8_text(b);
        }
    }
    if text_ext(ext.as_str()) && size > PREVIEW_TEXT_MAX {
        push_str(&mut out, "<p>");
        push_str(&mut out, tr(l, "too_large"));
        push_str(&mut out, "</p>");
        assert(out@ =~= "<p>"@ + tr_text(l, "too_large"@) + "</p>"@);
    } else if let Some(t) = text {
        push_str(&mut out, "<pre class=\"preview-text\">");
        let e = esc(t);
        push_str(&mut out, e.as_str());
        push_str(&mut out, "</pre>");
        assert(out@ =~= "<pre class=\"preview-text\">"@ + escaped(t@) + "</pre>"@);
    } else {
        push_str(&mut out, "<p>");
        push_str(&mut out, tr(l, "no_preview"));
        push_str(&mut out, "</p>");
        assert(out@ =~= "<p>"@ + tr_text(l, "no_preview"@) + "</p>"@);
    }
    out
}

/// The file page body: path, size and time, links, and the preview.
pub open spec fn file_view_body_text(
    l: Lang,
    canon: Seq<char>,
    size: i64,
    modified: Seq<char>,
    bytes: Option<Seq<u8>>,
) -> Seq<char> {
    "<h3>"@ + escaped(canon) + "</h3>"@ + ("<p class=\"count\">"@ + size_text(size as int)
        + " \u{b7} "@ + escaped(clipped(modified, 19)) + "</p>"@) + (
    "<div class=\"bar\"><a class=\"btn\" href=\"/admin/files\">"@ + tr_text(l, "back_to_list"@)
        + "</a>\n        <a class=\"btn\" href=\"/admin/files/download?path="@ + url_encoded(
        encode_utf8(canon),
    ) + "\">"@ + tr_text(l, "download"@) + "</a></div>"@) + preview_text(l, canon, size, bytes)
}

/// The file preview page. `bytes` are the file's contents when the preview
/// reads them (see [`needs_preview_read`]).
pub fn file_view_page(l: Lang, canon: &str, size: i64, modified: &str, bytes: Option<&[u8]>) -> (r: String)
    requires
        clip_ok(modified@, 19),
    ensures
        r@ == layout_text(
            l,
            "files"@,
            file_view_body_text(
                l,
                canon@,
                size,
                modified@,
                match bytes {
                    Some(b) => Some(b@),
                    None => None,
                },
            ),
        ),
{
    let mut meta = String::new();
    push_str(&mut meta, "<p class=\"count\">");
    let h = human_size(size);
    push_str(&mut meta, h.as_str());
    push_str(&mut meta, " \u{b7} ");
    let e = esc(clip(modified, 19));
    push_str(&mut meta, e.as_str());
    push_str(&mut meta, "</p>");
    assert(meta@ =~= "<p class=\"count\">"@ + size_text(size as int) + " \u{b7} "@ + escaped(
        clipped(modified@, 19),
    ) + "</p>"@);
    let mut toolbar = String::new();
    push_str(&mut toolbar, "<div class=\"bar\"><a class=\"btn\" href=\"/admin/files\">");
    push_str(&mut toolbar, tr(l, "back_to_list"));
    push_str(&mut toolbar, "</a>\n        <a class=\"btn\" href=\"/admin/files/download?path=");
    let u = urlenc(canon);
    push_str(&mut toolbar, u.as_str());
    push_str(&mut toolbar, "\">");
    push_str(&mut toolbar, tr(l, "download"));
    push_str(&mut toolbar, "</a></div>");
    assert(toolbar@ =~= "<div class=\"bar\"><a class=\"btn\" href=\"/admin/files\">"@ + tr_text(
        l,
        "back_to_list"@,
    ) + "</a>\n        <a class=\"btn\" href=\"/admin/files/download?path="@ + url_encoded(
        encode_utf8(canon@),
    ) + "\">"@ + tr_text(l, "download"@) + "</a></div>"@);
    let content = preview(l, canon, size, bytes);
    let mut body = String::new();
    push_str(&mut body, "<h3>");
    let e = esc(canon);
    push_str(&mut body, e.as_str());
    push_str(&mut body, "</h3>");
    push_str(&mut body, meta.as_str());
    push_str(&mut body, toolbar.as_str());
    push_str(&mut body, content.as_str());
    assert(body@ =~= file_view_body_text(
        l,
        canon@,
        size,
        modified@,
        match bytes {
            Some(b) => Some(b@),
            None => None,
        },
    ));
    layout(l, "files", body.as_str())
}

/// The last `/`-separated piece of a path.
pub open spec fn base_name(path: Seq<char>) -> Seq<char> {
    match crate::conflicts::last_index_of(path, '/') {
        Some(i) => path.skip(i + 1),
        None => path,
    }
}

/// The `Content-Disposition` of a download: the file's own name, encoded.
pub open spec fn disposition_text(canon: Seq<char>) -> Seq<char> {
    "attachment; filename*=UTF-8''"@ + url_encoded(encode_utf8(base_name(canon)))
}

pub fn download_disposition(canon: &str) -> (r: String)
    ensures
        r@ == disposition_text(canon@),
{
    let cs = crate::text::chars_of(canon);
    let n = cs.len();
    let mut i: usize = n;
    while i > 0 && cs[i - 1] != '/'
        invariant
            i <= n,
            n == cs@.len(),
            forall|k: int| i <= k < n ==> cs@[k] != '/',
        decreases i,
    {
        i = i - 1;
    }
    proof {
        crate::conflicts::lemma_last_index_of(canon@, '/', i - 1);
    }
    let name_cs = crate::text::chars_range(cs.as_slice(), i, n);
    let name = crate::text::string_of(name_cs.as_slice());
    assert(name@ == base_name(canon@)) by {
        assert(canon@.skip(0) =~= canon@);
        assert(name_cs@ =~= canon@.skip(i as int));
    }
    let mut out = String::new();
    push_str(&mut out, "attachment; filename*=UTF-8''");
    let u = urlenc(name.as_str());
    push_str(&mut out, u.as_str());
    out
}

} // verus!

verus! {

// ---------- conflicts ----------

/// One unresolved conflict: id, path, detection time, losing device name.
#[derive(Debug, Clone)]
pub struct ConflictRow {
    pub id: String,
    pub path: String,
    pub detected: String,
    pub device: Option<String>,
}

pub open spec fn conflict_row_text(l: Lang, r: ConflictRow) -> Seq<char> {
    "<tr><td><a href=\"/admin/conflicts/"@ + escaped(r.id@) + "/compare\">"@ + escaped(r.path@)
        + "</a></td><td>"@ + escaped(clipped(r.detected@, 19)) + "</td><td>"@ + escaped(
        or_else(opt_str(r.device), "?"@),
    ) + "</td><td>\n                <a class=\"btn\" href=\"/admin/conflicts/"@ + escaped(r.id@)
        + "/compare\">"@ + tr_text(l, "compare"@)
        + "</a>\n                <form method=\"post\" action=\"/admin/conflicts/"@ + escaped(
        r.id@,
    )
        + "/resolve\" class=\"inline\">\n                    <button name=\"choice\" value=\"keep_active\">"@
        + tr_text(l, "keep_active"@)
        + "</button>\n                    <button name=\"choice\" value=\"use_other\">"@ + tr_text(
        l,
        "use_other"@,
    ) + "</button>\n                    <button name=\"choice\" value=\"keep_both\">"@ + tr_text(
        l,
        "keep_both"@,
    ) + "</button>\n                </form></td></tr>"@
}

fn conflict_row(l: Lang, r: &ConflictRow) -> (s: String)
    requires
        clip_ok(r.detected@, 19),
    ensures
        s@ == conflict_row_text(l, *r),
{
    let id = esc(r.id.as_str());
    let mut out = String::new();
    push_str(&mut out, "<tr><td><a href=\"/admin/conflicts/");
    push_str(&mut out, id.as_str());
    push_str(&mut out, "/compare\">");
    let e = esc(r.path.as_str());
    push_str(&mut out, e.as_str());
    push_str(&mut out, "</a></td><td>");
    let e = esc(clip(r.detected.as_str(), 19));
    push_str(&mut out, e.as_str());
    push_str(&mut out, "</td><td>");
    let e = esc(text_or(&r.device, "?"));
    push_str(&mut out, e.as_str());
    push_str(&mut out, "</td><td>\n                <a class=\"btn\" href=\"/admin/conflicts/");
    push_str(&mut out, id.as_str());
    push_str(&mut out, "/compare\">");
    push_str(&mut out, tr(l, "compare"));
    push_str(&mut out, "</a>\n                <form method=\"post\" action=\"/admin/conflicts/");
    push_str(&mut out, id.as_str());
    push_str(
        &mut out,
        "/resolve\" class=\"inline\">\n                    <button name=\"choice\" value=\"keep_active\">",
    );
    push_str(&mut out, tr(l, "keep_active"));
    push_str(&mut out, "</button>\n                    <button name=\"choice\" value=\"use_other\">");
    push_str(&mut out, tr(l, "use_other"));
    push_str(&mut out, "</button>\n                    <button name=\"choice\" value=\"keep_both\">");
    push_str(&mut out, tr(l, "keep_both"));
    push_str(&mut out, "</button>\n                </form></td></tr>");
    out
}

pub open spec fn conflict_rows_text(l: Lang, rows: Seq<ConflictRow>) -> Seq<char>
    decreases rows.len(),
{
    if rows.len() == 0 {
        Seq::empty()
    } else {
        conflict_rows_text(l, rows.drop_last()) + conflict_row_text(l, rows.last())
    }
}

/// The conflicts page body.
pub open spec fn conflicts_body_text(l: Lang, msg: Option<Seq<char>>, rows: Seq<ConflictRow>) -> Seq<char> {
    msg_text(msg) + if rows.len() == 0 {
        "<p>"@ + tr_text(l, "no_conflicts"@) + "</p>"@
    } else {
        "<table><tr><th>"@ + tr_text(l, "path"@) + "</th><th>"@ + tr_text(l, "detected"@)
            + "</th><th>"@ + tr_text(l, "losing_device"@) + "</th><th>"@ + tr_text(l, "action"@)
            + "</th></tr>"@ + conflict_rows_text(l, rows) + "</table>"@
    }
}

/// The unresolved conflicts with their resolution buttons.
pub fn conflicts_page(l: Lang, msg: Option<&str>, rows: &Vec<ConflictRow>) -> (r: String)
    requires
        forall|i: int| 0 <= i < rows@.len() ==> clip_ok(#[trigger] rows@[i].detected@, 19),
    ensures
        r@ == layout_text(l, "conflicts"@, conflicts_body_text(l, opt_text(msg), rows@)),
{
    let mut body = msg_html(msg);
    let mut part = String::new();
    if rows.len() == 0 {
        push_str(&mut part, "<p>");
        push_str(&mut part, tr(l, "no_conflicts"));
        push_str(&mut part, "</p>");
        assert(part@ =~= "<p>"@ + tr_text(l, "no_conflicts"@) + "</p>"@);
    } else {
        push_str(&mut part, "<table><tr><th>");
        push_str(&mut part, tr(l, "path"));
        push_str(&mut part, "</th><th>");
        push_str(&mut part, tr(l, "detected"));
        push_str(&mut part, "</th><th>");
        push_str(&mut part, tr(l, "losing_device"));
        push_str(&mut part, "</th><th>");
        push_str(&mut part, tr(l, "action"));
        push_str(&mut part, "</th></tr>");
        let mut list = String::new();
        let n = rows.len();
        for i in 0..n
            invariant
                n == rows@.len(),
                forall|j: int| 0 <= j < rows@.len() ==> clip_ok(#[trigger] rows@[j].detected@, 19),
                list@ == conflict_rows_text(l, rows@.take(i as int)),
        {
            let row = conflict_row(l, &rows[i]);
            push_str(&mut list, row.as_str());
            proof {
                assert(rows@.take(i + 1).drop_last() =~= rows@.take(i as int));
            }
        }
        assert(rows@.take(n as int) =~= rows@);
        push_str(&mut part, list.as_str());
        push_str(&mut part, "</table>");
        assert(part@ =~= "<table><tr><th>"@ + tr_text(l, "path"@) + "</th><th>"@ + tr_text(
            l,
            "detected"@,
        ) + "</th><th>"@ + tr_text(l, "losing_device"@) + "</th><th>"@ + tr_text(l, "action"@)
            + "</th></tr>"@ + conflict_rows_text(l, rows@) + "</table>"@);
    }
    push_str(&mut body, part.as_str());
    layout(l, "conflicts", body.as_str())
}

/// A muted notice in a comparison pane.
pub open spec fn muted_text(l: Lang, key: Seq<char>) -> Seq<char> {
    "<p class=\"muted\">"@ + tr_text(l, key) + "</p>"@
}

fn muted(l: Lang, key: &str) -> (r: String)
    ensures
        r@ == muted_text(l, key@),
{
    let mut out = String::new();
    push_str(&mut out, "<p class=\"muted\">");
    push_str(&mut out, tr(l, key));
    push_str(&mut out, "</p>");
    assert(out@ =~= muted_text(l, key@));
    out
}

/// The comparison page body: the active version (from the vault, when it
/// could be read) beside the losing one (from the conflicts root).
pub open spec fn compare_body_text(
    l: Lang,
    id: Seq<char>,
    path: Seq<char>,
    device: Option<Seq<char>>,
    detected: Seq<char>,
    active: Option<Seq<u8>>,
    losing: Option<Seq<u8>>,
) -> Seq<char> {
    let dev = escaped(or_else(device, "?"@));
    let active_html = match active {
        Some(b) => pane_text(b),
        None => muted_text(l, "missing_local"@),
    };
    let losing_html = match losing {
        Some(b) => pane_text(b),
        None => muted_text(l, "binary_file"@),
    };
    "<div class=\"bar\"><a class=\"btn\" href=\"/admin/conflicts\">"@ + tr_text(
        l,
        "back_to_conflicts"@,
    ) + "</a></div>\n<h3>"@ + escaped(path) + "</h3><p class=\"count\">"@ + dev + " \u{b7} "@
        + escaped(clipped(detected, 19))
        + "</p>\n<div class=\"cmp\">\n  <div class=\"cmp-pane\"><div class=\"cmp-head cmp-head-active\">"@
        + tr_text(l, "current_version"@) + "</div>"@ + active_html
        + "</div>\n  <div class=\"cmp-pane\"><div class=\"cmp-head cmp-head-other\">"@ + (tr_text(
        l,
        "other_version"@,
    ) + " ("@ + dev + ")"@) + "</div>"@ + losing_html
        + "</div>\n</div>\n<form method=\"post\" action=\"/admin/conflicts/"@ + escaped(id)
        + "/resolve\" class=\"cmp-actions\">\n  <button name=\"choice\" value=\"keep_active\" class=\"primary\">"@
        + tr_text(l, "keep_active"@) + "</button>\n  <button name=\"choice\" value=\"use_other\">"@
        + tr_text(l, "use_other"@) + "</button>\n  <button name=\"choice\" value=\"keep_both\">"@
        + tr_text(l, "keep_both"@) + "</button>\n</form>"@
}

pub open spec fn opt_bytes(o: Option<&[u8]>) -> Option<Seq<u8>> {
    match o {
        Some(b) => Some(b@),
        None => None,
    }
}

/// Side-by-side comparison of a conflict's two versions.
pub fn compare_page(
    l: Lang,
    id: &str,
    path: &str,
    device: Option<&str>,
    detected: &str,
    active: Option<&[u8]>,
    losing: Option<&[u8]>,
) -> (r: String)
    requires
        clip_ok(detected@, 19),
    ensures
        r@ == layout_text(
            l,
            "conflicts"@,
            compare_body_text(
                l,
                id@,
                path@,
                opt_text(device),
                detected@,
                opt_bytes(active),
                opt_bytes(losing),
            ),
        ),
{
    let d = match device {
        Some(d) => d,
        None => "?",
    };
    let dev = esc(d);
    let active_html = match active {
        Some(b) => render_pane(b),
        None => muted(l, "missing_local"),
    };
    let losing_html = match losing {
        Some(b) => render_pane(b),
        None => muted(l, "binary_file"),
    };
    let mut oth = String::new();
    push_str(&mut oth, tr(l, "other_version"));
    push_str(&mut oth, " (");
    push_str(&mut oth, dev.as_str());
    push_str(&mut oth, ")");
    let mut body = String::new();
    push_str(&mut body, "<div class=\"bar\"><a class=\"btn\" href=\"/admin/conflicts\">");
    push_str(&mut body, tr(l, "back_to_conflicts"));
    push_str(&mut body, "</a></div>\n<h3>");
    let e = esc(path);
    push_str(&mut body, e.as_str());
    push_str(&mut body, "</h3><p class=\"count\">");
    push_str(&mut body, dev.as_str());
    push_str(&mut body, " \u{b7} ");
    let e = esc(clip(detected, 19));
    push_str(&mut body, e.as_str());
    push_str(
        &mut body,
        "</p>\n<div class=\"cmp\">\n  <div class=\"cmp-pane\"><div class=\"cmp-head cmp-head-active\">",
    );
    push_str(&mut body, tr(l, "current_version"));
    push_str(&mut body, "</div>");
    push_str(&mut body, active_html.as_str());
    push_str(&mut body, "</div>\n  <div class=\"cmp-pane\"><div class=\"cmp-head cmp-head-other\">");
    push_str(&mut body, oth.as_str());
    push_str(&mut body, "</div>");
    push_str(&mut body, losing_html.as_str());
    push_str(&mut body, "</div>\n</div>\n<form method=\"post\" action=\"/admin/conflicts/");
    let e = esc(id);
    push_str(&mut body, e.as_str());
    push_str(
        &mut body,
        "/resolve\" class=\"cmp-actions\">\n  <button name=\"choice\" value=\"keep_active\" class=\"primary\">",
    );
    push_str(&mut body, tr(l, "keep_active"));
    push_str(&mut body, "</button>\n  <button name=\"choice\" value=\"use_other\">");
    push_str(&mut body, tr(l, "use_other"));
    push_str(&mut body, "</button>\n  <button name=\"choice\" value=\"keep_both\">");
    push_str(&mut body, tr(l, "keep_both"));
    push_str(&mut body, "</button>\n</form>");
    proof {
        assert(dev@ == escaped(or_else(opt_text(device), "?"@)));
    }
    layout(l, "conflicts", body.as_str())
}

} // verus!

verus! {

// ---------- trash ----------

/// One trashed file: id, original path, size, deletion time, expiry, device.
#[derive(Debug, Clone)]
pub struct TrashRow {
    pub id: String,
    pub path: String,
    pub size: i64,
    pub deleted: String,
    pub expires: String,
    pub device: Option<String>,
}

pub open spec fn trash_row_text(l: Lang, r: TrashRow) -> Seq<char> {
    "<tr><td>"@ + escaped(r.path@) + "</td><td>"@ + size_text(r.size as int) + "</td><td>"@
        + escaped(clipped(r.deleted@, 19)) + "</td><td>"@ + escaped(
        or_else(opt_str(r.device), dash()),
    ) + "</td><td>"@ + escaped(clipped(r.expires@, 10))
        + "</td><td>\n                <form method=\"post\" action=\"/admin/trash/"@ + escaped(r.id@)
        + "/restore\" class=\"inline\"><button>"@ + tr_text(l, "restore"@)
        + "</button></form>\n                <form method=\"post\" action=\"/admin/trash/"@ + escaped(
        r.id@,
    ) + "/purge\" class=\"inline\" onsubmit=\"return confirm('"@ + tr_text(l, "purge_confirm"@)
        + "')\"><button class=\"danger\">"@ + tr_text(l, "purge"@)
        + "</button></form>\n                </td></tr>"@
}

/// Whether the clipped timestamps of a trash row can be cut where shown.
pub open spec fn trash_row_ok(r: TrashRow) -> bool {
    clip_ok(r.deleted@, 19) && clip_ok(r.expires@, 10)
}

fn trash_row(l: Lang, r: &TrashRow) -> (s: String)
    requires
        trash_row_ok(*r),
    ensures
        s@ == trash_row_text(l, *r),
{
    let id = esc(r.id.as_str());
    let mut out = String::new();
    push_str(&mut out, "<tr><td>");
    let e = esc(r.path.as_str());
    push_str(&mut out, e.as_str());
    push_str(&mut out, "</td><td>");
    let h = human_size(r.size);
    push_str(&mut out, h.as_str());
    push_str(&mut out, "</td><td>");
    let e = esc(clip(r.deleted.as_str(), 19));
    push_str(&mut out, e.as_str());
    push_str(&mut out, "</td><td>");
    let e = esc(text_or(&r.device, "\u{2014}"));
    push_str(&mut out, e.as_str());
    push_str(&mut out, "</td><td>");
    let e = esc(clip(r.expires.as_str(), 10));
    push_str(&mut out, e.as_str());
    push_str(&mut out, "</td><td>\n                <form method=\"post\" action=\"/admin/trash/");
    push_str(&mut out, id.as_str());
    push_str(&mut out, "/restore\" class=\"inline\"><button>");
    push_str(&mut out, tr(l, "restore"));
    push_str(&mut out, "</button></form>\n                <form method=\"post\" action=\"/admin/trash/");
    push_str(&mut out, id.as_str());
    push_str(&mut out, "/purge\" class=\"inline\" onsubmit=\"return confirm('");
    push_str(&mut out, tr(l, "purge_confirm"));
    push_str(&mut out, "')\"><button class=\"danger\">");
    push_str(&mut out, tr(l, "purge"));
    push_str(&mut out, "</button></form>\n                </td></tr>");
    out
}

pub open spec fn trash_rows_text(l: Lang, rows: Seq<TrashRow>) -> Seq<char>
    decreases rows.len(),
{
    if rows.len() == 0 {
        Seq::empty()
    } else {
        trash_rows_text(l, rows.drop_last()) + trash_row_text(l, rows.last())
    }
}

/// The trash page body.
pub open spec fn trash_body_text(l: Lang, msg: Option<Seq<char>>, rows: Seq<TrashRow>) -> Seq<char> {
    msg_text(msg) + if rows.len() == 0 {
        "<p>"@ + tr_text(l, "trash_empty"@) + "</p>"@
    } else {
        "<table><tr><th>"@ + tr_text(l, "path"@) + "</th><th>"@ + tr_text(l, "size"@) + "</th><th>"@
            + tr_text(l, "deleted"@) + "</th><th>"@ + tr_text(l, "deleted_by"@) + "</th><th>"@
            + tr_text(l, "expires"@) + "</th><th>"@ + tr_text(l, "action"@) + "</th></tr>"@
            + trash_rows_text(l, rows) + "</table>"@
    }
}

/// Trashed files with restore and purge buttons.
pub fn trash_page(l: Lang, msg: Option<&str>, rows: &Vec<TrashRow>) -> (r: String)
    requires
        forall|i: int| 0 <= i < rows@.len() ==> trash_row_ok(#[trigger] rows@[i]),
    ensures
        r@ == layout_text(l, "trash"@, trash_body_text(l, opt_text(msg), rows@)),
{
    let mut body = msg_html(msg);
    let mut part = String::new();
    if rows.len() == 0 {
        push_str(&mut part, "<p>");
        push_str(&mut part, tr(l, "trash_empty"));
        push_str(&mut part, "</p>");
        assert(part@ =~= "<p>"@ + tr_text(l, "trash_empty"@) + "</p>"@);
    } else {
        push_str(&mut part, "<table><tr><th>");
        push_str(&mut part, tr(l, "path"));
        push_str(&mut part, "</th><th>");
        push_str(&mut part, tr(l, "size"));
        push_str(&mut part, "</th><th>");
        push_str(&mut part, tr(l, "deleted"));
        push_str(&mut part, "</th><th>");
        push_str(&mut part, tr(l, "deleted_by"));
        push_str(&mut part, "</th><th>");
        push_str(&mut part, tr(l, "expires"));
        push_str(&mut part, "</th><th>");
        push_str(&mut part, tr(l, "action"));
        push_str(&mut part, "</th></tr>");
        let mut list = String::new();
        let n = rows.len();
        for i in 0..n
            invariant
                n == rows@.len(),
                forall|j: int| 0 <= j < rows@.len() ==> trash_row_ok(#[trigger] rows@[j]),
                list@ == trash_rows_text(l, rows@.take(i as int)),
        {
            let row = trash_row(l, &rows[i]);
            push_str(&mut list, row.as_str());
            proof {
                assert(rows@.take(i + 1).drop_last() =~= rows@.take(i as int));
            }
        }
        assert(rows@.take(n as int) =~= rows@);
        push_str(&mut part, list.as_str());
        push_str(&mut part, "</table>");
        assert(part@ =~= "<table><tr><th>"@ + tr_text(l, "path"@) + "</th><th>"@ + tr_text(
            l,
            "size"@,
        ) + "</th><th>"@ + tr_text(l, "deleted"@) + "</th><th>"@ + tr_text(l, "deleted_by"@)
            + "</th><th>"@ + tr_text(l, "expires"@) + "</th><th>"@ + tr_text(l, "action"@)
            + "</th></tr>"@ + trash_rows_text(l, rows@) + "</table>"@);
    }
    push_str(&mut body, part.as_str());
    layout(l, "trash", body.as_str())
}

// ---------- devices ----------

/// One paired device.
#[derive(Debug, Clone)]
pub struct DeviceRow {
    pub id: String,
    pub name: String,
    pub platform: Option<String>,
    pub created: String,
    pub last_seen: Option<String>,
    pub revoked: Option<String>,
}

/// Whether every clipped timestamp of a device row can be cut where shown.
pub open spec fn device_row_ok(r: DeviceRow) -> bool {
    clip_ok(r.created@, 10) && (r.last_seen matches Some(s) ==> clip_ok(s@, 19))
}

pub open spec fn device_row_text(l: Lang, r: DeviceRow) -> Seq<char> {
    let status = if r.revoked is Some {
        "<span class=\"badge off\">"@ + tr_text(l, "revoked"@) + "</span>"@
    } else {
        "<span class=\"badge on\">"@ + tr_text(l, "active"@) + "</span>"@
    };
    let action = if r.revoked is None {
        "<form method=\"post\" action=\"/admin/devices/"@ + escaped(r.id@)
            + "/revoke\" class=\"inline\" onsubmit=\"return confirm('"@ + tr_text(
            l,
            "revoke_confirm"@,
        ) + "')\"><button class=\"danger\">"@ + tr_text(l, "revoke"@) + "</button></form>"@
    } else {
        Seq::<char>::empty()
    };
    let seen = match r.last_seen {
        Some(s) => clipped(s@, 19),
        None => dash(),
    };
    "<tr><td>"@ + escaped(r.name@) + "</td><td>"@ + escaped(or_else(opt_str(r.platform), dash()))
        + "</td><td>"@ + escaped(clipped(r.created@, 10)) + "</td><td>"@ + escaped(seen)
        + "</td><td>"@ + status + "</td><td>"@ + action + "</td></tr>"@
}

fn device_row(l: Lang, r: &DeviceRow) -> (s: String)
    requires
        device_row_ok(*r),
    ensures
        s@ == device_row_text(l, *r),
{
    let mut status = String::new();
    if r.revoked.is_some() {
        push_str(&mut status, "<span class=\"badge off\">");
        push_str(&mut status, tr(l, "revoked"));
        push_str(&mut status, "</span>");
        assert(status@ =~= "<span class=\"badge off\">"@ + tr_text(l, "revoked"@) + "</span>"@);
    } else {
        push_str(&mut status, "<span class=\"badge on\">");
        push_str(&mut status, tr(l, "active"));
        push_str(&mut status, "</span>");
        assert(status@ =~= "<span class=\"badge on\">"@ + tr_text(l, "active"@) + "</span>"@);
    }
    let mut action = String::new();
    if r.revoked.is_none() {
        push_str(&mut action, "<form method=\"post\" action=\"/admin/devices/");
        let e = esc(r.id.as_str());
        push_str(&mut action, e.as_str());
        push_str(&mut action, "/revoke\" class=\"inline\" onsubmit=\"return confirm('");
        push_str(&mut action, tr(l, "revoke_confirm"));
        push_str(&mut action, "')\"><button class=\"danger\">");
        push_str(&mut action, tr(l, "revoke"));
        push_str(&mut action, "</button></form>");
        assert(action@ =~= "<form method=\"post\" action=\"/admin/devices/"@ + escaped(r.id@)
            + "/revoke\" class=\"inline\" onsubmit=\"return confirm('"@ + tr_text(
            l,
            "revoke_confirm"@,
        ) + "')\"><button class=\"danger\">"@ + tr_text(l, "revoke"@) + "</button></form>"@);
    }
    let seen: &str = match &r.last_seen {
        Some(s) => clip(s.as_str(), 19),
        None => "\u{2014}",
    };
    let mut out = String::new();
    push_str(&mut out, "<tr><td>");
    let e = esc(r.name.as_str());
    push_str(&mut out, e.as_str());
    push_str(&mut out, "</td><td>");
    let e = esc(text_or(&r.platform, "\u{2014}"));
    push_str(&mut out, e.as_str());
    push_str(&mut out, "</td><td>");
    let e = esc(clip(r.created.as_str(), 10));
    push_str(&mut out, e.as_str());
    push_str(&mut out, "</td><td>");
    let e = esc(seen);
    push_str(&mut out, e.as_str());
    push_str(&mut out, "</td><td>");
    push_str(&mut out, status.as_str());
    push_str(&mut out, "</td><td>");
    push_str(&mut out, action.as_str());
    push_str(&mut out, "</td></tr>");
    out
}

pub open spec fn device_rows_text(l: Lang, rows: Seq<DeviceRow>) -> Seq<char>
    decreases rows.len(),
{
    if rows.len() == 0 {
        Seq::empty()
    } else {
        device_rows_text(l, rows.drop_last()) + device_row_text(l, rows.last())
    }
}

/// The devices page body.
pub open spec fn devices_body_text(l: Lang, msg: Option<Seq<char>>, rows: Seq<DeviceRow>) -> Seq<char> {
    msg_text(msg) + "<table><tr><th>"@ + tr_text(l, "name"@) + "</th><th>"@ + tr_text(
        l,
        "platform"@,
    ) + "</th><th>"@ + tr_text(l, "paired"@) + "</th><th>"@ + tr_text(l, "last_seen"@)
        + "</th><th>"@ + tr_text(l, "status"@) + "</th><th></th></tr>"@ + device_rows_text(l, rows)
        + "</table>"@
}

/// Paired devices, each with its status and (while active) a revoke button.
pub fn devices_page(l: Lang, msg: Option<&str>, rows: &Vec<DeviceRow>) -> (r: String)
    requires
        forall|i: int| 0 <= i < rows@.len() ==> device_row_ok(#[trigger] rows@[i]),
    ensures
        r@ == layout_text(l, "devices"@, devices_body_text(l, opt_text(msg), rows@)),
{
    let mut body = msg_html(msg);
    push_str(&mut body, "<table><tr><th>");
    push_str(&mut body, tr(l, "name"));
    push_str(&mut body, "</th><th>");
    push_str(&mut body, tr(l, "platform"));
    push_str(&mut body, "</th><th>");
    push_str(&mut body, tr(l, "paired"));
    push_str(&mut body, "</th><th>");
    push_str(&mut body, tr(l, "last_seen"));
    push_str(&mut body, "</th><th>");
    push_str(&mut body, tr(l, "status"));
    push_str(&mut body, "</th><th></th></tr>");
    let mut list = String::new();
    let n = rows.len();
    for i in 0..n
        invariant
            n == rows@.len(),
            forall|j: int| 0 <= j < rows@.len() ==> device_row_ok(#[trigger] rows@[j]),
            list@ == device_rows_text(l, rows@.take(i as int)),
    {
        let row = device_row(l, &rows[i]);
        push_str(&mut list, row.as_str());
        proof {
            assert(rows@.take(i + 1).drop_last() =~= rows@.take(i as int));
        }
    }
    assert(rows@.take(n as int) =~= rows@);
    push_str(&mut body, list.as_str());
    push_str(&mut body, "</table>");
    layout(l, "devices", body.as_str())
}

} // verus!

verus! {

// ---------- settings ----------

/// Single-row aggregates shown on the settings page.
#[derive(Debug, Clone, Copy)]
pub struct VaultStats {
    pub file_count: i64,
    pub total_size: Option<i64>,
    pub db_size: i64,
    pub device_count: i64,
    pub trash_count: i64,
    pub conflict_count: i64,
    pub audit_count: i64,
}

/// One key/value row.
pub open spec fn kv_text(k: Seq<char>, v: Seq<char>) -> Seq<char> {
    "<tr><th>"@ + k + "</th><td>"@ + v + "</td></tr>"@
}

fn kv(k: &str, v: &str) -> (r: String)
    ensures
        r@ == kv_text(k@, v@),
{
    let mut out = String::new();
    push_str(&mut out, "<tr><th>");
    push_str(&mut out, k);
    push_str(&mut out, "</th><td>");
    push_str(&mut out, v);
    push_str(&mut out, "</td></tr>");
    assert(out@ =~= kv_text(k@, v@));
    out
}

/// A count followed by a unit word.
pub open spec fn count_text(n: nat, unit: Seq<char>) -> Seq<char> {
    decimal(n) + " "@ + unit
}

fn count_of(n: u64, unit: &str) -> (r: String)
    ensures
        r@ == count_text(n as nat, unit@),
{
    let mut out = String::new();
    push_decimal(&mut out, n as u128);
    push_str(&mut out, " ");
    push_str(&mut out, unit);
    assert(out@ =~= count_text(n as nat, unit@));
    out
}

/// The settings page body: configuration, then vault statistics.
pub open spec fn settings_body_text(l: Lang, cfg: crate::config::Config, s: VaultStats) -> Seq<char> {
    let pairing = match cfg.pairing_code {
        Some(c) => "<code>"@ + escaped(c@) + "</code>"@,
        None => tr_text(l, "pairing_disabled"@),
    };
    "<h3>"@ + tr_text(l, "server_config"@) + "</h3><table class=\"kv\">"@ + kv_text(
        tr_text(l, "pairing_code"@),
        pairing,
    ) + kv_text(tr_text(l, "trash_ttl"@), count_text(cfg.trash_ttl_days as nat, tr_text(l, "days"@)))
        + kv_text(tr_text(l, "max_file"@), count_text(cfg.max_file_size_mb as nat, "MB"@))
        + kv_text(tr_text(l, "jwt_ttl"@), count_text(cfg.jwt_ttl_days as nat, tr_text(l, "days"@)))
        + kv_text(tr_text(l, "bind_addr"@), escaped(cfg.bind@))
        + "</table>\n           <h3>"@ + tr_text(l, "vault_stats"@) + "</h3><table class=\"kv\">"@
        + kv_text(tr_text(l, "file_count"@), int_text(s.file_count as int)) + kv_text(
        tr_text(l, "total_size"@),
        size_text(
            match s.total_size {
                Some(t) => t as int,
                None => 0,
            },
        ),
    ) + kv_text(tr_text(l, "db_size"@), size_text(s.db_size as int)) + kv_text(
        tr_text(l, "active_devices"@),
        int_text(s.device_count as int),
    ) + kv_text(tr_text(l, "trash_count"@), int_text(s.trash_count as int)) + kv_text(
        tr_text(l, "open_conflicts"@),
        int_text(s.conflict_count as int) + " / "@ + int_text(s.audit_count as int) + " "@
            + tr_text(l, "audit_rows"@),
    ) + "</table>"@
}

/// The settings page: server configuration and vault statistics.
pub fn settings_page(l: Lang, cfg: &crate::config::Config, s: VaultStats) -> (r: String)
    ensures
        r@ == layout_text(l, "settings"@, settings_body_text(l, *cfg, s)),
{
    let pairing = match &cfg.pairing_code {
        Some(c) => {
            let mut p = String::new();
            push_str(&mut p, "<code>");
            let e = esc(c.as_str());
            push_str(&mut p, e.as_str());
            push_str(&mut p, "</code>");
            assert(p@ =~= "<code>"@ + escaped(c@) + "</code>"@);
            p
        },
        None => {
            let mut p = String::new();
            push_str(&mut p, tr(l, "pairing_disabled"));
            assert(p@ =~= tr_text(l, "pairing_disabled"@));
            p
        },
    };
    let mut body = String::new();
    push_str(&mut body, "<h3>");
    push_str(&mut body, tr(l, "server_config"));
    push_str(&mut body, "</h3><table class=\"kv\">");
    let r = kv(tr(l, "pairing_code"), pairing.as_str());
    push_str(&mut body, r.as_str());
    let v = count_of(cfg.trash_ttl_days as u64, tr(l, "days"));
    let r = kv(tr(l, "trash_ttl"), v.as_str());
    push_str(&mut body, r.as_str());
    let v = count_of(cfg.max_file_size_mb, "MB");
    let r = kv(tr(l, "max_file"), v.as_str());
    push_str(&mut body, r.as_str());
    let v = count_of(cfg.jwt_ttl_days as u64, tr(l, "days"));
    let r = kv(tr(l, "jwt_ttl"), v.as_str());
    push_str(&mut body, r.as_str());
    let e = esc(cfg.bind.as_str());
    let r = kv(tr(l, "bind_addr"), e.as_str());
    push_str(&mut body, r.as_str());
    push_str(&mut body, "</table>\n           <h3>");
    push_str(&mut body, tr(l, "vault_stats"));
    push_str(&mut body, "</h3><table class=\"kv\">");
    let v = int_to_text(s.file_count);
    let r = kv(tr(l, "file_count"), v.as_str());
    push_str(&mut body, r.as_str());
    let total = match s.total_size {
        Some(t) => t,
        None => 0,
    };
    let v = human_size(total);
    let r = kv(tr(l, "total_size"), v.as_str());
    push_str(&mut body, r.as_str());
    let v = human_size(s.db_size);
    let r = kv(tr(l, "db_size"), v.as_str());
    push_str(&mut body, r.as_str());
    let v = int_to_text(s.device_count);
    let r = kv(tr(l, "active_devices"), v.as_str());
    push_str(&mut body, r.as_str());
    let v = int_to_text(s.trash_count);
    let r = kv(tr(l, "trash_count"), v.as_str());
    push_str(&mut body, r.as_str());
    let mut v = int_to_text(s.conflict_count);
    push_str(&mut v, " / ");
    let a = int_to_text(s.audit_count);
    push_str(&mut v, a.as_str());
    push_str(&mut v, " ");
    push_str(&mut v, tr(l, "audit_rows"));
    let r = kv(tr(l, "open_conflicts"), v.as_str());
    push_str(&mut body, r.as_str());
    push_str(&mut body, "</table>");
    layout(l, "settings", body.as_str())
}

} // verus!

verus! {

// ---------- what the action pages show ----------

/// A console page holds its body.
#[verifier::spinoff_prover]
#[verifier::rlimit(50)]
pub proof fn lemma_layout_holds_body(l: Lang, active: Seq<char>, body: Seq<char>)
    ensures
        holds_text(layout_text(l, active, body), body),
{
    let x = crate::admin::PAGE_HEAD@ + (
    "<div class=\"shell\">\n<aside><div class=\"logo\">\u{1f5c4} NAS Sync</div><nav>"@
        + crate::admin::nav_text(l, active) + "</nav>\n<div class=\"aside-foot\"><span class=\"lang\">"@
        + crate::admin::lang_switch_text(l)
        + "</span>\n<form method=\"post\" action=\"/admin/logout\"><button>"@ + tr_text(
        l,
        "logout"@,
    ) + "</button></form></div></aside>\n<main><header><h1>"@ + tr_text(l, active)
        + "</h1></header><section>"@);
    let y = "</section></main></div>"@ + crate::admin::PAGE_TAIL@;
    assert(layout_text(l, active, body) =~= x + body + y);
    lemma_holds_part(x, body, y);
}

/// The restore button of trashed file `id`: a form posting to its restore
/// action, labelled "restore".
pub open spec fn restore_form(l: Lang, id: Seq<char>) -> Seq<char> {
    "<form method=\"post\" action=\"/admin/trash/"@ + escaped(id) + "/restore"@
        + "\" class=\"inline\"><button>"@ + tr_text(l, "restore"@) + "</button></form>"@
}

/// The purge button of trashed file `id`: a form posting to its purge
/// action after a confirmation, labelled "purge".
pub open spec fn purge_form(l: Lang, id: Seq<char>) -> Seq<char> {
    "<form method=\"post\" action=\"/admin/trash/"@ + escaped(id) + "/purge"@
        + "\" class=\"inline\" onsubmit=\"return confirm('"@ + tr_text(l, "purge_confirm"@)
        + "')\"><button class=\"danger\">"@ + tr_text(l, "purge"@) + "</button></form>"@
}

/// Each trash row holds a restore form labelled "restore" that posts to
/// that file's restore action, and a purge form labelled "purge", with a
/// confirmation, that posts to its purge action.
#[verifier::spinoff_prover]
#[verifier::rlimit(50)]
pub proof fn lemma_trash_row_forms(l: Lang, r: TrashRow)
    ensures
        holds_text(trash_row_text(l, r), restore_form(l, r.id@)),
        holds_text(trash_row_text(l, r), purge_form(l, r.id@)),
{
    reveal_strlit("</td><td>\n                <form method=\"post\" action=\"/admin/trash/");
    reveal_strlit("</td><td>\n                ");
    reveal_strlit("<form method=\"post\" action=\"/admin/trash/");
    reveal_strlit("</button></form>\n                <form method=\"post\" action=\"/admin/trash/");
    reveal_strlit("</button></form>");
    reveal_strlit("\n                ");
    reveal_strlit("/restore\" class=\"inline\"><button>");
    reveal_strlit("/restore");
    reveal_strlit("\" class=\"inline\"><button>");
    reveal_strlit("/purge\" class=\"inline\" onsubmit=\"return confirm('");
    reveal_strlit("/purge");
    reveal_strlit("\" class=\"inline\" onsubmit=\"return confirm('");
    reveal_strlit("</button></form>\n                </td></tr>");
    reveal_strlit("\n                </td></tr>");
    let head = "<tr><td>"@ + escaped(r.path@) + "</td><td>"@ + size_text(r.size as int)
        + "</td><td>"@ + escaped(clipped(r.deleted@, 19)) + "</td><td>"@ + escaped(
        or_else(opt_str(r.device), dash()),
    ) + "</td><td>"@ + escaped(clipped(r.expires@, 10)) + "</td><td>\n                "@;
    let rf = restore_form(l, r.id@);
    let pf = purge_form(l, r.id@);
    let tail = "\n                </td></tr>"@;
    assert(trash_row_text(l, r) =~= head + rf + ("\n                "@ + pf + tail));
    assert(trash_row_text(l, r) =~= (head + rf + "\n                "@) + pf + tail);
    lemma_holds_part(head, rf, "\n                "@ + pf + tail);
    lemma_holds_part(head + rf + "\n                "@, pf, tail);
}

proof fn lemma_trash_rows_hold(l: Lang, rows: Seq<TrashRow>, i: int)
    requires
        0 <= i < rows.len(),
    ensures
        holds_text(trash_rows_text(l, rows), trash_row_text(l, rows[i])),
    decreases rows.len(),
{
    let pre = rows.drop_last();
    if i == rows.len() - 1 {
        assert(trash_rows_text(l, rows) =~= trash_rows_text(l, pre) + trash_row_text(l, rows[i])
            + Seq::<char>::empty());
        lemma_holds_part(trash_rows_text(l, pre), trash_row_text(l, rows[i]), Seq::empty());
    } else {
        lemma_trash_rows_hold(l, pre, i);
        assert(pre[i] == rows[i]);
        assert(trash_rows_text(l, rows) =~= Seq::<char>::empty() + trash_rows_text(l, pre)
            + trash_row_text(l, rows.last()));
        lemma_holds_within(
            Seq::empty(),
            trash_rows_text(l, pre),
            trash_row_text(l, rows.last()),
            trash_row_text(l, rows[i]),
        );
    }
}

proof fn lemma_trash_body_holds_rows(l: Lang, msg: Option<Seq<char>>, rows: Seq<TrashRow>)
    requires
        rows.len() > 0,
    ensures
        holds_text(trash_body_text(l, msg, rows), trash_rows_text(l, rows)),
{
    let x = msg_text(msg) + ("<table><tr><th>"@ + tr_text(l, "path"@) + "</th><th>"@ + tr_text(l, "size"@)
        + "</th><th>"@ + tr_text(l, "deleted"@) + "</th><th>"@ + tr_text(l, "deleted_by"@)
        + "</th><th>"@ + tr_text(l, "expires"@) + "</th><th>"@ + tr_text(l, "action"@)
        + "</th></tr>"@);
    let rt = trash_rows_text(l, rows);
    assert(trash_body_text(l, msg, rows) =~= x + rt + "</table>"@);
    lemma_holds_part(x, rt, "</table>"@);
}

/// On the trash page every trashed file has a restore button, a form that
/// posts to that file's restore action and is labelled "restore", and a
/// purge button, a form that asks for confirmation, posts to the file's
/// purge action and is labelled "purge".
#[verifier::spinoff_prover]
#[verifier::rlimit(50)]
pub proof fn lemma_trash_page_buttons(l: Lang, msg: Option<Seq<char>>, rows: Seq<TrashRow>, i: int)
    requires
        0 <= i < rows.len(),
    ensures
        holds_text(layout_text(l, "trash"@, trash_body_text(l, msg, rows)), restore_form(l, rows[i].id@)),
        holds_text(layout_text(l, "trash"@, trash_body_text(l, msg, rows)), purge_form(l, rows[i].id@)),
{
    lemma_layout_holds_body(l, "trash"@, trash_body_text(l, msg, rows));
    lemma_trash_body_holds_rows(l, msg, rows);
    lemma_trash_rows_hold(l, rows, i);
    lemma_trash_row_forms(l, rows[i]);
    lemma_holds_trans(
        layout_text(l, "trash"@, trash_body_text(l, msg, rows)),
        trash_body_text(l, msg, rows),
        trash_rows_text(l, rows),
    );
    lemma_holds_trans(
        layout_text(l, "trash"@, trash_body_text(l, msg, rows)),
        trash_rows_text(l, rows),
        trash_row_text(l, rows[i]),
    );
    lemma_holds_trans(
        layout_text(l, "trash"@, trash_body_text(l, msg, rows)),
        trash_row_text(l, rows[i]),
        restore_form(l, rows[i].id@),
    );
    lemma_holds_trans(
        layout_text(l, "trash"@, trash_body_text(l, msg, rows)),
        trash_row_text(l, rows[i]),
        purge_form(l, rows[i].id@),
    );
}

} // verus!

verus! {

/// The button of a conflict row that submits `choice`, labelled with the
/// choice's name.
pub open spec fn choice_button(l: Lang, choice: Seq<char>) -> Seq<char> {
    "<button name=\"choice\" value=\""@ + choice + "\">"@ + tr_text(l, choice) + "</button>"@
}

/// The opening of the resolve form of conflict `id`.
pub open spec fn resolve_form_open(id: Seq<char>) -> Seq<char> {
    "<form method=\"post\" action=\"/admin/conflicts/"@ + escaped(id) + "/resolve"@
        + "\" class=\"inline\">"@
}

/// Each conflict row holds a resolve form posting to that conflict's own
/// resolve action, and each button in it submits the choice its label names.
#[verifier::spinoff_prover]
#[verifier::rlimit(50)]
pub proof fn lemma_conflict_row_buttons(l: Lang, r: ConflictRow)
    ensures
        holds_text(conflict_row_text(l, r), resolve_form_open(r.id@)),
        holds_text(conflict_row_text(l, r), choice_button(l, "keep_active"@)),
        holds_text(conflict_row_text(l, r), choice_button(l, "use_other"@)),
        holds_text(conflict_row_text(l, r), choice_button(l, "keep_both"@)),
{
    reveal_strlit("</a>\n                <form method=\"post\" action=\"/admin/conflicts/");
    reveal_strlit("/resolve\" class=\"inline\">\n                    <button name=\"choice\" value=\"keep_active\">");
    reveal_strlit("</button>\n                    <button name=\"choice\" value=\"use_other\">");
    reveal_strlit("</button>\n                    <button name=\"choice\" value=\"keep_both\">");
    reveal_strlit("</button>\n                </form></td></tr>");
    reveal_strlit("</a>\n                ");
    reveal_strlit("<form method=\"post\" action=\"/admin/conflicts/");
    reveal_strlit("/resolve");
    reveal_strlit("\" class=\"inline\">");
    reveal_strlit("\n                    ");
    reveal_strlit("<button name=\"choice\" value=\"");
    reveal_strlit("\">");
    reveal_strlit("</button>");
    reveal_strlit("keep_active");
    reveal_strlit("use_other");
    reveal_strlit("keep_both");
    reveal_strlit("\n                </form></td></tr>");
    let head = "<tr><td><a href=\"/admin/conflicts/"@ + escaped(r.id@) + "/compare\">"@ + escaped(r.path@)
        + "</a></td><td>"@ + escaped(clipped(r.detected@, 19)) + "</td><td>"@ + escaped(
        or_else(opt_str(r.device), "?"@),
    ) + "</td><td>\n                <a class=\"btn\" href=\"/admin/conflicts/"@ + escaped(r.id@)
        + "/compare\">"@ + tr_text(l, "compare"@) + "</a>\n                "@;
    let f = resolve_form_open(r.id@);
    let s = "\n                    "@;
    let b1 = choice_button(l, "keep_active"@);
    let b2 = choice_button(l, "use_other"@);
    let b3 = choice_button(l, "keep_both"@);
    let tail = "\n                </form></td></tr>"@;
    let row = conflict_row_text(l, r);
    assert(row =~= head + f + (s + b1 + s + b2 + s + b3 + tail));
    assert(row =~= (head + f + s) + b1 + (s + b2 + s + b3 + tail));
    assert(row =~= (head + f + s + b1 + s) + b2 + (s + b3 + tail));
    assert(row =~= (head + f + s + b1 + s + b2 + s) + b3 + tail);
    lemma_holds_part(head, f, s + b1 + s + b2 + s + b3 + tail);
    lemma_holds_part(head + f + s, b1, s + b2 + s + b3 + tail);
    lemma_holds_part(head + f + s + b1 + s, b2, s + b3 + tail);
    lemma_holds_part(head + f + s + b1 + s + b2 + s, b3, tail);
}

proof fn lemma_conflict_rows_hold(l: Lang, rows: Seq<ConflictRow>, i: int)
    requires
        0 <= i < rows.len(),
    ensures
        holds_text(conflict_rows_text(l, rows), conflict_row_text(l, rows[i])),
    decreases rows.len(),
{
    let pre = rows.drop_last();
    if i == rows.len() - 1 {
        assert(conflict_rows_text(l, rows) =~= conflict_rows_text(l, pre) + conflict_row_text(
            l,
            rows[i],
        ) + Seq::<char>::empty());
        lemma_holds_part(conflict_rows_text(l, pre), conflict_row_text(l, rows[i]), Seq::empty());
    } else {
        lemma_conflict_rows_hold(l, pre, i);
        assert(pre[i] == rows[i]);
        assert(conflict_rows_text(l, rows) =~= Seq::<char>::empty() + conflict_rows_text(l, pre)
            + conflict_row_text(l, rows.last()));
        lemma_holds_within(
            Seq::empty(),
            conflict_rows_text(l, pre),
            conflict_row_text(l, rows.last()),
            conflict_row_text(l, rows[i]),
        );
    }
}

proof fn lemma_conflicts_body_holds_rows(l: Lang, msg: Option<Seq<char>>, rows: Seq<ConflictRow>)
    requires
        rows.len() > 0,
    ensures
        holds_text(conflicts_body_text(l, msg, rows), conflict_rows_text(l, rows)),
{
    let x = msg_text(msg) + ("<table><tr><th>"@ + tr_text(l, "path"@) + "</th><th>"@ + tr_text(
        l,
        "detected"@,
    ) + "</th><th>"@ + tr_text(l, "losing_device"@) + "</th><th>"@ + tr_text(l, "action"@)
        + "</th></tr>"@);
    let rt = conflict_rows_text(l, rows);
    assert(conflicts_body_text(l, msg, rows) =~= x + rt + "</table>"@);
    lemma_holds_part(x, rt, "</table>"@);
}

/// On the conflicts page every conflict has a resolve form posting to its
/// own resolve action, and each of its buttons submits the choice its
/// label names: "keep active" submits `keep_active`, "use other"
/// `use_other` and "keep both" `keep_both`.
#[verifier::spinoff_prover]
#[verifier::rlimit(50)]
pub proof fn lemma_conflicts_page_buttons(
    l: Lang,
    msg: Option<Seq<char>>,
    rows: Seq<ConflictRow>,
    i: int,
)
    requires
        0 <= i < rows.len(),
    ensures
        holds_text(
            layout_text(l, "conflicts"@, conflicts_body_text(l, msg, rows)),
            resolve_form_open(rows[i].id@),
        ),
        holds_text(
            layout_text(l, "conflicts"@, conflicts_body_text(l, msg, rows)),
            choice_button(l, "keep_active"@),
        ),
        holds_text(
            layout_text(l, "conflicts"@, conflicts_body_text(l, msg, rows)),
            choice_button(l, "use_other"@),
        ),
        holds_text(
            layout_text(l, "conflicts"@, conflicts_body_text(l, msg, rows)),
            choice_button(l, "keep_both"@),
        ),
{
    let page = layout_text(l, "conflicts"@, conflicts_body_text(l, msg, rows));
    lemma_layout_holds_body(l, "conflicts"@, conflicts_body_text(l, msg, rows));
    lemma_conflicts_body_holds_rows(l, msg, rows);
    lemma_conflict_rows_hold(l, rows, i);
    lemma_conflict_row_buttons(l, rows[i]);
    lemma_holds_trans(page, conflicts_body_text(l, msg, rows), conflict_rows_text(l, rows));
    lemma_holds_trans(page, conflict_rows_text(l, rows), conflict_row_text(l, rows[i]));
    lemma_holds_trans(page, conflict_row_text(l, rows[i]), resolve_form_open(rows[i].id@));
    lemma_holds_trans(page, conflict_row_text(l, rows[i]), choice_button(l, "keep_active"@));
    lemma_holds_trans(page, conflict_row_text(l, rows[i]), choice_button(l, "use_other"@));
    lemma_holds_trans(page, conflict_row_text(l, rows[i]), choice_button(l, "keep_both"@));
}

} // verus!

verus! {

/// The status badge of a revoked device.
pub open spec fn revoked_badge(l: Lang) -> Seq<char> {
    "<span class=\"badge"@ + " off\">"@ + tr_text(l, "revoked"@) + "</span>"@
}

/// The status badge of an active device.
pub open spec fn active_badge(l: Lang) -> Seq<char> {
    "<span class=\"badge"@ + " on\">"@ + tr_text(l, "active"@) + "</span>"@
}

/// The revoke button of device `id`: a form asking for confirmation that
/// posts to its revoke action.
pub open spec fn revoke_form(l: Lang, id: Seq<char>) -> Seq<char> {
    "<form method=\"post\" action=\"/admin/devices/"@ + escaped(id) + "/revoke"@
        + "\" class=\"inline\" onsubmit=\"return confirm('"@ + tr_text(l, "revoke_confirm"@)
        + "')\"><button class=\"danger\">"@ + tr_text(l, "revoke"@) + "</button></form>"@
}

/// A device row shows the "revoked" badge and an empty action cell when the
/// device is revoked, and the "active" badge and a revoke button for that
/// device when it is not.
#[verifier::spinoff_prover]
#[verifier::rlimit(50)]
pub proof fn lemma_device_row_status(l: Lang, r: DeviceRow)
    ensures
        r.revoked is Some ==> holds_text(
            device_row_text(l, r),
            revoked_badge(l) + "</td><td></td></tr>"@,
        ),
        r.revoked is None ==> holds_text(device_row_text(l, r), active_badge(l)),
        r.revoked is None ==> holds_text(device_row_text(l, r), revoke_form(l, r.id@)),
{
    reveal_strlit("<span class=\"badge off\">");
    reveal_strlit("<span class=\"badge on\">");
    reveal_strlit("<span class=\"badge");
    reveal_strlit(" off\">");
    reveal_strlit(" on\">");
    reveal_strlit("</span>");
    reveal_strlit("</td><td>");
    reveal_strlit("</td></tr>");
    reveal_strlit("</td><td></td></tr>");
    reveal_strlit("<form method=\"post\" action=\"/admin/devices/");
    reveal_strlit("/revoke\" class=\"inline\" onsubmit=\"return confirm('");
    reveal_strlit("/revoke");
    reveal_strlit("\" class=\"inline\" onsubmit=\"return confirm('");
    let seen = match r.last_seen {
        Some(s) => clipped(s@, 19),
        None => dash(),
    };
    let head = "<tr><td>"@ + escaped(r.name@) + "</td><td>"@ + escaped(
        or_else(opt_str(r.platform), dash()),
    ) + "</td><td>"@ + escaped(clipped(r.created@, 10)) + "</td><td>"@ + escaped(seen)
        + "</td><td>"@;
    let row = device_row_text(l, r);
    if r.revoked is Some {
        assert(row =~= head + (revoked_badge(l) + "</td><td></td></tr>"@) + Seq::<char>::empty());
        lemma_holds_part(head, revoked_badge(l) + "</td><td></td></tr>"@, Seq::empty());
    } else {
        let f = revoke_form(l, r.id@);
        assert(row =~= head + active_badge(l) + ("</td><td>"@ + f + "</td></tr>"@));
        assert(row =~= (head + active_badge(l) + "</td><td>"@) + f + "</td></tr>"@);
        lemma_holds_part(head, active_badge(l), "</td><td>"@ + f + "</td></tr>"@);
        lemma_holds_part(head + active_badge(l) + "</td><td>"@, f, "</td></tr>"@);
    }
}

proof fn lemma_device_rows_hold(l: Lang, rows: Seq<DeviceRow>, i: int)
    requires
        0 <= i < rows.len(),
    ensures
        holds_text(device_rows_text(l, rows), device_row_text(l, rows[i])),
    decreases rows.len(),
{
    let pre = rows.drop_last();
    if i == rows.len() - 1 {
        assert(device_rows_text(l, rows) =~= device_rows_text(l, pre) + device_row_text(l, rows[i])
            + Seq::<char>::empty());
        lemma_holds_part(device_rows_text(l, pre), device_row_text(l, rows[i]), Seq::empty());
    } else {
        lemma_device_rows_hold(l, pre, i);
        assert(pre[i] == rows[i]);
        assert(device_rows_text(l, rows) =~= Seq::<char>::empty() + device_rows_text(l, pre)
            + device_row_text(l, rows.last()));
        lemma_holds_within(
            Seq::empty(),
            device_rows_text(l, pre),
            device_row_text(l, rows.last()),
            device_row_text(l, rows[i]),
        );
    }
}

/// On the devices page every device row is shown, with its status taken
/// from whether it is revoked.
#[verifier::spinoff_prover]
#[verifier::rlimit(50)]
pub proof fn lemma_devices_page_rows(l: Lang, msg: Option<Seq<char>>, rows: Seq<DeviceRow>, i: int)
    requires
        0 <= i < rows.len(),
    ensures
        holds_text(layout_text(l, "devices"@, devices_body_text(l, msg, rows)), device_row_text(l, rows[i])),
        rows[i].revoked is Some ==> holds_text(
            layout_text(l, "devices"@, devices_body_text(l, msg, rows)),
            revoked_badge(l) + "</td><td></td></tr>"@,
        ),
        rows[i].revoked is None ==> holds_text(
            layout_text(l, "devices"@, devices_body_text(l, msg, rows)),
            active_badge(l),
        ),
        rows[i].revoked is None ==> holds_text(
            layout_text(l, "devices"@, devices_body_text(l, msg, rows)),
            revoke_form(l, rows[i].id@),
        ),
{
    let page = layout_text(l, "devices"@, devices_body_text(l, msg, rows));
    lemma_layout_holds_body(l, "devices"@, devices_body_text(l, msg, rows));
    let x = msg_text(msg) + "<table><tr><th>"@ + tr_text(l, "name"@) + "</th><th>"@ + tr_text(
        l,
        "platform"@,
    ) + "</th><th>"@ + tr_text(l, "paired"@) + "</th><th>"@ + tr_text(l, "last_seen"@)
        + "</th><th>"@ + tr_text(l, "status"@) + "</th><th></th></tr>"@;
    assert(devices_body_text(l, msg, rows) =~= x + device_rows_text(l, rows) + "</table>"@);
    lemma_holds_part(x, device_rows_text(l, rows), "</table>"@);
    lemma_device_rows_hold(l, rows, i);
    lemma_holds_trans(page, devices_body_text(l, msg, rows), device_rows_text(l, rows));
    lemma_holds_trans(page, device_rows_text(l, rows), device_row_text(l, rows[i]));
    lemma_device_row_status(l, rows[i]);
    if rows[i].revoked is Some {
        lemma_holds_trans(page, device_row_text(l, rows[i]), revoked_badge(l) + "</td><td></td></tr>"@);
    } else {
        lemma_holds_trans(page, device_row_text(l, rows[i]), active_badge(l));
        lemma_holds_trans(page, device_row_text(l, rows[i]), revoke_form(l, rows[i].id@));
    }
}

} // verus!

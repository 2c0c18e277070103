//! Text helpers for the admin console's pages: HTML escaping, URL
//! encoding, numbers and sizes, and file-type detection.

use vstd::prelude::*;

use crate::conflicts::last_index_of;
use vstd::string::StringSliceAdditionalSpecFns;
use crate::text::{chars_of, push_chars, push_str, str_eq, string_of};

verus! {

broadcast use vstd::string::group_string_axioms;

// ---------- escaping ----------

/// The escaped form of one character.
pub open spec fn esc_char(c: char) -> Seq<char> {
    if c == '&' {
        seq!['&', 'a', 'm', 'p', ';']
    } else if c == '<' {
        seq!['&', 'l', 't', ';']
    } else if c == '>' {
        seq!['&', 'g', 't', ';']
    } else if c == '"' {
        seq!['&', 'q', 'u', 'o', 't', ';']
    } else {
        seq![c]
    }
}

/// `s` with `&`, `<`, `>` and `"` replaced by their entities.
pub open spec fn escaped(s: Seq<char>) -> Seq<char>
    decreases s.len(),
{
    if s.len() == 0 {
        Seq::empty()
    } else {
        escaped(s.drop_last()) + esc_char(s.last())
    }
}

/// HTML-escape text for element content and attribute values.
pub fn esc(s: &str) -> (r: String)
    ensures
        r@ == escaped(s@),
{
    let cs = chars_of(s);
    let n = cs.len();
    let mut out = String::new();
    for i in 0..n
        invariant
            n == cs@.len(),
            cs@ == s@,
            out@ == escaped(cs@.take(i as int)),
    {
        let c = cs[i];
        proof {
            assert(cs@.take(i + 1).drop_last() =~= cs@.take(i as int));
        }
        let ghost before = out@;
        if c == '&' {
            out.push('&');
            out.push('a');
            out.push('m');
            out.push('p');
            out.push(';');
        } else if c == '<' {
            out.push('&');
            out.push('l');
            out.push('t');
            out.push(';');
        } else if c == '>' {
            out.push('&');
            out.push('g');
            out.push('t');
            out.push(';');
        } else if c == '"' {
            out.push('&');
            out.push('q');
            out.push('u');
            out.push('o');
            out.push('t');
            out.push(';');
        } else {
            out.push(c);
        }
        assert(out@ =~= before + esc_char(c));
    }
    assert(cs@.take(n as int) =~= cs@);
    out
}

/// Escaped text holds no `<`, `>` or `"`: it cannot open a tag or leave an
/// attribute value.
pub proof fn lemma_escaped_is_inert(s: Seq<char>)
    ensures
        !escaped(s).contains('<'),
        !escaped(s).contains('>'),
        !escaped(s).contains('"'),
    decreases s.len(),
{
    if s.len() > 0 {
        lemma_escaped_is_inert(s.drop_last());
        let a = escaped(s.drop_last());
        let b = esc_char(s.last());
        let e = escaped(s);
        assert(e =~= a + b);
        assert forall|c: char| c == '<' || c == '>' || c == '"' implies !e.contains(c) by {
            if e.contains(c) {
                let k = choose|k: int| 0 <= k < e.len() && e[k] == c;
                if k < a.len() {
                    assert(a[k] == c);
                } else {
                    assert(b[k - a.len()] == c);
                }
            }
        }
    }
}

// ---------- URL encoding ----------

/// Bytes passed through unchanged by percent-encoding.
pub open spec fn unreserved(b: u8) -> bool {
    (65 <= b <= 90) || (97 <= b <= 122) || (48 <= b <= 57) || b == 45 || b == 95 || b == 46
        || b == 126
}

/// The uppercase hex digit of a value below 16.
pub open spec fn hex_digit(v: u8) -> char {
    if v < 10 {
        (48 + v) as char
    } else {
        (55 + v) as char
    }
}

/// The encoding of one byte.
pub open spec fn url_byte(b: u8) -> Seq<char> {
    if unreserved(b) {
        seq![b as char]
    } else {
        seq!['%', hex_digit(b / 16), hex_digit(b % 16)]
    }
}

/// The percent-encoding of a byte string.
pub open spec fn url_encoded(bytes: Seq<u8>) -> Seq<char>
    decreases bytes.len(),
{
    if bytes.len() == 0 {
        Seq::empty()
    } else {
        url_encoded(bytes.drop_last()) + url_byte(bytes.last())
    }
}

fn hex_char(v: u8) -> (c: char)
    requires
        v < 16,
    ensures
        c == hex_digit(v),
{
    if v < 10 {
        (48 + v) as char
    } else {
        (55 + v) as char
    }
}

/// Percent-encode the UTF-8 bytes of `s`, keeping `A-Z a-z 0-9 - _ . ~`.
pub fn urlenc(s: &str) -> (r: String)
    ensures
        r@ == url_encoded(s.spec_bytes()),
{
    let bytes = s.as_bytes();
    let n = bytes.len();
    let mut out = String::new();
    for i in 0..n
        invariant
            n == bytes@.len(),
            bytes@ == s.spec_bytes(),
            out@ == url_encoded(bytes@.take(i as int)),
    {
        let b = bytes[i];
        proof {
            assert(bytes@.take(i + 1).drop_last() =~= bytes@.take(i as int));
        }
        let ghost before = out@;
        if (65 <= b && b <= 90) || (97 <= b && b <= 122) || (48 <= b && b <= 57) || b == 45 || b
            == 95 || b == 46 || b == 126 {
            out.push(b as char);
        } else {
            out.push('%');
            out.push(hex_char(b / 16));
            out.push(hex_char(b % 16));
        }
        assert(out@ =~= before + url_byte(b));
    }
    assert(bytes@.take(n as int) =~= bytes@);
    out
}

/// A character percent-encoded text may hold: an unreserved ASCII character
/// or `%` (the hex digits are unreserved).
pub open spec fn url_safe(c: char) -> bool {
    ('A' <= c && c <= 'Z') || ('a' <= c && c <= 'z') || ('0' <= c && c <= '9') || c == '-' || c
        == '_' || c == '.' || c == '~' || c == '%'
}

/// Percent-encoded text consists of URL-safe ASCII characters only, so it
/// can stand in a URL or a header value as it is.
pub proof fn lemma_url_encoded_is_url_safe(bytes: Seq<u8>)
    ensures
        forall|i: int| 0 <= i < url_encoded(bytes).len() ==> url_safe(#[trigger] url_encoded(bytes)[i]),
    decreases bytes.len(),
{
    if bytes.len() > 0 {
        let pre = bytes.drop_last();
        lemma_url_encoded_is_url_safe(pre);
        let b = bytes.last();
        let a = url_encoded(pre);
        let u = url_byte(b);
        let e = url_encoded(bytes);
        assert(e =~= a + u);
        assert forall|k: int| 0 <= k < u.len() implies url_safe(#[trigger] u[k]) by {
            if unreserved(b) {
                assert(u[k] == b as char);
                assert((b as char) as u32 == b as u32);
            } else {
                let hi = (b / 16) as u8;
                let lo = (b % 16) as u8;
                assert(hi < 16 && lo < 16);
                assert(hex_digit(hi) as u32 == (if hi < 10 { 48 + hi } else { 55 + hi }));
                assert(hex_digit(lo) as u32 == (if lo < 10 { 48 + lo } else { 55 + lo }));
            }
        }
        assert forall|i: int| 0 <= i < e.len() implies url_safe(#[trigger] e[i]) by {
            if i < a.len() {
                assert(e[i] == a[i]);
            } else {
                assert(e[i] == u[i - a.len()]);
            }
        }
    }
}

// ---------- numbers ----------

/// The decimal digit of a value below 10.
pub open spec fn digit(v: nat) -> char {
    (48 + v) as char
}

/// The decimal numeral of `n`.
pub open spec fn decimal(n: nat) -> Seq<char>
    decreases n,
{
    if n < 10 {
        seq![digit(n)]
    } else {
        decimal(n / 10).push(digit(n % 10))
    }
}

/// Appends the decimal numeral of `n`.
pub fn push_decimal(out: &mut String, n: u128)
    ensures
        final(out)@ == old(out)@ + decimal(n as nat),
    decreases n,
{
    if n >= 10 {
        push_decimal(out, n / 10);
    }
    let d = (n % 10) as u8;
    out.push((48 + d) as char);
    proof {
        if n >= 10 {
            assert(decimal(n as nat) == decimal((n / 10) as nat).push(digit((n % 10) as nat)));
        }
    }
}

/// The numeral of a signed integer, `-` first when negative.
pub open spec fn int_text(n: int) -> Seq<char> {
    if n < 0 {
        seq!['-'] + decimal((-n) as nat)
    } else {
        decimal(n as nat)
    }
}

/// `i64::to_string`.
pub fn int_to_text(n: i64) -> (r: String)
    ensures
        r@ == int_text(n as int),
{
    let mut out = String::new();
    if n < 0 {
        out.push('-');
        let m: i128 = 0i128 - (n as i128);
        push_decimal(&mut out, m as u128);
    } else {
        push_decimal(&mut out, n as u128);
    }
    out
}

// ---------- sizes ----------

/// 2^53: below it every integer is exactly a double.
pub open spec fn two_53() -> int {
    9007199254740992
}

/// The unit of the last significant bit when `b` is held in a double:
/// the least power of two `u` (from `u` upward) with `b < 2^53 * u`.
pub open spec fn ulp_from(b: int, u: int) -> int
    decreases b - u,
{
    if u <= 0 || b < two_53() * u {
        u
    } else {
        ulp_from(b, 2 * u)
    }
}

/// `b` rounded to a multiple of `unit`, ties to the even multiple.
pub open spec fn round_to_even(b: int, unit: int) -> int {
    let q = b / unit;
    let r = b % unit;
    if 2 * r > unit || (2 * r == unit && q % 2 == 1) {
        (q + 1) * unit
    } else {
        q * unit
    }
}

/// The value of `b as f64` for `b >= 0` (nearest double, ties to even).
pub open spec fn as_double(b: int) -> int {
    round_to_even(b, ulp_from(b, 1))
}

/// `v / unit` written with `places` decimals (1 or 2), rounded half to even
/// on the last decimal, as `format!("{:.N}")` prints an exact double.
pub open spec fn fixed_point(v: int, unit: int, places: nat) -> Seq<char> {
    let scale: int = if places == 1 {
        10
    } else {
        100
    };
    let q = v * scale / unit;
    let r = v * scale % unit;
    let n = if 2 * r > unit || (2 * r == unit && q % 2 == 1) {
        q + 1
    } else {
        q
    };
    decimal((n / scale) as nat) + seq!['.'] + if places == 1 {
        seq![digit((n % 10) as nat)]
    } else {
        seq![digit(((n % 100) / 10) as nat), digit((n % 10) as nat)]
    }
}

/// The human-readable size: GB with two decimals from 2^30 bytes, MB with
/// one from 2^20, KB with one from 2^10, else whole bytes.
pub open spec fn size_text(bytes: int) -> Seq<char> {
    let d = if bytes >= 0 {
        as_double(bytes)
    } else {
        0
    };
    if bytes >= 1073741824 {
        fixed_point(d, 1073741824, 2) + " GB"@
    } else if bytes >= 1048576 {
        fixed_point(d, 1048576, 1) + " MB"@
    } else if bytes >= 1024 {
        fixed_point(d, 1024, 1) + " KB"@
    } else {
        int_text(bytes) + " B"@
    }
}

proof fn lemma_ulp_bounds(b: int, u: int)
    requires
        0 <= b < 9223372036854775808,
        1 <= u <= 1024,
        u == 1 || u == 2 || u == 4 || u == 8 || u == 16 || u == 32 || u == 64 || u == 128 || u
            == 256 || u == 512 || u == 1024,
    ensures
        1 <= ulp_from(b, u) <= 1024,
        b < two_53() * ulp_from(b, u),
    decreases 1024 - u,
{
    if b < two_53() * u {
    } else {
        assert(u < 1024);
        lemma_ulp_bounds(b, 2 * u);
    }
}

/// Rounds `b` to the nearest double, as `b as f64` does.
fn double_of(b: u64) -> (r: u64)
    requires
        b < 9223372036854775808,
    ensures
        r == as_double(b as int),
        r <= 9223372036854775808,
{
    let mut u: u64 = 1;
    proof {
        lemma_ulp_bounds(b as int, 1);
    }
    while b >= 9007199254740992 * u
        invariant
            1 <= u <= 1024,
            u == 1 || u == 2 || u == 4 || u == 8 || u == 16 || u == 32 || u == 64 || u == 128 || u
                == 256 || u == 512 || u == 1024,
            ulp_from(b as int, 1) == ulp_from(b as int, u as int),
            b < 9223372036854775808,
        decreases 1024 - u,
    {
        proof {
            lemma_ulp_bounds(b as int, u as int);
            assert(u < 1024) by {
                if u == 1024 {
                    assert(b < two_53() * 1024);
                }
            }
        }
        u = 2 * u;
    }
    let q = b / u;
    let r = b % u;
    proof {
        assert(b as int / u as int * u as int <= b) by (nonlinear_arith)
            requires
                u >= 1,
                b >= 0,
        ;
    }
    if 2 * r > u || (2 * r == u && q % 2 == 1) {
        proof {
            assert((q + 1) * u <= b + u) by (nonlinear_arith)
                requires
                    q == b / u,
                    u >= 1,
                    b >= 0,
            ;
            assert(b < two_53() * u);
            assert((q + 1) * u <= 9223372036854775808) by (nonlinear_arith)
                requires
                    q == b / u,
                    u >= 1,
                    1 <= u <= 1024,
                    b < 9007199254740992 * u,
                    u == 1 || u == 2 || u == 4 || u == 8 || u == 16 || u == 32 || u == 64 || u
                        == 128 || u == 256 || u == 512 || u == 1024,
            ;
        }
        (q + 1) * u
    } else {
        proof {
            assert(q * u <= b) by (nonlinear_arith)
                requires
                    q == b / u,
                    u >= 1,
                    b >= 0,
            ;
        }
        q * u
    }
}

/// Appends `v / unit` with the given number of decimals (see [`fixed_point`]).
fn push_fixed(out: &mut String, v: u64, unit: u64, places: u8)
    requires
        unit > 0,
        places == 1 || places == 2,
        v <= 9223372036854775808,
    ensures
        final(out)@ == old(out)@ + fixed_point(v as int, unit as int, places as nat),
{
    let scale: u128 = if places == 1 {
        10
    } else {
        100
    };
    let vs: u128 = (v as u128) * scale;
    let q: u128 = vs / (unit as u128);
    let r: u128 = vs % (unit as u128);
    proof {
        assert(q <= vs) by (nonlinear_arith)
            requires
                q == vs / (unit as u128),
                unit > 0,
        ;
    }
    let n: u128 = if 2 * r > (unit as u128) || (2 * r == (unit as u128) && q % 2 == 1) {
        q + 1
    } else {
        q
    };
    push_decimal(out, n / scale);
    out.push('.');
    if places == 1 {
        let d = (n % 10) as u8;
        out.push((48 + d) as char);
    } else {
        let d1 = ((n % 100) / 10) as u8;
        let d2 = (n % 10) as u8;
        out.push((48 + d1) as char);
        out.push((48 + d2) as char);
    }
}

/// A byte count as text: `1.50 GB`, `12.0 MB`, `3.5 KB` or `512 B`.
pub fn human_size(bytes: i64) -> (r: String)
    ensures
        r@ == size_text(bytes as int),
{
    let mut out = String::new();
    if bytes >= 1024 {
        let d = double_of(bytes as u64);
        if bytes >= 1073741824 {
            push_fixed(&mut out, d, 1073741824, 2);
            push_str(&mut out, " GB");
        } else if bytes >= 1048576 {
            push_fixed(&mut out, d, 1048576, 1);
            push_str(&mut out, " MB");
        } else {
            push_fixed(&mut out, d, 1024, 1);
            push_str(&mut out, " KB");
        }
    } else {
        out = int_to_text(bytes);
        push_str(&mut out, " B");
    }
    out
}

// ---------- file types ----------

/// ASCII lowercase of one character.
pub open spec fn lower(c: char) -> char {
    if 'A' <= c && c <= 'Z' {
        ((c as u32) + 32) as char
    } else {
        c
    }
}

/// ASCII lowercase of a string.
pub open spec fn lowered(s: Seq<char>) -> Seq<char>
    decreases s.len(),
{
    if s.len() == 0 {
        Seq::empty()
    } else {
        lowered(s.drop_last()).push(lower(s.last()))
    }
}

/// The text after the last `.` of `path` (all of it when there is none),
/// lowercased.
pub open spec fn extension(path: Seq<char>) -> Seq<char> {
    match last_index_of(path, '.') {
        Some(i) => lowered(path.skip(i + 1)),
        None => lowered(path),
    }
}

/// `path.rsplit('.').next().to_ascii_lowercase()`.
pub fn ext_of(path: &str) -> (r: String)
    ensures
        r@ == extension(path@),
{
    let cs = chars_of(path);
    let n = cs.len();
    let mut i: usize = n;
    while i > 0 && cs[i - 1] != '.'
        invariant
            i <= n,
            n == cs@.len(),
            forall|k: int| i <= k < n ==> cs@[k] != '.',
        decreases i,
    {
        i = i - 1;
    }
    proof {
        crate::conflicts::lemma_last_index_of(path@, '.', i - 1);
        assert(path@.skip(0) =~= path@);
    }
    let mut out = String::new();
    let ghost tail = cs@.skip(i as int);
    for k in i..n
        invariant
            n == cs@.len(),
            i <= n,
            tail == cs@.skip(i as int),
            out@ == lowered(tail.take(k - i)),
    {
        let c = cs[k];
        proof {
            assert(tail.take(k - i + 1).drop_last() =~= tail.take(k - i));
            assert(tail[k - i] == c);
        }
        if 'A' <= c && c <= 'Z' {
            let b = c as u8;
            assert(b as u32 == c as u32);
            out.push((b + 32) as char);
        } else {
            out.push(c);
        }
    }
    assert(tail.take(n - i) =~= tail);
    out
}

/// Preview file types shown as images, with their MIME types.
pub open spec fn image_mime_of(ext: Seq<char>) -> Option<Seq<char>> {
    if ext == "png"@ {
        Some("image/png"@)
    } else if ext == "jpg"@ {
        Some("image/jpeg"@)
    } else if ext == "jpeg"@ {
        Some("image/jpeg"@)
    } else if ext == "gif"@ {
        Some("image/gif"@)
    } else if ext == "webp"@ {
        Some("image/webp"@)
    } else if ext == "bmp"@ {
        Some("image/bmp"@)
    } else if ext == "svg"@ {
        Some("image/svg+xml"@)
    } else {
        None
    }
}

/// The MIME type of an image extension.
pub fn image_mime(ext: &str) -> (r: Option<&'static str>)
    ensures
        r is Some <==> image_mime_of(ext@) is Some,
        r matches Some(m) ==> Some(m@) == image_mime_of(ext@),
{
    if str_eq(ext, "png") {
        Some("image/png")
    } else if str_eq(ext, "jpg") {
        Some("image/jpeg")
    } else if str_eq(ext, "jpeg") {
        Some("image/jpeg")
    } else if str_eq(ext, "gif") {
        Some("image/gif")
    } else if str_eq(ext, "webp") {
        Some("image/webp")
    } else if str_eq(ext, "bmp") {
        Some("image/bmp")
    } else if str_eq(ext, "svg") {
        Some("image/svg+xml")
    } else {
        None
    }
}

/// The content type `file_raw` serves for an extension.
pub fn raw_content_type(ext: &str) -> (r: &'static str)
    ensures
        r@ == (match image_mime_of(ext@) {
            Some(m) => m,
            None => "application/octet-stream"@,
        }),
{
    match image_mime(ext) {
        Some(m) => m,
        None => "application/octet-stream",
    }
}

/// Text file types the console previews inline.
pub open spec fn is_text_ext(ext: Seq<char>) -> bool {
    ext == "md"@ || ext == "txt"@ || ext == "json"@ || ext == "canvas"@ || ext == "base"@ || ext
        == "csv"@ || ext == "log"@ || ext == "yml"@ || ext == "yaml"@ || ext == "toml"@
}

pub fn text_ext(ext: &str) -> (r: bool)
    ensures
        r == is_text_ext(ext@),
{
    str_eq(ext, "md") || str_eq(ext, "txt") || str_eq(ext, "json") || str_eq(ext, "canvas")
        || str_eq(ext, "base") || str_eq(ext, "csv") || str_eq(ext, "log") || str_eq(ext, "yml")
        || str_eq(ext, "yaml") || str_eq(ext, "toml")
}

} // verus!

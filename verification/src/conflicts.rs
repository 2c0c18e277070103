//! Conflict resolution decisions.
//!
//! - keep_active: discard the preserved losing version.
//! - use_other:   the losing version becomes active again (normal modify,
//!                broadcast to all other devices).
//! - keep_both:   losing version is written next to the original as
//!                `<stem> (conflict-<device>-<ts>).<ext>`; active unchanged.

use vstd::prelude::*;

use crate::error::AppError;
use crate::sync::SyncEvent;
use crate::text::{chars_of, chars_range, push_chars, push_str, str_eq, string_of};

verus! {

broadcast use vstd::string::group_string_axioms;

/// Whether `c` is alphabetic or numeric in Unicode (`char::is_alphanumeric`).
pub uninterp spec fn unicode_alphanumeric(c: char) -> bool;

/// An ASCII letter or digit.
pub open spec fn ascii_alphanumeric(c: char) -> bool {
    ('a' <= c && c <= 'z') || ('A' <= c && c <= 'Z') || ('0' <= c && c <= '9')
}

/// `char::is_alphanumeric`: true for characters with the Unicode
/// `Alphabetic` or `Numeric` property. Within ASCII those are exactly the
/// letters and digits; beyond ASCII the answer is named, not stated.
#[verifier::external_body]
fn is_alphanumeric(c: char) -> (r: bool)
    ensures
        r == unicode_alphanumeric(c),
        c <= '\u{7f}' ==> (r == ascii_alphanumeric(c)),
{
    c.is_alphanumeric()
}

/// A character kept as-is in a device label.
pub open spec fn label_char_kept(c: char) -> bool {
    unicode_alphanumeric(c) || c == '-' || c == '_'
}

/// Each character of `s` kept when alphanumeric, `-` or `_`, else `_`.
pub open spec fn label_chars(s: Seq<char>) -> Seq<char>
    decreases s.len(),
{
    if s.len() == 0 {
        Seq::empty()
    } else {
        label_chars(s.drop_last()).push(
            if label_char_kept(s.last()) {
                s.last()
            } else {
                '_'
            },
        )
    }
}

/// A device name as a filesystem-safe label of at most 24 characters.
pub open spec fn label_of(name: Seq<char>) -> Seq<char> {
    let l = label_chars(name);
    if l.len() <= 24 {
        l
    } else {
        l.take(24)
    }
}

proof fn lemma_label_chars_len(s: Seq<char>)
    ensures
        label_chars(s).len() == s.len(),
    decreases s.len(),
{
    if s.len() > 0 {
        lemma_label_chars_len(s.drop_last());
    }
}

/// None of `/`, `.`, NUL or space.
pub open spec fn plain_label_char(c: char) -> bool {
    c != '/' && c != '.' && c != '\0' && c != ' '
}

/// Keep device labels filesystem-safe inside the copy filename.
/// Labels hold none of `/`, `.`, NUL or space, so a label can neither move
/// a copy out of its directory nor become `.` or `..`.
pub fn sanitize_label(name: &str) -> (r: String)
    ensures
        r@ == label_of(name@),
        !r@.contains('/'),
        !r@.contains('.'),
        !r@.contains('\0'),
        !r@.contains(' '),
{
    let cs = chars_of(name);
    let n = cs.len();
    let mut out: Vec<char> = Vec::new();
    for i in 0..n
        invariant
            n == cs@.len(),
            cs@ == name@,
            out@ == label_chars(cs@.take(i as int)),
            forall|k: int| 0 <= k < out@.len() ==> plain_label_char(#[trigger] out@[k]),
    {
        let c = cs[i];
        let keep = is_alphanumeric(c) || c == '-' || c == '_';
        proof {
            assert(cs@.take(i + 1).drop_last() =~= cs@.take(i as int));
        }
        if keep {
            out.push(c);
        } else {
            out.push('_');
        }
    }
    assert(cs@.take(n as int) =~= cs@);
    proof {
        lemma_label_chars_len(name@);
    }
    assert forall|c: char| !plain_label_char(c) implies !out@.contains(c) by {
        if out@.contains(c) {
            let k = choose|k: int| 0 <= k < out@.len() && out@[k] == c;
        }
    }
    if out.len() <= 24 {
        string_of(out.as_slice())
    } else {
        let t = chars_range(out.as_slice(), 0, 24);
        assert(t@ =~= out@.take(24));
        assert forall|c: char| !plain_label_char(c) implies !t@.contains(c) by {
            if t@.contains(c) {
                let k = choose|k: int| 0 <= k < t@.len() && t@[k] == c;
                assert(out@[k] == c);
            }
        }
        string_of(t.as_slice())
    }
}

} // verus!

verus! {

/// The index of the last `c` in `s`.
pub open spec fn last_index_of(s: Seq<char>, c: char) -> Option<int>
    decreases s.len(),
{
    if s.len() == 0 {
        None
    } else if s.last() == c {
        Some(s.len() - 1)
    } else {
        last_index_of(s.drop_last(), c)
    }
}

/// Where the scan for the last `c` stops.
pub proof fn lemma_last_index_of(s: Seq<char>, c: char, i: int)
    requires
        -1 <= i < s.len(),
        forall|k: int| i < k < s.len() ==> s[k] != c,
        i >= 0 ==> s[i] == c,
    ensures
        last_index_of(s, c) == (if i >= 0 {
            Some(i)
        } else {
            None::<int>
        }),
    decreases s.len(),
{
    if s.len() > 0 && i < s.len() - 1 {
        assert(s[s.len() - 1] != c);
        let t = s.drop_last();
        assert forall|k: int| i < k < t.len() implies t[k] != c by {
            assert(t[k] == s[k]);
        }
        if i >= 0 {
            assert(t[i] == s[i]);
        }
        lemma_last_index_of(t, c, i);
    }
}

/// The directory part of `path`: everything up to and including its last
/// `/` (empty when there is none).
pub open spec fn dir_part(path: Seq<char>) -> Seq<char> {
    match last_index_of(path, '/') {
        Some(j) => path.take(j + 1),
        None => Seq::empty(),
    }
}

/// The file-name part of `path`: everything after its last `/`.
pub open spec fn name_part(path: Seq<char>) -> Seq<char> {
    match last_index_of(path, '/') {
        Some(j) => path.skip(j + 1),
        None => path,
    }
}

/// The copy's file name: the marker goes before the extension (the text
/// after the file name's last `.`, when that `.` does not start the name),
/// else at the end.
pub open spec fn copy_file_name(name: Seq<char>, device: Seq<char>, ts: Seq<char>) -> Seq<char> {
    let mark = " (conflict-"@ + device + "-"@ + ts + ")"@;
    match last_index_of(name, '.') {
        Some(i) if i > 0 => name.take(i) + mark + "."@ + name.skip(i + 1),
        _ => name + mark,
    }
}

/// The name of the "keep both" copy of `path`, in the same directory:
/// `notes/foo.md` + device `abc` → `notes/foo (conflict-abc-<ts>).md`;
/// without a usable extension the marker is appended.
pub open spec fn copy_name(path: Seq<char>, device: Seq<char>, ts: Seq<char>) -> Seq<char> {
    dir_part(path) + copy_file_name(name_part(path), device, ts)
}

/// The copy stays in the directory of the original.
pub proof fn lemma_copy_stays_in_directory(path: Seq<char>, device: Seq<char>, ts: Seq<char>)
    ensures
        copy_name(path, device, ts).take(dir_part(path).len() as int) == dir_part(path),
{
    assert(copy_name(path, device, ts).take(dir_part(path).len() as int) =~= dir_part(path));
}

/// The index just after the last `c` in `cs` (0 when there is none).
fn after_last(cs: &[char], c: char) -> (i: usize)
    ensures
        i <= cs@.len(),
        last_index_of(cs@, c) == (if i > 0 {
            Some(i - 1)
        } else {
            None::<int>
        }),
{
    let n = cs.len();
    let mut i: usize = n;
    while i > 0 && cs[i - 1] != c
        invariant
            i <= n,
            n == cs@.len(),
            forall|k: int| i <= k < n ==> cs@[k] != c,
        decreases i,
    {
        i = i - 1;
    }
    proof {
        lemma_last_index_of(cs@, c, i - 1);
    }
    i
}

/// `notes/foo.md` + device `abc` → `notes/foo (conflict-abc-20260610-1530).md`
pub fn conflict_copy_name(path: &str, device: &str, ts: &str) -> (r: String)
    ensures
        r@ == copy_name(path@, device@, ts@),
{
    let cs = chars_of(path);
    let n = cs.len();
    let j = after_last(cs.as_slice(), '/');
    let dir = chars_range(cs.as_slice(), 0, j);
    let name = chars_range(cs.as_slice(), j, n);
    proof {
        assert(path@.take(0) =~= Seq::<char>::empty());
        assert(path@.skip(0) =~= path@);
        assert(dir@ == dir_part(path@));
        assert(name@ == name_part(path@));
    }
    let i = after_last(name.as_slice(), '.');
    let mut mark = String::new();
    push_str(&mut mark, " (conflict-");
    push_str(&mut mark, device);
    push_str(&mut mark, "-");
    push_str(&mut mark, ts);
    push_str(&mut mark, ")");
    let mut out = string_of(dir.as_slice());
    if i > 1 {
        let stem = chars_range(name.as_slice(), 0, i - 1);
        let ext = chars_range(name.as_slice(), i, name.len());
        push_chars(&mut out, stem.as_slice());
        push_str(&mut out, mark.as_str());
        push_str(&mut out, ".");
        push_chars(&mut out, ext.as_slice());
        assert(stem@ =~= name@.take(i - 1));
        assert(ext@ =~= name@.skip(i as int));
        assert(out@ =~= dir@ + copy_file_name(name@, device@, ts@));
    } else {
        push_chars(&mut out, name.as_slice());
        push_str(&mut out, mark.as_str());
        assert(out@ =~= dir@ + copy_file_name(name@, device@, ts@));
    }
    out
}

/// How a conflict is settled.
#[derive(Debug, Clone, Copy, PartialEq, Eq)]
pub enum Resolution {
    KeepActive,
    UseOther,
    KeepBoth,
}

/// The answer to an unknown choice.
pub open spec fn unknown_choice_text(choice: Seq<char>) -> Seq<char> {
    "unknown choice: "@ + choice + " (expected keep_active | use_other | keep_both)"@
}

/// Reads the `choice` of a resolution request.
pub fn parse_choice(choice: &str) -> (r: Result<Resolution, AppError>)
    ensures
        choice@ == "keep_active"@ ==> r == Ok::<Resolution, AppError>(Resolution::KeepActive),
        choice@ == "use_other"@ ==> r == Ok::<Resolution, AppError>(Resolution::UseOther),
        choice@ == "keep_both"@ ==> r == Ok::<Resolution, AppError>(Resolution::KeepBoth),
        choice@ != "keep_active"@ && choice@ != "use_other"@ && choice@ != "keep_both"@ ==> (
        r matches Err(AppError::BadRequest(m)) && m@ == unknown_choice_text(choice@)),
{
    proof {
        reveal_strlit("keep_active");
        reveal_strlit("use_other");
        reveal_strlit("keep_both");
        assert("use_other"@[0] != "keep_active"@[0]);
        assert("keep_both"@[5] != "keep_active"@[5]);
        assert("keep_both"@[0] != "use_other"@[0]);
    }
    if str_eq(choice, "keep_active") {
        Ok(Resolution::KeepActive)
    } else if str_eq(choice, "use_other") {
        Ok(Resolution::UseOther)
    } else if str_eq(choice, "keep_both") {
        Ok(Resolution::KeepBoth)
    } else {
        let mut m = String::new();
        push_str(&mut m, "unknown choice: ");
        push_str(&mut m, choice);
        push_str(&mut m, " (expected keep_active | use_other | keep_both)");
        Err(AppError::BadRequest(m))
    }
}

/// The label naming the losing device in a "keep both" copy: its
/// sanitised name, or `unknown` when the device is not known.
pub open spec fn device_label(name: Option<Seq<char>>) -> Seq<char> {
    match name {
        Some(n) => label_of(n),
        None => "unknown"@,
    }
}

/// Where the "keep both" copy of `path` goes (before canonicalisation).
pub fn keep_both_path(path: &str, device_name: Option<&str>, ts_label: &str) -> (r: String)
    ensures
        r@ == copy_name(path@, device_label(crate::auth::opt_text(device_name)), ts_label@),
{
    let label = match device_name {
        Some(n) => sanitize_label(n),
        None => {
            let mut u = String::new();
            push_str(&mut u, "unknown");
            u
        },
    };
    conflict_copy_name(path, label.as_str(), ts_label)
}

/// The device a "use other" change is attributed to: the resolving device,
/// or none (empty) when the admin console resolves, so every device pulls it.
pub fn resolver_origin(actor: Option<&str>) -> (r: String)
    ensures
        r@ == (match actor {
            Some(a) => a@,
            None => Seq::<char>::empty(),
        }),
{
    match actor {
        Some(a) => a.to_owned(),
        None => String::new(),
    }
}

/// The event announcing a resolution's vault change, if it made one:
/// "use other" rewrites `path` (origin: the resolver); "keep both" adds the
/// copy (origin empty, so the resolver receives it too); "keep active"
/// changes nothing.
pub fn resolution_event(
    choice: Resolution,
    path: &str,
    etag: &str,
    size: i64,
    actor: Option<&str>,
) -> (r: Option<SyncEvent>)
    ensures
        choice == Resolution::KeepActive ==> r is None,
        choice == Resolution::UseOther ==> (r matches Some(e) && crate::file::is_change(
            e,
            path@,
            etag@,
            size,
            match actor {
                Some(a) => a@,
                None => Seq::<char>::empty(),
            },
        )),
        choice == Resolution::KeepBoth ==> (r matches Some(e) && crate::file::is_change(
            e,
            path@,
            etag@,
            size,
            Seq::<char>::empty(),
        )),
{
    match choice {
        Resolution::KeepActive => None,
        Resolution::UseOther => {
            let origin = resolver_origin(actor);
            Some(crate::file::change_event(path, etag, size, origin.as_str()))
        },
        Resolution::KeepBoth => {
            proof {
                reveal_strlit("");
                assert(""@ =~= Seq::<char>::empty());
            }
            Some(crate::file::change_event(path, etag, size, ""))
        },
    }
}

} // verus!

//! On-disk layout: resolving request paths inside the vault, trash and
//! conflicts roots, and content ETags.

use vstd::prelude::*;

use crate::error::AppError;
use crate::text::{chars_of, chars_eq, chars_range, push_chars, push_str, string_of};

verus! {

broadcast use vstd::string::group_string_axioms;

// ---------- the path model ----------

/// The pieces of `s` between `/` separators, in order (there is always at
/// least one piece; `"a//b"` gives `["a", "", "b"]`).
pub open spec fn split_on_slash(s: Seq<char>) -> Seq<Seq<char>>
    decreases s.len(),
{
    if s.len() == 0 {
        seq![Seq::<char>::empty()]
    } else {
        let pre = split_on_slash(s.drop_last());
        if s.last() == '/' {
            pre.push(Seq::<char>::empty())
        } else {
            pre.update(pre.len() - 1, pre.last().push(s.last()))
        }
    }
}

/// The one-character piece `.`.
pub open spec fn dot() -> Seq<char> {
    seq!['.']
}

/// The two-character piece `..`.
pub open spec fn dot_dot() -> Seq<char> {
    seq!['.', '.']
}

/// A piece that names a directory entry: neither empty nor `.`.
/// (Repeated separators and `.` are normalised away, as `Path::components` does.)
pub open spec fn is_named(seg: Seq<char>) -> bool {
    seg.len() > 0 && seg != dot()
}

/// The named pieces of `segs`, in order.
pub open spec fn named_pieces(segs: Seq<Seq<char>>) -> Seq<Seq<char>>
    decreases segs.len(),
{
    if segs.len() == 0 {
        Seq::empty()
    } else {
        let pre = named_pieces(segs.drop_last());
        if is_named(segs.last()) {
            pre.push(segs.last())
        } else {
            pre
        }
    }
}

/// `parts` joined with `/` between consecutive parts.
pub open spec fn join_with_slash(parts: Seq<Seq<char>>) -> Seq<char>
    decreases parts.len(),
{
    if parts.len() == 0 {
        Seq::empty()
    } else if parts.len() == 1 {
        parts[0]
    } else {
        join_with_slash(parts.drop_last()) + seq!['/'] + parts.last()
    }
}

/// A relative request path is accepted when it is non-empty, holds no NUL,
/// does not start at the root (`/`) or at the current directory (`.`), and
/// has no `..` piece anywhere: every component `Path::components` yields is
/// then a plain name.
pub open spec fn rel_path_accepted(rel: Seq<char>) -> bool {
    let segs = split_on_slash(rel);
    &&& rel.len() > 0
    &&& !rel.contains('\0')
    &&& is_named(segs[0])
    &&& forall|i: int| 0 <= i < segs.len() ==> segs[i] != dot_dot()
}

/// The canonical form of a relative path: its named pieces joined with `/`.
pub open spec fn canonical_rel(rel: Seq<char>) -> Seq<char> {
    join_with_slash(named_pieces(split_on_slash(rel)))
}

/// `canon` pushed onto `base` the way `PathBuf::push` adds a relative path:
/// a separator is inserted unless `base` is empty or already ends in `/`.
pub open spec fn joined_path(base: Seq<char>, canon: Seq<char>) -> Seq<char> {
    if base.len() > 0 && base.last() != '/' {
        base + seq!['/'] + canon
    } else {
        base + canon
    }
}

/// A path is in canonical relative form when it is accepted and is its own
/// canonical form.
pub open spec fn is_canonical_rel(p: Seq<char>) -> bool {
    rel_path_accepted(p) && canonical_rel(p) == p
}

/// A single plain file name: named, not `..`, without `/` or NUL.
pub open spec fn is_plain_name(p: Seq<char>) -> bool {
    is_named(p) && p != dot_dot() && !p.contains('/') && !p.contains('\0')
}

// ---------- lemmas on the model ----------

pub proof fn lemma_split_nonempty(s: Seq<char>)
    ensures
        split_on_slash(s).len() >= 1,
    decreases s.len(),
{
    if s.len() > 0 {
        lemma_split_nonempty(s.drop_last());
    }
}

proof fn lemma_split_push(s: Seq<char>, c: char)
    ensures
        split_on_slash(s.push(c)) == (if c == '/' {
            split_on_slash(s).push(Seq::<char>::empty())
        } else {
            split_on_slash(s).update(
                split_on_slash(s).len() - 1,
                split_on_slash(s).last().push(c),
            )
        }),
{
    assert(s.push(c).drop_last() =~= s);
}

proof fn lemma_named_push(segs: Seq<Seq<char>>, seg: Seq<char>)
    ensures
        named_pieces(segs.push(seg)) == (if is_named(seg) {
            named_pieces(segs).push(seg)
        } else {
            named_pieces(segs)
        }),
{
    assert(segs.push(seg).drop_last() =~= segs);
}

proof fn lemma_join_push(parts: Seq<Seq<char>>, p: Seq<char>)
    ensures
        join_with_slash(parts.push(p)) == (if parts.len() == 0 {
            p
        } else {
            join_with_slash(parts) + seq!['/'] + p
        }),
{
    assert(parts.push(p).drop_last() =~= parts);
}

/// Joining non-empty parts gives a non-empty path.
proof fn lemma_join_nonempty(parts: Seq<Seq<char>>)
    requires
        parts.len() > 0,
        forall|i: int| 0 <= i < parts.len() ==> parts[i].len() > 0,
    ensures
        join_with_slash(parts).len() > 0,
    decreases parts.len(),
{
    if parts.len() > 1 {
        lemma_join_nonempty(parts.drop_last());
    }
}

/// Every named piece is one of the pieces.
proof fn lemma_named_subset(segs: Seq<Seq<char>>)
    ensures
        forall|i: int|
            0 <= i < named_pieces(segs).len() ==> is_named(#[trigger] named_pieces(segs)[i])
                && segs.contains(named_pieces(segs)[i]),
    decreases segs.len(),
{
    if segs.len() > 0 {
        lemma_named_subset(segs.drop_last());
        let pre = named_pieces(segs.drop_last());
        assert forall|i: int| 0 <= i < named_pieces(segs).len() implies is_named(
            #[trigger] named_pieces(segs)[i],
        ) && segs.contains(named_pieces(segs)[i]) by {
            if i < pre.len() {
                let k = choose|k: int| 0 <= k < segs.drop_last().len() && segs.drop_last()[k] == pre[i];
                assert(segs[k] == pre[i]);
            } else {
                assert(segs[segs.len() - 1] == segs.last());
            }
        }
    }
}

/// Pieces without `/` that are joined with `/` split back into themselves.
pub(crate) proof fn lemma_split_join(parts: Seq<Seq<char>>)
    requires
        parts.len() > 0,
        forall|i: int| 0 <= i < parts.len() ==> !(#[trigger] parts[i]).contains('/'),
    ensures
        split_on_slash(join_with_slash(parts)) == parts,
    decreases parts.len(),
{
    if parts.len() == 1 {
        lemma_split_of_plain(parts[0]);
        assert(split_on_slash(join_with_slash(parts)) =~= parts);
    } else {
        let pre = parts.drop_last();
        assert forall|i: int| 0 <= i < pre.len() implies !(#[trigger] pre[i]).contains('/') by {
            assert(pre[i] == parts[i]);
        }
        lemma_split_join(pre);
        let last = parts.last();
        assert(!parts[parts.len() - 1].contains('/'));
        lemma_split_append_plain(join_with_slash(pre) + seq!['/'], last);
        lemma_split_push(join_with_slash(pre), '/');
        assert(join_with_slash(pre).push('/') =~= join_with_slash(pre) + seq!['/']);
        assert(split_on_slash(join_with_slash(pre) + seq!['/']) =~= pre.push(Seq::<char>::empty()));
        assert(join_with_slash(parts) =~= join_with_slash(pre) + seq!['/'] + last);
        assert(split_on_slash(join_with_slash(parts)) =~= parts);
    }
}

/// A piece without `/` splits into itself.
pub(crate) proof fn lemma_split_of_plain(p: Seq<char>)
    requires
        !p.contains('/'),
    ensures
        split_on_slash(p) == seq![p],
{
    lemma_split_append_plain(Seq::empty(), p);
    assert(Seq::<char>::empty() + p =~= p);
    assert(seq![Seq::<char>::empty()].update(0, p) =~= seq![p]);
}

/// Appending a piece without `/` extends the last split piece.
proof fn lemma_split_append_plain(s: Seq<char>, p: Seq<char>)
    requires
        !p.contains('/'),
    ensures
        split_on_slash(s + p) == split_on_slash(s).update(
            split_on_slash(s).len() - 1,
            split_on_slash(s).last() + p,
        ),
    decreases p.len(),
{
    lemma_split_nonempty(s);
    if p.len() == 0 {
        assert(s + p =~= s);
        assert(split_on_slash(s).last() + p =~= split_on_slash(s).last());
        assert(split_on_slash(s).update(split_on_slash(s).len() - 1, split_on_slash(s).last())
            =~= split_on_slash(s));
    } else {
        let q = p.drop_last();
        let c = p.last();
        assert(!q.contains('/')) by {
            if q.contains('/') {
                let k = choose|k: int| 0 <= k < q.len() && q[k] == '/';
                assert(p[k] == '/');
            }
        }
        assert(c != '/') by {
            assert(p[p.len() - 1] == c);
        }
        lemma_split_append_plain(s, q);
        assert(s + p =~= (s + q).push(c));
        lemma_split_push(s + q, c);
        lemma_split_nonempty(s + q);
        let ss = split_on_slash(s);
        assert((ss.last() + q).push(c) =~= ss.last() + p);
        assert(split_on_slash(s + p) =~= ss.update(ss.len() - 1, ss.last() + p));
    }
}

/// When every piece is named, all of them are kept.
pub(crate) proof fn lemma_named_all(parts: Seq<Seq<char>>)
    requires
        forall|i: int| 0 <= i < parts.len() ==> is_named(#[trigger] parts[i]),
    ensures
        named_pieces(parts) == parts,
    decreases parts.len(),
{
    if parts.len() > 0 {
        let pre = parts.drop_last();
        assert forall|i: int| 0 <= i < pre.len() implies is_named(#[trigger] pre[i]) by {
            assert(pre[i] == parts[i]);
        }
        lemma_named_all(pre);
        assert(is_named(parts[parts.len() - 1]));
        assert(pre.push(parts.last()) =~= parts);
    }
}

/// No piece of a split holds the separator.
proof fn lemma_split_pieces_plain(s: Seq<char>)
    ensures
        forall|i: int|
            0 <= i < split_on_slash(s).len() ==> !(#[trigger] split_on_slash(s)[i]).contains('/'),
    decreases s.len(),
{
    if s.len() > 0 {
        let t = s.drop_last();
        lemma_split_pieces_plain(t);
        lemma_split_nonempty(t);
        let pre = split_on_slash(t);
        assert forall|i: int| 0 <= i < split_on_slash(s).len() implies !(
        #[trigger] split_on_slash(s)[i]).contains('/') by {
            if s.last() != '/' && i == pre.len() - 1 {
                let x = pre.last().push(s.last());
                assert(split_on_slash(s)[i] == x);
                if x.contains('/') {
                    let k = choose|k: int| 0 <= k < x.len() && x[k] == '/';
                    if k < pre.last().len() {
                        assert(pre[pre.len() - 1][k] == '/');
                        assert(pre[pre.len() - 1].contains('/'));
                    }
                }
            } else if i < pre.len() {
                assert(split_on_slash(s)[i] == pre[i]);
            }
        }
    }
}

// ---------- laws of the path model ----------

/// Every piece of the canonical form of an accepted path is a plain name:
/// not empty, not `.`, not `..`, and free of `/`; the canonical form itself
/// is non-empty, does not start at the root, and holds no NUL.
pub proof fn lemma_canonical_pieces_are_names(rel: Seq<char>)
    requires
        rel_path_accepted(rel),
    ensures
        canonical_rel(rel).len() > 0,
        canonical_rel(rel)[0] != '/',
        !canonical_rel(rel).contains('\0'),
        forall|i: int|
            0 <= i < named_pieces(split_on_slash(rel)).len() ==> {
                let p = #[trigger] named_pieces(split_on_slash(rel))[i];
                is_named(p) && p != dot_dot() && !p.contains('/') && !p.contains('\0')
            },
        split_on_slash(canonical_rel(rel)) == named_pieces(split_on_slash(rel)),
{
    let segs = split_on_slash(rel);
    let parts = named_pieces(segs);
    lemma_split_nonempty(rel);
    lemma_named_subset(segs);
    lemma_split_pieces_plain(rel);
    lemma_segments_free_of(rel, '\0');
    assert forall|i: int| 0 <= i < parts.len() implies {
        let p = #[trigger] parts[i];
        is_named(p) && p != dot_dot() && !p.contains('/') && !p.contains('\0')
    } by {
        let k = choose|k: int| 0 <= k < segs.len() && segs[k] == parts[i];
        assert(segs[k] != dot_dot());
        assert(!segs[k].contains('/'));
        assert(!segs[k].contains('\0'));
    }
    // the first piece is named, so the named pieces start with it
    lemma_named_prefix_first(segs);
    assert(parts.len() > 0);
    lemma_join_nonempty(parts);
    lemma_join_first(parts);
    assert(canonical_rel(rel)[0] == parts[0][0]);
    assert(!parts[0].contains('/'));
    assert(parts[0][0] != '/') by {
        assert(parts[0].contains(parts[0][0]));
    }
    lemma_join_free_of(parts, '\0');
    lemma_split_join(parts);
}

/// Pieces of a string free of `c` (other than the separator) are free of `c`.
proof fn lemma_segments_free_of(s: Seq<char>, c: char)
    requires
        !s.contains(c),
    ensures
        forall|i: int|
            0 <= i < split_on_slash(s).len() ==> !(#[trigger] split_on_slash(s)[i]).contains(c),
    decreases s.len(),
{
    if s.len() > 0 {
        let t = s.drop_last();
        assert(!t.contains(c)) by {
            if t.contains(c) {
                let k = choose|k: int| 0 <= k < t.len() && t[k] == c;
                assert(s[k] == c);
            }
        }
        lemma_segments_free_of(t, c);
        lemma_split_nonempty(t);
        let pre = split_on_slash(t);
        assert(s[s.len() - 1] != c);
        assert forall|i: int| 0 <= i < split_on_slash(s).len() implies !(
        #[trigger] split_on_slash(s)[i]).contains(c) by {
            if s.last() != '/' && i == pre.len() - 1 {
                let x = pre.last().push(s.last());
                if x.contains(c) {
                    let k = choose|k: int| 0 <= k < x.len() && x[k] == c;
                    if k < pre.last().len() {
                        assert(pre[pre.len() - 1][k] == c);
                        assert(pre[pre.len() - 1].contains(c));
                    }
                }
            } else if i < pre.len() {
                assert(split_on_slash(s)[i] == pre[i]);
            }
        }
    }
}

/// When the first piece is named, it is the first named piece.
proof fn lemma_named_prefix_first(segs: Seq<Seq<char>>)
    requires
        segs.len() > 0,
        is_named(segs[0]),
    ensures
        named_pieces(segs).len() > 0,
        named_pieces(segs)[0] == segs[0],
    decreases segs.len(),
{
    if segs.len() == 1 {
        assert(segs.drop_last().len() == 0);
        assert(segs.last() == segs[0]);
    } else {
        let pre = segs.drop_last();
        assert(pre[0] == segs[0]);
        lemma_named_prefix_first(pre);
    }
}

/// A join starts with its first part.
proof fn lemma_join_first(parts: Seq<Seq<char>>)
    requires
        parts.len() > 0,
        parts[0].len() > 0,
    ensures
        join_with_slash(parts).len() >= parts[0].len(),
        join_with_slash(parts)[0] == parts[0][0],
    decreases parts.len(),
{
    if parts.len() > 1 {
        let pre = parts.drop_last();
        assert(pre[0] == parts[0]);
        lemma_join_first(pre);
    }
}

/// A join of parts free of `c` (other than `/`) is free of `c`.
proof fn lemma_join_free_of(parts: Seq<Seq<char>>, c: char)
    requires
        c != '/',
        forall|i: int| 0 <= i < parts.len() ==> !(#[trigger] parts[i]).contains(c),
    ensures
        !join_with_slash(parts).contains(c),
    decreases parts.len(),
{
    if parts.len() == 1 {
        assert(!parts[0].contains(c));
    } else if parts.len() > 1 {
        let pre = parts.drop_last();
        assert forall|i: int| 0 <= i < pre.len() implies !(#[trigger] pre[i]).contains(c) by {
            assert(pre[i] == parts[i]);
        }
        lemma_join_free_of(pre, c);
        assert(!parts[parts.len() - 1].contains(c));
        let j = join_with_slash(parts);
        let a = join_with_slash(pre);
        let l = parts.last();
        if j.contains(c) {
            let k = choose|k: int| 0 <= k < j.len() && j[k] == c;
            assert(j =~= a + seq!['/'] + l);
            if k < a.len() {
                assert(a[k] == c);
            } else if k > a.len() {
                assert(l[k - a.len() - 1] == c);
            }
        }
    }
}

/// Canonicalising is idempotent: the canonical form of an accepted path is
/// itself accepted and is its own canonical form.
pub proof fn lemma_canonical_idempotent(rel: Seq<char>)
    requires
        rel_path_accepted(rel),
    ensures
        rel_path_accepted(canonical_rel(rel)),
        canonical_rel(canonical_rel(rel)) == canonical_rel(rel),
{
    lemma_canonical_pieces_are_names(rel);
    let parts = named_pieces(split_on_slash(rel));
    let c = canonical_rel(rel);
    assert(split_on_slash(c) == parts);
    lemma_named_all(parts);
    let segs = split_on_slash(rel);
    lemma_split_nonempty(rel);
    lemma_named_prefix_first(segs);
    assert(split_on_slash(c)[0] == parts[0]);
    assert forall|i: int| 0 <= i < split_on_slash(c).len() implies split_on_slash(c)[i]
        != dot_dot() by {
        assert(parts[i] != dot_dot());
    }
}

/// The joined on-disk path always begins with the base directory.
pub proof fn lemma_joined_path_within_base(base: Seq<char>, canon: Seq<char>)
    ensures
        joined_path(base, canon).len() >= base.len(),
        joined_path(base, canon).take(base.len() as int) == base,
{
    assert(joined_path(base, canon).take(base.len() as int) =~= base);
}

// ---------- executable path resolution ----------

/// Whether `cs` is exactly `..`.
fn is_dot_dot(cs: &Vec<char>) -> (r: bool)
    ensures
        r == (cs@ == dot_dot()),
{
    let r = cs.len() == 2 && cs[0] == '.' && cs[1] == '.';
    proof {
        if cs@.len() == 2 && cs@[0] == '.' && cs@[1] == '.' {
            assert(cs@ =~= dot_dot());
        }
    }
    r
}

/// Whether `cs` is a named piece (neither empty nor `.`).
fn is_named_piece(cs: &Vec<char>) -> (r: bool)
    ensures
        r == is_named(cs@),
{
    let r = cs.len() > 0 && !(cs.len() == 1 && cs[0] == '.');
    proof {
        if cs@.len() == 1 && cs@[0] == '.' {
            assert(cs@ =~= dot());
        }
        if cs@ == dot() {
            assert(cs@.len() == 1 && cs@[0] == '.');
        }
    }
    r
}

/// Joins `rel` onto `base`, allowing only plain-name components.
/// Rejects absolute paths, `..`, NUL bytes, and empty/`.` paths.
/// Returns `(absolute_path, canonical_relative_with_forward_slashes)`.
pub fn safe_join(base: &str, rel: &str) -> (r: Option<(String, String)>)
    ensures
        r is Some <==> rel_path_accepted(rel@),
        r matches Some((abs, canon)) ==> canon@ == canonical_rel(rel@) && abs@ == joined_path(
            base@,
            canon@,
        ),
{
    let cs = chars_of(rel);
    let n = cs.len();
    if n == 0 {
        return None;
    }
    let mut canon: Vec<char> = Vec::new();
    let mut cur: Vec<char> = Vec::new();
    let mut first = true;
    let mut have_part = false;
    let ghost segs_full = split_on_slash(rel@);
    proof {
        lemma_split_nonempty(rel@);
    }
    for i in 0..n
        invariant
            n == cs@.len(),
            cs@ == rel@,
            n > 0,
            split_on_slash(rel@.take(i as int)).len() >= 1,
            cur@ == split_on_slash(rel@.take(i as int)).last(),
            first == (split_on_slash(rel@.take(i as int)).len() == 1),
            canon@ == join_with_slash(named_pieces(split_on_slash(rel@.take(i as int)).drop_last())),
            have_part == (named_pieces(split_on_slash(rel@.take(i as int)).drop_last()).len() > 0),
            no_parent_before_last(split_on_slash(rel@.take(i as int))),
            split_on_slash(rel@.take(i as int)).len() > 1 ==> is_named(split_on_slash(rel@.take(i as int))[0]),
            !rel@.take(i as int).contains('\0'),
    {
        let c = cs[i];
        let ghost pre = rel@.take(i as int);
        let ghost segs = split_on_slash(pre);
        proof {
            assert(rel@.take(i + 1) =~= pre.push(c));
            lemma_split_push(pre, c);
            lemma_split_nonempty(pre);
        }
        if c == '\0' {
            proof {
                assert(rel@[i as int] == '\0');
                assert(rel@.contains('\0'));
            }
            return None;
        }
        if c == '/' {
            let dd = is_dot_dot(&cur);
            if dd {
                proof {
                    lemma_split_prefix_pieces(rel@, (i + 1) as int);
                    let s2 = split_on_slash(rel@.take(i + 1));
                    assert(s2[s2.len() - 2] == cur@);
                    lemma_split_extends(rel@, (i + 1) as int);
                    assert(split_on_slash(rel@)[s2.len() - 2] == cur@);
                }
                return None;
            }
            let named = is_named_piece(&cur);
            if first && !named {
                proof {
                    lemma_split_prefix_pieces(rel@, (i + 1) as int);
                    let s2 = split_on_slash(rel@.take(i + 1));
                    assert(s2[0] == cur@);
                    lemma_split_extends(rel@, (i + 1) as int);
                    assert(split_on_slash(rel@)[0] == cur@);
                }
                return None;
            }
            proof {
                let s2 = split_on_slash(rel@.take(i + 1));
                assert(s2 =~= segs.push(Seq::<char>::empty()));
                assert(s2.drop_last() =~= segs);
                assert(segs =~= segs.drop_last().push(segs.last()));
                lemma_named_push(segs.drop_last(), segs.last());
                lemma_join_push(named_pieces(segs.drop_last()), segs.last());
            }
            if named {
                if have_part {
                    canon.push('/');
                }
                let ghost before = canon@;
                let mut k: usize = 0;
                while k < cur.len()
                    invariant
                        k <= cur@.len(),
                        canon@ == before + cur@.take(k as int),
                    decreases cur@.len() - k,
                {
                    canon.push(cur[k]);
                    k = k + 1;
                    assert(cur@.take(k as int) =~= cur@.take(k - 1).push(cur@[k - 1]));
                }
                assert(cur@.take(cur@.len() as int) =~= cur@);
                have_part = true;
                proof {
                    if named_pieces(segs.drop_last()).len() > 0 {
                        assert(canon@ =~= join_with_slash(named_pieces(segs.drop_last()))
                            + seq!['/'] + cur@);
                    }
                }
            }
            cur = Vec::new();
            first = false;
            proof {
                let s2 = split_on_slash(rel@.take(i + 1));
                assert(s2.last() =~= cur@);
                assert forall|j: int| 0 <= j < s2.len() - 1 implies s2[j] != dot_dot() by {
                    assert(s2[j] == segs[j]);
                    if j < segs.len() - 1 {
                        assert(segs[j] != dot_dot());
                    }
                }
            }
        } else {
            cur.push(c);
            proof {
                let s2 = split_on_slash(rel@.take(i + 1));
                assert(s2.drop_last() =~= segs.drop_last());
                assert(s2.len() == segs.len());
                assert forall|j: int| 0 <= j < s2.len() - 1 implies s2[j] != dot_dot() by {
                    assert(s2[j] == s2.drop_last()[j]);
                    assert(segs.drop_last()[j] == segs[j]);
                    assert(j < segs.len() - 1);
                    assert(segs[j] != dot_dot());
                }
                if s2.len() > 1 {
                    assert(s2[0] == segs[0]);
                }
            }
        }
        proof {
            let t = rel@.take(i + 1);
            if t.contains('\0') {
                let k = choose|k: int| 0 <= k < t.len() && t[k] == '\0';
                if k < i {
                    assert(pre[k] == '\0');
                }
            }
        }
    }
    assert(rel@.take(n as int) =~= rel@);
    let segs = Ghost(split_on_slash(rel@));
    // the final piece
    if is_dot_dot(&cur) {
        proof {
            assert(segs@[segs@.len() - 1] == cur@);
        }
        return None;
    }
    let named = is_named_piece(&cur);
    if first && !named {
        proof {
            assert(segs@[0] == cur@);
        }
        return None;
    }
    proof {
        assert(segs@ =~= segs@.drop_last().push(segs@.last()));
        lemma_named_push(segs@.drop_last(), segs@.last());
        lemma_join_push(named_pieces(segs@.drop_last()), segs@.last());
        assert(split_on_slash(rel@.take(n as int)) == segs@);
        assert forall|j: int| 0 <= j < segs@.len() implies segs@[j] != dot_dot() by {
            if j < segs@.len() - 1 {
                assert(split_on_slash(rel@.take(n as int))[j] != dot_dot());
            } else {
                assert(segs@[j] == cur@);
            }
        }
        if segs@.len() == 1 {
            assert(segs@[0] == cur@);
        }
        assert(rel_path_accepted(rel@));
    }
    if named {
        if have_part {
            canon.push('/');
        }
        let ghost before = canon@;
        let mut k: usize = 0;
        while k < cur.len()
            invariant
                k <= cur@.len(),
                canon@ == before + cur@.take(k as int),
            decreases cur@.len() - k,
        {
            canon.push(cur[k]);
            k = k + 1;
            assert(cur@.take(k as int) =~= cur@.take(k - 1).push(cur@[k - 1]));
        }
        assert(cur@.take(cur@.len() as int) =~= cur@);
        proof {
            if named_pieces(segs@.drop_last()).len() > 0 {
                assert(canon@ =~= join_with_slash(named_pieces(segs@.drop_last())) + seq!['/']
                    + cur@);
            }
        }
    }
    let canon_s = string_of(canon.as_slice());
    let base_cs = chars_of(base);
    let mut abs = string_of(base_cs.as_slice());
    if base_cs.len() > 0 && base_cs[base_cs.len() - 1] != '/' {
        abs.push('/');
    }
    push_chars(&mut abs, canon.as_slice());
    Some((abs, canon_s))
}

/// Splitting a longer string keeps every closed piece of a prefix's split.
proof fn lemma_split_extends(s: Seq<char>, k: int)
    requires
        0 <= k <= s.len(),
    ensures
        split_on_slash(s.take(k)).len() <= split_on_slash(s).len(),
        forall|j: int|
            0 <= j < split_on_slash(s.take(k)).len() - 1 ==> split_on_slash(s)[j]
                == #[trigger] split_on_slash(s.take(k))[j],
    decreases s.len() - k,
{
    lemma_split_nonempty(s.take(k));
    if k < s.len() {
        let a = split_on_slash(s.take(k));
        assert(s.take(k + 1) =~= s.take(k).push(s[k]));
        lemma_split_push(s.take(k), s[k]);
        let a2 = split_on_slash(s.take(k + 1));
        assert forall|j: int| 0 <= j < a.len() - 1 implies a2[j] == a[j] by {}
        lemma_split_extends(s, k + 1);
        assert forall|j: int| 0 <= j < a.len() - 1 implies split_on_slash(s)[j] == #[trigger] a[j] by {
            assert(a2[j] == a[j]);
        }
    } else {
        assert(s.take(k) =~= s);
    }
}

/// No piece before the last is `..`.
pub open spec fn no_parent_before_last(segs: Seq<Seq<char>>) -> bool {
    forall|j: int| 0 <= j < segs.len() - 1 ==> #[trigger] segs[j] != dot_dot()
}

/// The pieces of a prefix: when the prefix ends in `/`, its second-to-last
/// piece is the piece that the separator closed.
proof fn lemma_split_prefix_pieces(rel: Seq<char>, k: int)
    requires
        0 < k <= rel.len(),
        rel[k - 1] == '/',
    ensures
        split_on_slash(rel.take(k)).len() >= 2,
        split_on_slash(rel.take(k)) == split_on_slash(rel.take(k - 1)).push(Seq::<char>::empty()),
{
    assert(rel.take(k) =~= rel.take(k - 1).push('/'));
    lemma_split_push(rel.take(k - 1), '/');
    lemma_split_nonempty(rel.take(k - 1));
}

// ---------- the storage roots ----------

/// The three on-disk roots: the live vault, the trash and preserved
/// conflict copies.
#[derive(Debug, Clone)]
pub struct Storage {
    pub vault: String,
    pub trash: String,
    pub conflicts: String,
}

impl Storage {
    pub fn new(vault: String, trash: String, conflicts: String) -> (s: Self)
        ensures
            s.vault == vault,
            s.trash == trash,
            s.conflicts == conflicts,
    {
        Storage { vault, trash, conflicts }
    }

    /// Resolve a request path inside the vault, rejecting traversal and absolute paths.
    /// Returns the absolute on-disk path and the canonical relative path (forward slashes).
    pub fn resolve_vault(&self, rel: &str) -> (r: Result<(String, String), AppError>)
        ensures
            r is Ok <==> rel_path_accepted(rel@),
            r matches Ok((abs, canon)) ==> canon@ == canonical_rel(rel@) && abs@ == joined_path(
                self.vault@,
                canon@,
            ),
            r matches Err(e) ==> e == AppError::InvalidPath,
    {
        match safe_join(self.vault.as_str(), rel) {
            Some(p) => Ok(p),
            None => Err(AppError::InvalidPath),
        }
    }

    /// The on-disk location of `sub` inside the trash root.
    pub fn trash_target(&self, sub: &str) -> (r: Result<String, AppError>)
        ensures
            r is Ok <==> rel_path_accepted(sub@),
            r matches Ok(abs) ==> abs@ == joined_path(self.trash@, canonical_rel(sub@)),
            r matches Err(e) ==> e == AppError::InvalidPath,
    {
        match safe_join(self.trash.as_str(), sub) {
            Some((abs, _)) => Ok(abs),
            None => Err(AppError::InvalidPath),
        }
    }

    /// The on-disk location of `sub` inside the conflicts root.
    pub fn conflicts_target(&self, sub: &str) -> (r: Result<String, AppError>)
        ensures
            r is Ok <==> rel_path_accepted(sub@),
            r matches Ok(abs) ==> abs@ == joined_path(self.conflicts@, canonical_rel(sub@)),
            r matches Err(e) ==> e == AppError::InvalidPath,
    {
        match safe_join(self.conflicts.as_str(), sub) {
            Some((abs, _)) => Ok(abs),
            None => Err(AppError::InvalidPath),
        }
    }
}

/// The prefixes of `s` that end just before a `/`, shortest first: for a
/// canonical path, the directories that hold it.
pub open spec fn slash_prefixes(s: Seq<char>) -> Seq<Seq<char>>
    decreases s.len(),
{
    if s.len() == 0 {
        Seq::empty()
    } else if s.last() == '/' {
        slash_prefixes(s.drop_last()).push(s.drop_last())
    } else {
        slash_prefixes(s.drop_last())
    }
}

/// The directories between `root` and the file at `canon` inside it,
/// outermost first; `root` itself is not among them. After a file is
/// removed these are the candidates for removal when left empty, tried
/// innermost first.
pub fn parent_dirs(root: &str, canon: &str) -> (r: Vec<String>)
    ensures
        r@.len() == slash_prefixes(canon@).len(),
        forall|j: int|
            0 <= j < r@.len() ==> #[trigger] r@[j]@ == joined_path(
                root@,
                slash_prefixes(canon@)[j],
            ),
{
    let cs = chars_of(canon);
    let n = cs.len();
    let mut dirs: Vec<String> = Vec::new();
    for i in 0..n
        invariant
            n == cs@.len(),
            cs@ == canon@,
            dirs@.len() == slash_prefixes(cs@.take(i as int)).len(),
            forall|j: int|
                0 <= j < dirs@.len() ==> #[trigger] dirs@[j]@ == joined_path(
                    root@,
                    slash_prefixes(cs@.take(i as int))[j],
                ),
    {
        proof {
            assert(cs@.take(i + 1).drop_last() =~= cs@.take(i as int));
            assert(cs@.take(i + 1).last() == cs@[i as int]);
        }
        if cs[i] == '/' {
            let prefix = chars_range(cs.as_slice(), 0, i);
            let p = string_of(prefix.as_slice());
            proof {
                assert(prefix@ =~= cs@.take(i as int));
            }
            let d = crate::config::path_join(root, p.as_str());
            dirs.push(d);
        }
    }
    assert(cs@.take(n as int) =~= cs@);
    dirs
}

} // verus!

verus! {

/// A lowercase hexadecimal digit.
pub open spec fn is_lower_hex(c: char) -> bool {
    ('0' <= c && c <= '9') || ('a' <= c && c <= 'f')
}

/// The BLAKE3 digest of `bytes`, as `Hash::to_hex` spells it.
pub uninterp spec fn blake3_hex(bytes: Seq<u8>) -> Seq<char>;

/// blake3 hex digest of the given bytes — used as ETag.
/// `blake3::hash(..).to_hex()` writes two lowercase hex digits for each of
/// the 32 digest bytes.
#[verifier::external_body]
pub fn etag_of(bytes: &[u8]) -> (r: String)
    ensures
        r@ == blake3_hex(bytes@),
        r@.len() == 64,
        forall|i: int| 0 <= i < r@.len() ==> is_lower_hex(#[trigger] r@[i]),
{
    blake3::hash(bytes).to_hex().to_string()
}

} // verus!

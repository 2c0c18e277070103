//! Character-level helpers on strings, each with an exact contract.

use vstd::prelude::*;
use vstd::string::StringExecFns;

verus! {

broadcast use vstd::string::group_string_axioms;

/// `String::push` appends one character.
pub assume_specification[ String::push ](s: &mut String, ch: char)
    ensures
        final(s)@ == old(s)@.push(ch),
;

/// The characters of `s`, in order.
pub fn chars_of(s: &str) -> (v: Vec<char>)
    ensures
        v@ == s@,
{
    let mut v: Vec<char> = Vec::new();
    for c in it: s.chars()
        invariant
            v@ == it.seq().take(it.index() as int),
            it.seq() == s@,
    {
        v.push(c);
    }
    v
}

/// A `String` holding exactly the characters of `cs`.
pub fn string_of(cs: &[char]) -> (s: String)
    ensures
        s@ == cs@,
{
    let mut s = String::new();
    let n = cs.len();
    for i in 0..n
        invariant
            n == cs@.len(),
            s@ == cs@.take(i as int),
    {
        s.push(cs[i]);
        assert(cs@.take(i + 1) =~= cs@.take(i as int).push(cs@[i as int]));
    }
    assert(cs@.take(n as int) =~= cs@);
    s
}

/// Appends the characters of `cs` to `out`.
pub fn push_chars(out: &mut String, cs: &[char])
    ensures
        final(out)@ == old(out)@ + cs@,
{
    let n = cs.len();
    for i in 0..n
        invariant
            n == cs@.len(),
            out@ == old(out)@ + cs@.take(i as int),
    {
        out.push(cs[i]);
        assert(cs@.take(i + 1) =~= cs@.take(i as int).push(cs@[i as int]));
    }
    assert(cs@.take(n as int) =~= cs@);
}

/// Appends `s` to `out`.
pub fn push_str(out: &mut String, s: &str)
    ensures
        final(out)@ == old(out)@ + s@,
{
    out.append(s);
}

/// Character-wise equality of two slices of characters.
pub fn chars_eq(a: &[char], b: &[char]) -> (r: bool)
    ensures
        r == (a@ == b@),
{
    if a.len() != b.len() {
        return false;
    }
    let n = a.len();
    for i in 0..n
        invariant
            n == a@.len(),
            n == b@.len(),
            forall|j: int| 0 <= j < i ==> a@[j] == b@[j],
    {
        if a[i] != b[i] {
            return false;
        }
    }
    assert(a@ =~= b@);
    true
}

/// Equality of two strings, compared character by character.
pub fn str_eq(a: &str, b: &str) -> (r: bool)
    ensures
        r == (a@ == b@),
{
    let va = chars_of(a);
    let vb = chars_of(b);
    chars_eq(va.as_slice(), vb.as_slice())
}

/// Whether `s` begins with `prefix`.
pub open spec fn has_prefix(s: Seq<char>, prefix: Seq<char>) -> bool {
    prefix.len() <= s.len() && s.take(prefix.len() as int) == prefix
}

/// Whether `s` ends with `suffix`.
pub open spec fn has_suffix(s: Seq<char>, suffix: Seq<char>) -> bool {
    suffix.len() <= s.len() && s.skip(s.len() - suffix.len()) == suffix
}

/// Whether `cs[start..]` begins with `prefix`.
pub fn chars_have_prefix_at(cs: &[char], start: usize, prefix: &[char]) -> (r: bool)
    requires
        start <= cs@.len(),
    ensures
        r == has_prefix(cs@.skip(start as int), prefix@),
{
    if prefix.len() > cs.len() - start {
        return false;
    }
    let n = prefix.len();
    for i in 0..n
        invariant
            n == prefix@.len(),
            start + n <= cs@.len(),
            forall|j: int| 0 <= j < i ==> cs@[start + j] == prefix@[j],
    {
        assert(start + i < cs.len());
        if cs[start + i] != prefix[i] {
            assert(cs@.skip(start as int).take(n as int)[i as int] != prefix@[i as int]);
            return false;
        }
    }
    assert(cs@.skip(start as int).take(n as int) =~= prefix@);
    true
}

/// The characters `cs[from..to]`.
pub fn chars_range(cs: &[char], from: usize, to: usize) -> (v: Vec<char>)
    requires
        from <= to <= cs@.len(),
    ensures
        v@ == cs@.subrange(from as int, to as int),
{
    let mut v: Vec<char> = Vec::new();
    for i in from..to
        invariant
            from <= to <= cs@.len(),
            v@ == cs@.subrange(from as int, i as int),
    {
        v.push(cs[i]);
        assert(cs@.subrange(from as int, i + 1) =~= cs@.subrange(from as int, i as int).push(
            cs@[i as int],
        ));
    }
    v
}

} // verus!

verus! {

// ---------- splitting on a separator ----------

/// The pieces of `s` between occurrences of `sep`, in order (always at least
/// one piece, as `str::split` yields).
pub open spec fn split_on(s: Seq<char>, sep: char) -> Seq<Seq<char>>
    decreases s.len(),
{
    if s.len() == 0 {
        seq![Seq::<char>::empty()]
    } else {
        let pre = split_on(s.drop_last(), sep);
        if s.last() == sep {
            pre.push(Seq::<char>::empty())
        } else {
            pre.update(pre.len() - 1, pre.last().push(s.last()))
        }
    }
}

pub proof fn lemma_split_on_nonempty(s: Seq<char>, sep: char)
    ensures
        split_on(s, sep).len() >= 1,
    decreases s.len(),
{
    if s.len() > 0 {
        lemma_split_on_nonempty(s.drop_last(), sep);
    }
}

pub proof fn lemma_split_on_push(s: Seq<char>, sep: char, c: char)
    ensures
        split_on(s.push(c), sep) == (if c == sep {
            split_on(s, sep).push(Seq::<char>::empty())
        } else {
            split_on(s, sep).update(split_on(s, sep).len() - 1, split_on(s, sep).last().push(c))
        }),
{
    assert(s.push(c).drop_last() =~= s);
}

/// The pieces of `cs` between occurrences of `sep`.
pub fn split_chars(cs: &[char], sep: char) -> (r: Vec<Vec<char>>)
    ensures
        r@.len() == split_on(cs@, sep).len(),
        forall|i: int| 0 <= i < r@.len() ==> #[trigger] r@[i]@ == split_on(cs@, sep)[i],
{
    let mut done: Vec<Vec<char>> = Vec::new();
    let mut cur: Vec<char> = Vec::new();
    let n = cs.len();
    for i in 0..n
        invariant
            n == cs@.len(),
            split_on(cs@.take(i as int), sep).len() == done@.len() + 1,
            forall|j: int|
                0 <= j < done@.len() ==> #[trigger] done@[j]@ == split_on(cs@.take(i as int), sep)[j],
            cur@ == split_on(cs@.take(i as int), sep).last(),
    {
        let c = cs[i];
        proof {
            assert(cs@.take(i + 1) =~= cs@.take(i as int).push(c));
            lemma_split_on_push(cs@.take(i as int), sep, c);
            lemma_split_on_nonempty(cs@.take(i as int), sep);
        }
        if c == sep {
            let closed = cur;
            done.push(closed);
            cur = Vec::new();
            proof {
                let s2 = split_on(cs@.take(i + 1), sep);
                assert(s2.last() =~= cur@);
            }
        } else {
            cur.push(c);
        }
    }
    assert(cs@.take(n as int) =~= cs@);
    done.push(cur);
    done
}

// ---------- trimming ----------

/// How many characters at the start of `s` satisfy `p`.
pub open spec fn leading_count(s: Seq<char>, p: spec_fn(char) -> bool) -> nat
    decreases s.len(),
{
    if s.len() > 0 && p(s[0]) {
        1 + leading_count(s.drop_first(), p)
    } else {
        0
    }
}

/// How many characters at the end of `s` satisfy `p`.
pub open spec fn trailing_count(s: Seq<char>, p: spec_fn(char) -> bool) -> nat
    decreases s.len(),
{
    if s.len() > 0 && p(s.last()) {
        1 + trailing_count(s.drop_last(), p)
    } else {
        0
    }
}

/// `s` without its leading and trailing characters that satisfy `p`.
pub open spec fn trim_with(s: Seq<char>, p: spec_fn(char) -> bool) -> Seq<char> {
    let t = s.skip(leading_count(s, p) as int);
    t.take(t.len() - trailing_count(t, p))
}

pub proof fn lemma_leading_count(s: Seq<char>, p: spec_fn(char) -> bool, a: int)
    requires
        0 <= a <= s.len(),
        forall|k: int| 0 <= k < a ==> p(#[trigger] s[k]),
        a == s.len() || !p(s[a]),
    ensures
        leading_count(s, p) == a,
    decreases a,
{
    if a > 0 {
        let t = s.drop_first();
        assert forall|k: int| 0 <= k < a - 1 implies p(#[trigger] t[k]) by {
            assert(t[k] == s[k + 1]);
        }
        if a < s.len() {
            assert(t[a - 1] == s[a]);
        }
        lemma_leading_count(t, p, a - 1);
    }
}

pub proof fn lemma_trailing_count(s: Seq<char>, p: spec_fn(char) -> bool, b: int)
    requires
        0 <= b <= s.len(),
        forall|k: int| b <= k < s.len() ==> p(#[trigger] s[k]),
        b == 0 || !p(s[b - 1]),
    ensures
        trailing_count(s, p) == s.len() - b,
    decreases s.len() - b,
{
    if b < s.len() {
        let t = s.drop_last();
        assert(p(s[s.len() - 1]));
        assert forall|k: int| b <= k < t.len() implies p(#[trigger] t[k]) by {
            assert(t[k] == s[k]);
        }
        if b > 0 {
            assert(t[b - 1] == s[b - 1]);
        }
        lemma_trailing_count(t, p, b);
    }
}

/// Whether `c` is a double quote.
pub open spec fn is_quote(c: char) -> bool {
    c == '"'
}

/// Whether `c` has the Unicode `White_Space` property (what `char::is_whitespace`
/// and `str::trim` use).
pub open spec fn is_white_space(c: char) -> bool {
    ||| ('\u{9}' <= c && c <= '\u{d}')
    ||| c == ' '
    ||| c == '\u{85}'
    ||| c == '\u{a0}'
    ||| c == '\u{1680}'
    ||| ('\u{2000}' <= c && c <= '\u{200a}')
    ||| c == '\u{2028}'
    ||| c == '\u{2029}'
    ||| c == '\u{202f}'
    ||| c == '\u{205f}'
    ||| c == '\u{3000}'
}

/// Executable form of [`is_white_space`].
pub fn white_space(c: char) -> (r: bool)
    ensures
        r == is_white_space(c),
{
    ('\u{9}' <= c && c <= '\u{d}') || c == ' ' || c == '\u{85}' || c == '\u{a0}' || c
        == '\u{1680}' || ('\u{2000}' <= c && c <= '\u{200a}') || c == '\u{2028}' || c
        == '\u{2029}' || c == '\u{202f}' || c == '\u{205f}' || c == '\u{3000}'
}

/// `cs` without leading and trailing double quotes (`str::trim_matches('"')`).
pub fn trim_quotes(cs: &[char]) -> (r: Vec<char>)
    ensures
        r@ == trim_with(cs@, |c: char| is_quote(c)),
{
    let ghost p = |c: char| is_quote(c);
    let n = cs.len();
    let mut a: usize = 0;
    while a < n && cs[a] == '"'
        invariant
            a <= n,
            n == cs@.len(),
            forall|k: int| 0 <= k < a ==> is_quote(#[trigger] cs@[k]),
        decreases n - a,
    {
        a = a + 1;
    }
    proof {
        lemma_leading_count(cs@, p, a as int);
    }
    let mut b: usize = n;
    while b > a && cs[b - 1] == '"'
        invariant
            a <= b <= n,
            n == cs@.len(),
            forall|k: int| b <= k < n ==> is_quote(#[trigger] cs@[k]),
        decreases b,
    {
        b = b - 1;
    }
    proof {
        let t = cs@.skip(a as int);
        assert forall|k: int| b - a <= k < t.len() implies p(#[trigger] t[k]) by {
            assert(t[k] == cs@[k + a]);
        }
        if b > a {
            assert(t[b - a - 1] == cs@[b - 1]);
        }
        lemma_trailing_count(t, p, b - a);
        assert(t.take(t.len() - trailing_count(t, p)) =~= cs@.subrange(a as int, b as int));
    }
    chars_range(cs, a, b)
}

/// `cs` without leading and trailing white space (`str::trim`).
pub fn trim_white_space(cs: &[char]) -> (r: Vec<char>)
    ensures
        r@ == trim_with(cs@, |c: char| is_white_space(c)),
{
    let ghost p = |c: char| is_white_space(c);
    let n = cs.len();
    let mut a: usize = 0;
    while a < n && white_space(cs[a])
        invariant
            a <= n,
            n == cs@.len(),
            forall|k: int| 0 <= k < a ==> is_white_space(#[trigger] cs@[k]),
        decreases n - a,
    {
        a = a + 1;
    }
    proof {
        lemma_leading_count(cs@, p, a as int);
    }
    let mut b: usize = n;
    while b > a && white_space(cs[b - 1])
        invariant
            a <= b <= n,
            n == cs@.len(),
            forall|k: int| b <= k < n ==> is_white_space(#[trigger] cs@[k]),
        decreases b,
    {
        b = b - 1;
    }
    proof {
        let t = cs@.skip(a as int);
        assert forall|k: int| b - a <= k < t.len() implies p(#[trigger] t[k]) by {
            assert(t[k] == cs@[k + a]);
        }
        if b > a {
            assert(t[b - a - 1] == cs@[b - 1]);
        }
        lemma_trailing_count(t, p, b - a);
        assert(t.take(t.len() - trailing_count(t, p)) =~= cs@.subrange(a as int, b as int));
    }
    chars_range(cs, a, b)
}

} // verus!

verus! {

// ---------- text inside text ----------

/// `t` occurs in `s` as a contiguous piece.
pub open spec fn holds_text(s: Seq<char>, t: Seq<char>) -> bool {
    exists|a: Seq<char>, b: Seq<char>| #[trigger] (a + t + b) == s
}

/// A text holds each piece it is made of.
pub proof fn lemma_holds_part(a: Seq<char>, t: Seq<char>, b: Seq<char>)
    ensures
        holds_text(a + t + b, t),
{
    assert((a + t + b) == a + t + b);
}

/// Holding text is transitive.
pub proof fn lemma_holds_trans(s: Seq<char>, t: Seq<char>, u: Seq<char>)
    requires
        holds_text(s, t),
        holds_text(t, u),
    ensures
        holds_text(s, u),
{
    let (a, b) = choose|a: Seq<char>, b: Seq<char>| #[trigger] (a + t + b) == s;
    let (c, d) = choose|c: Seq<char>, d: Seq<char>| #[trigger] (c + u + d) == t;
    assert(s =~= (a + c) + u + (d + b));
    assert(((a + c) + u + (d + b)) == s);
}

/// Text held by `s` is held by `s` with anything around it.
pub proof fn lemma_holds_within(x: Seq<char>, s: Seq<char>, y: Seq<char>, t: Seq<char>)
    requires
        holds_text(s, t),
    ensures
        holds_text(x + s + y, t),
{
    lemma_holds_part(x, s, y);
    lemma_holds_trans(x + s + y, s, t);
}

} // verus!

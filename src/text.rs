//! Character-level helpers on strings, each with an exact contract.

use vstd::prelude::*;

verus! {

/// `p` is a prefix of `s`.
pub open spec fn is_prefix(p: Seq<char>, s: Seq<char>) -> bool {
    p.len() <= s.len() && s.subrange(0, p.len() as int) == p
}

/// Relies on `String::push`: the character is appended at the end.
#[verifier::external_body]
pub(crate) fn push_char(s: &mut String, c: char)
    ensures
        final(s)@ == old(s)@.push(c),
{
    s.push(c)
}

/// Whether `s` begins with `p`.
pub fn starts_with(s: &str, p: &str) -> (r: bool)
    ensures
        r == is_prefix(p@, s@),
{
    let n = s.unicode_len();
    let m = p.unicode_len();
    if m > n {
        return false;
    }
    let mut i: usize = 0;
    while i < m
        invariant
            m <= n,
            n == s@.len(),
            m == p@.len(),
            i <= m,
            forall|j: int| 0 <= j < i ==> s@[j] == p@[j],
        decreases m - i,
    {
        if s.get_char(i) != p.get_char(i) {
            assert(s@.subrange(0, m as int)[i as int] != p@[i as int]);
            return false;
        }
        i += 1;
    }
    assert(s@.subrange(0, m as int) =~= p@);
    true
}

/// The character sequences that a list of strings holds.
pub open spec fn views(v: Seq<String>) -> Seq<Seq<char>> {
    v.map_values(|s: String| s@)
}

/// The optional string's characters.
pub open spec fn opt_view(o: Option<String>) -> Option<Seq<char>> {
    match o {
        Some(s) => Some(s@),
        None => None,
    }
}

/// `s` without its leading `c` characters.
pub open spec fn strip_leading(s: Seq<char>, c: char) -> Seq<char>
    decreases s.len(),
{
    if s.len() > 0 && s[0] == c {
        strip_leading(s.drop_first(), c)
    } else {
        s
    }
}

/// `s` without its trailing `c` characters.
pub open spec fn strip_trailing(s: Seq<char>, c: char) -> Seq<char>
    decreases s.len(),
{
    if s.len() > 0 && s.last() == c {
        strip_trailing(s.drop_last(), c)
    } else {
        s
    }
}

/// The position of the first `c` in `s`, or the length of `s` where there is
/// none.
pub open spec fn first_index(s: Seq<char>, c: char) -> nat
    decreases s.len(),
{
    if s.len() == 0 {
        0
    } else if s[0] == c {
        0
    } else {
        1 + first_index(s.drop_first(), c)
    }
}

proof fn lemma_first_index(s: Seq<char>, c: char, i: int)
    requires
        0 <= i <= s.len(),
        forall|j: int| 0 <= j < i ==> s[j] != c,
        i == s.len() || s[i] == c,
    ensures
        first_index(s, c) == i,
    decreases i,
{
    if i > 0 {
        lemma_first_index(s.drop_first(), c, i - 1);
    }
}

/// `s` with every `from` character replaced by `to`.
pub open spec fn replace_char(s: Seq<char>, from: char, to: char) -> Seq<char> {
    s.map_values(|x: char| if x == from { to } else { x })
}

/// Position of the first `c` in `s`, or the length of `s`.
pub fn find_char(s: &str, c: char) -> (r: usize)
    ensures
        r == first_index(s@, c),
        r <= s@.len(),
{
    let n = s.unicode_len();
    let mut i: usize = 0;
    while i < n
        invariant
            n == s@.len(),
            i <= n,
            forall|j: int| 0 <= j < i ==> s@[j] != c,
        decreases n - i,
    {
        if s.get_char(i) == c {
            proof {
                lemma_first_index(s@, c, i as int);
            }
            return i;
        }
        i += 1;
    }
    proof {
        lemma_first_index(s@, c, i as int);
    }
    i
}

/// `s` without its leading and trailing `c` characters.
pub fn trim_char(s: &str, c: char) -> (r: &str)
    ensures
        r@ == strip_trailing(strip_leading(s@, c), c),
{
    let n = s.unicode_len();
    let mut lo: usize = 0;
    proof {
        assert(s@.subrange(0, n as int) =~= s@);
    }
    while lo < n && s.get_char(lo) == c
        invariant
            n == s@.len(),
            lo <= n,
            strip_leading(s@, c) == strip_leading(s@.subrange(lo as int, n as int), c),
        decreases n - lo,
    {
        proof {
            assert(s@.subrange(lo as int, n as int).drop_first() =~= s@.subrange(
                lo + 1,
                n as int,
            ));
        }
        lo += 1;
    }
    let mut hi: usize = n;
    while hi > lo && s.get_char(hi - 1) == c
        invariant
            n == s@.len(),
            lo <= hi <= n,
            strip_leading(s@, c) == s@.subrange(lo as int, n as int),
            strip_trailing(strip_leading(s@, c), c) == strip_trailing(
                s@.subrange(lo as int, hi as int),
                c,
            ),
        decreases hi - lo,
    {
        proof {
            assert(s@.subrange(lo as int, hi as int).drop_last() =~= s@.subrange(
                lo as int,
                hi - 1,
            ));
        }
        hi -= 1;
    }
    s.substring_char(lo, hi)
}

/// `s` with every `from` character replaced by `to`.
pub fn replace_chars(s: &str, from: char, to: char) -> (r: String)
    ensures
        r@ == replace_char(s@, from, to),
{
    let n = s.unicode_len();
    let mut out = String::new();
    let mut i: usize = 0;
    while i < n
        invariant
            n == s@.len(),
            i <= n,
            out@ == replace_char(s@.subrange(0, i as int), from, to),
        decreases n - i,
    {
        let x = s.get_char(i);
        push_char(&mut out, if x == from { to } else { x });
        proof {
            assert(s@.subrange(0, i + 1) =~= s@.subrange(0, i as int).push(x));
        }
        i += 1;
        proof {
            assert(out@ =~= replace_char(s@.subrange(0, i as int), from, to));
        }
    }
    proof {
        assert(s@.subrange(0, n as int) =~= s@);
    }
    out
}

/// What `str::to_lowercase` makes of a text.
pub uninterp spec fn lower_of(s: Seq<char>) -> Seq<char>;

/// Relies on `str::to_lowercase`: the result depends on the characters alone.
#[verifier::external_body]
pub(crate) fn lowercase(s: &str) -> (r: String)
    ensures
        r@ == lower_of(s@),
{
    s.to_lowercase()
}

/// `s` with each occurrence of `p` replaced by `r`, scanning from the left
/// and never overlapping.
pub open spec fn replace_all(s: Seq<char>, p: Seq<char>, r: Seq<char>) -> Seq<char>
    decreases s.len(),
{
    if p.len() == 0 || s.len() < p.len() {
        s
    } else if s.subrange(0, p.len() as int) == p {
        r + replace_all(s.subrange(p.len() as int, s.len() as int), p, r)
    } else {
        seq![s[0]] + replace_all(s.drop_first(), p, r)
    }
}

/// `s` with each occurrence of the non-empty `p` replaced by `r`.
pub fn replace_str(s: &str, p: &str, r: &str) -> (out: String)
    requires
        p@.len() > 0,
    ensures
        out@ == replace_all(s@, p@, r@),
{
    let n = s.unicode_len();
    let m = p.unicode_len();
    let mut out = String::new();
    let mut i: usize = 0;
    proof {
        assert(s@.subrange(0, n as int) =~= s@);
    }
    while i < n
        invariant
            n == s@.len(),
            m == p@.len(),
            m > 0,
            i <= n,
            replace_all(s@, p@, r@) == out@ + replace_all(s@.subrange(i as int, n as int), p@, r@),
        decreases n - i,
    {
        let ghost rest = s@.subrange(i as int, n as int);
        if m <= n - i && starts_with(s.substring_char(i, n), p) {
            proof {
                assert(rest.subrange(m as int, rest.len() as int) =~= s@.subrange(i + m, n as int));
                assert(out@ + (r@ + replace_all(s@.subrange(i + m, n as int), p@, r@)) =~= (out@
                    + r@) + replace_all(s@.subrange(i + m, n as int), p@, r@));
            }
            out.append(r);
            i = i + m;
        } else {
            let c = s.get_char(i);
            proof {
                assert(rest.drop_first() =~= s@.subrange(i + 1, n as int));
                if m <= n - i {
                    assert(!is_prefix(p@, rest));
                }
                assert(out@ + (seq![c] + replace_all(s@.subrange(i + 1, n as int), p@, r@))
                    =~= out@.push(c) + replace_all(s@.subrange(i + 1, n as int), p@, r@));
            }
            push_char(&mut out, c);
            i = i + 1;
        }
    }
    proof {
        assert(s@.subrange(n as int, n as int).len() == 0);
        assert(out@ + s@.subrange(n as int, n as int) =~= out@);
    }
    out
}

/// The position of the last `c` in `s`, or -1 where there is none.
pub open spec fn last_index(s: Seq<char>, c: char) -> int
    decreases s.len(),
{
    if s.len() == 0 {
        -1
    } else if s.last() == c {
        s.len() - 1
    } else {
        last_index(s.drop_last(), c)
    }
}

/// Position of the last `c` in `s`, if any.
pub fn rfind_char(s: &str, c: char) -> (r: Option<usize>)
    ensures
        match r {
            Some(i) => i as int == last_index(s@, c) && i < s@.len(),
            None => last_index(s@, c) == -1,
        },
{
    let n = s.unicode_len();
    let mut hi: usize = n;
    proof {
        assert(s@.subrange(0, n as int) =~= s@);
    }
    while hi > 0
        invariant
            n == s@.len(),
            hi <= n,
            last_index(s@, c) == last_index(s@.subrange(0, hi as int), c),
        decreases hi,
    {
        if s.get_char(hi - 1) == c {
            return Some(hi - 1);
        }
        proof {
            assert(s@.subrange(0, hi as int).drop_last() =~= s@.subrange(0, hi - 1));
        }
        hi -= 1;
    }
    None
}

/// Whether `s` ends with `p`.
pub open spec fn is_suffix(p: Seq<char>, s: Seq<char>) -> bool {
    p.len() <= s.len() && s.subrange(s.len() - p.len(), s.len() as int) == p
}

pub fn ends_with(s: &str, p: &str) -> (r: bool)
    ensures
        r == is_suffix(p@, s@),
{
    let n = s.unicode_len();
    let m = p.unicode_len();
    if m > n {
        return false;
    }
    let tail = s.substring_char(n - m, n);
    let r = starts_with(tail, p);
    proof {
        assert(tail@.subrange(0, m as int) =~= tail@);
    }
    r
}

/// Whether two texts are the same.
pub fn same_text(a: &str, b: &str) -> (r: bool)
    ensures
        r == (a@ == b@),
{
    if a.unicode_len() != b.unicode_len() {
        return false;
    }
    let r = starts_with(a, b);
    proof {
        assert(a@.len() == b@.len() ==> a@.subrange(0, b@.len() as int) =~= a@);
    }
    r
}

} // verus!

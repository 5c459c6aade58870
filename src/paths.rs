//! Paths as sequences of components. An absolute path begins with the
//! component `/`.

use vstd::prelude::*;
use crate::text::views;

verus! {

/// `p` is a leading part of `s`, component by component.
pub open spec fn path_prefix(p: Seq<Seq<char>>, s: Seq<Seq<char>>) -> bool {
    p.len() <= s.len() && s.subrange(0, p.len() as int) == p
}

pub open spec fn is_absolute(p: Seq<Seq<char>>) -> bool {
    p.len() > 0 && p[0] == "/"@
}

/// `path` where it is absolute, else `path` under `base`.
pub open spec fn joined(base: Seq<Seq<char>>, path: Seq<Seq<char>>) -> Seq<Seq<char>> {
    if is_absolute(path) {
        path
    } else {
        base + path
    }
}

pub fn str_eq(a: &String, b: &String) -> (r: bool)
    ensures
        r == (a@ == b@),
{
    a.eq(b)
}

/// Whether `root` is a leading part of `path`.
pub fn is_within(root: &Vec<String>, path: &Vec<String>) -> (r: bool)
    ensures
        r == path_prefix(views(root@), views(path@)),
{
    if root.len() > path.len() {
        return false;
    }
    let mut i: usize = 0;
    while i < root.len()
        invariant
            root.len() <= path.len(),
            i <= root.len(),
            forall|j: int| 0 <= j < i ==> root@[j]@ == path@[j]@,
        decreases root.len() - i,
    {
        if !str_eq(&root[i], &path[i]) {
            proof {
                assert(views(path@).subrange(0, root.len() as int)[i as int] != views(root@)[i as int]);
            }
            return false;
        }
        i += 1;
    }
    proof {
        assert(views(path@).subrange(0, root.len() as int) =~= views(root@));
    }
    true
}

/// Whether two paths are the same, component by component.
pub fn same_path(a: &Vec<String>, b: &Vec<String>) -> (r: bool)
    ensures
        r == (views(a@) == views(b@)),
{
    if a.len() != b.len() {
        proof {
            assert(views(a@).len() != views(b@).len());
        }
        return false;
    }
    let r = is_within(a, b);
    proof {
        assert(views(b@).subrange(0, a.len() as int) =~= views(b@));
    }
    r
}

/// A copy of a path.
pub fn copy_path(p: &Vec<String>) -> (r: Vec<String>)
    ensures
        views(r@) == views(p@),
{
    let mut r: Vec<String> = Vec::new();
    let mut i: usize = 0;
    while i < p.len()
        invariant
            i <= p.len(),
            views(r@) == views(p@.subrange(0, i as int)),
        decreases p.len() - i,
    {
        let x = p[i].clone();
        r.push(x);
        proof {
            assert(views(r@) =~= views(p@.subrange(0, i as int)).push(x@));
            assert(p@.subrange(0, i + 1) =~= p@.subrange(0, i as int).push(p@[i as int]));
            assert(views(r@) =~= views(p@.subrange(0, i + 1)));
        }
        i += 1;
    }
    proof {
        assert(p@.subrange(0, p.len() as int) =~= p@);
    }
    r
}

/// `path` appended to `base`.
pub fn concat_paths(base: &Vec<String>, path: &Vec<String>) -> (r: Vec<String>)
    ensures
        views(r@) == views(base@) + views(path@),
{
    let mut r = copy_path(base);
    let mut j: usize = 0;
    while j < path.len()
        invariant
            j <= path.len(),
            views(r@) == views(base@) + views(path@.subrange(0, j as int)),
        decreases path.len() - j,
    {
        let x = path[j].clone();
        r.push(x);
        proof {
            assert(views(r@) =~= (views(base@) + views(path@.subrange(0, j as int))).push(x@));
            assert(path@.subrange(0, j + 1) =~= path@.subrange(0, j as int).push(path@[j as int]));
            assert(views(r@) =~= views(base@) + views(path@.subrange(0, j + 1)));
        }
        j += 1;
    }
    proof {
        assert(path@.subrange(0, path.len() as int) =~= path@);
    }
    r
}

/// `path` where it is absolute, else `path` under `base`.
pub fn join_path(base: &Vec<String>, path: &Vec<String>) -> (r: Vec<String>)
    ensures
        views(r@) == joined(views(base@), views(path@)),
{
    proof {
        reveal_strlit("/");
    }
    if path.len() > 0 && crate::text::starts_with(path[0].as_str(), "/") && path[0].as_str().unicode_len() == 1 {
        proof {
            assert(path@[0]@.subrange(0, 1) =~= path@[0]@);
        }
        copy_path(path)
    } else {
        proof {
            if path.len() > 0 && path@[0]@ == "/"@ {
                assert(path@[0]@.subrange(0, 1) =~= path@[0]@);
            }
        }
        concat_paths(base, path)
    }
}

/// The first `n` components of `p`.
pub fn take_path(p: &Vec<String>, n: usize) -> (r: Vec<String>)
    requires
        n <= p@.len(),
    ensures
        views(r@) == views(p@).subrange(0, n as int),
{
    let mut r: Vec<String> = Vec::new();
    let mut i: usize = 0;
    while i < n
        invariant
            n <= p@.len(),
            i <= n,
            views(r@) == views(p@).subrange(0, i as int),
        decreases n - i,
    {
        let x = p[i].clone();
        r.push(x);
        proof {
            assert(views(r@) =~= views(p@).subrange(0, i as int).push(x@));
            assert(views(r@) =~= views(p@).subrange(0, i + 1));
        }
        i += 1;
    }
    r
}

/// The length of the longest leading part of `base` that leads `path`.
pub open spec fn common_len(path: Seq<Seq<char>>, base: Seq<Seq<char>>, m: int) -> int
    decreases m,
{
    if m <= 0 {
        0
    } else if path_prefix(base.subrange(0, m), path) {
        m
    } else {
        common_len(path, base, m - 1)
    }
}

/// `path` written relative to the directory `base`: one `..` for each
/// component of `base` below their common ancestor, then the rest of `path`.
pub open spec fn relative_path_of(path: Seq<Seq<char>>, base: Seq<Seq<char>>) -> Seq<Seq<char>> {
    let m = common_len(path, base, base.len() as int);
    Seq::new((base.len() - m) as nat, |i: int| ".."@) + path.subrange(m, path.len() as int)
}

proof fn lemma_common_len_bounds(path: Seq<Seq<char>>, base: Seq<Seq<char>>, m: int)
    requires
        0 <= m <= base.len(),
    ensures
        0 <= common_len(path, base, m) <= m,
        common_len(path, base, m) <= path.len(),
    decreases m,
{
    if m > 0 && !path_prefix(base.subrange(0, m), path) {
        lemma_common_len_bounds(path, base, m - 1);
    }
}

/// `path` written relative to the directory `base` (both canonical).
pub fn relative_path(path: &Vec<String>, base: &Vec<String>) -> (r: Vec<String>)
    ensures
        views(r@) == relative_path_of(views(path@), views(base@)),
{
    let mut m: usize = base.len();
    proof {
        assert(views(base@).subrange(0, base@.len() as int) =~= views(base@));
    }
    while m > 0
        invariant
            m <= base@.len(),
            common_len(views(path@), views(base@), base@.len() as int) == common_len(
                views(path@),
                views(base@),
                m as int,
            ),
        ensures
            common_len(views(path@), views(base@), base@.len() as int) == m,
        decreases m,
    {
        let anc = take_path(base, m);
        if is_within(&anc, path) {
            break;
        }
        m -= 1;
    }
    proof {
        lemma_common_len_bounds(views(path@), views(base@), base@.len() as int);
    }
    let mut r: Vec<String> = Vec::new();
    let mut k: usize = 0;
    while k < base.len() - m
        invariant
            m <= base@.len(),
            k <= base@.len() - m,
            views(r@) == Seq::new(k as nat, |i: int| ".."@),
        decreases base.len() - m - k,
    {
        let ghost prev = r@;
        let dots = String::from_str("..");
        r.push(dots);
        proof {
            assert(views(r@) =~= views(prev).push(dots@));
            assert(views(r@) =~= Seq::new((k + 1) as nat, |i: int| ".."@));
        }
        k += 1;
    }
    let mut j: usize = m;
    while j < path.len()
        invariant
            m <= j <= path@.len(),
            views(r@) == Seq::new((base@.len() - m) as nat, |i: int| ".."@) + views(path@).subrange(
                m as int,
                j as int,
            ),
        decreases path.len() - j,
    {
        let ghost prev = r@;
        let x = path[j].clone();
        r.push(x);
        proof {
            assert(views(r@) =~= views(prev).push(x@));
            assert(views(r@) =~= Seq::new((base@.len() - m) as nat, |i: int| ".."@) + views(
                path@,
            ).subrange(m as int, j + 1));
        }
        j += 1;
    }
    r
}

} // verus!

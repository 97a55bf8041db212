//! File names and extensions of `/`-separated paths, as `std::path::Path`
//! reads them on Unix.
use vstd::prelude::*;
use crate::text::{last_index_of, occurs_at_exec};

verus! {

/// Index of the last `c` in `s`, `-1` when there is none.
pub open spec fn last_index(s: Seq<char>, c: char) -> int
    decreases s.len(),
{
    if s.len() == 0 {
        -1
    } else if s.last() == c {
        s.len() - 1
    } else {
        last_index(s.drop_last(), c)
    }
}

/// The last component of `p` (`Path::file_name`): the last `/`-separated
/// segment that is neither empty nor `.`; `None` when there is none or when
/// it is `..`.
pub open spec fn file_name(p: Seq<char>) -> Option<Seq<char>>
    decreases p.len(),
{
    let k = last_index(p, '/');
    let seg = p.skip(k + 1);
    if seg.len() == 0 || seg == seq!['.'] {
        if k < 0 {
            None
        } else {
            proof {
                lemma_last_index_bounds(p, '/');
            }
            file_name(p.take(k))
        }
    } else if seg == seq!['.', '.'] {
        None
    } else {
        Some(seg)
    }
}

/// The extension of a file name: what follows its last `.`, unless that dot
/// is the first character or there is none.
pub open spec fn name_extension(name: Seq<char>) -> Option<Seq<char>> {
    let d = last_index(name, '.');
    if d <= 0 {
        None
    } else {
        Some(name.skip(d + 1))
    }
}

/// The stem of a file name: the name without its extension and that dot.
pub open spec fn name_stem(name: Seq<char>) -> Seq<char> {
    let d = last_index(name, '.');
    if d <= 0 {
        name
    } else {
        name.take(d)
    }
}

/// `Path::extension`.
pub open spec fn path_extension(p: Seq<char>) -> Option<Seq<char>> {
    match file_name(p) {
        Some(n) => name_extension(n),
        None => None,
    }
}

/// `Path::file_stem`.
pub open spec fn path_stem(p: Seq<char>) -> Option<Seq<char>> {
    match file_name(p) {
        Some(n) => Some(name_stem(n)),
        None => None,
    }
}

pub proof fn lemma_last_index_bounds(s: Seq<char>, c: char)
    ensures
        -1 <= last_index(s, c) < s.len(),
        last_index(s, c) >= 0 ==> s[last_index(s, c)] == c,
        forall|j: int| last_index(s, c) < j < s.len() ==> s[j] != c,
    decreases s.len(),
{
    if s.len() > 0 && s.last() != c {
        lemma_last_index_bounds(s.drop_last(), c);
        let t = s.drop_last();
        assert forall|j: int| last_index(s, c) < j < s.len() implies s[j] != c by {
            if j < t.len() {
                assert(s[j] == t[j]);
            }
        }
    }
}

proof fn lemma_last_index_is(s: Seq<char>, c: char, k: int)
    requires
        -1 <= k < s.len(),
        k >= 0 ==> s[k] == c,
        forall|j: int| k < j < s.len() ==> s[j] != c,
    ensures
        last_index(s, c) == k,
    decreases s.len(),
{
    if s.len() > 0 && s.last() != c {
        let t = s.drop_last();
        assert forall|j: int| k < j < t.len() implies t[j] != c by {
            assert(t[j] == s[j]);
        }
        if k >= 0 {
            assert(t[k] == s[k]);
        }
        lemma_last_index_is(t, c, k);
    }
}

/// `last_index` on a slice.
pub fn last_index_exec(v: &[char], c: char) -> (r: Option<usize>)
    ensures
        match r {
            Some(i) => last_index(v@, c) == i && i < v@.len(),
            None => last_index(v@, c) == -1,
        },
{
    let r = last_index_of(v, c);
    proof {
        match r {
            Some(i) => lemma_last_index_is(v@, c, i as int),
            None => lemma_last_index_is(v@, c, -1),
        }
    }
    r
}

fn is_dot_segment(v: &[char], a: usize, b: usize, n: usize) -> (r: bool)
    requires
        a <= b <= v@.len(),
        n == 1 || n == 2,
    ensures
        r == (v@.subrange(a as int, b as int) == (if n == 1 {
            seq!['.']
        } else {
            seq!['.', '.']
        })),
{
    let ghost dots = if n == 1 {
        seq!['.']
    } else {
        seq!['.', '.']
    };
    if b - a != n {
        assert(v@.subrange(a as int, b as int).len() != dots.len());
        return false;
    }
    let r = if n == 1 {
        v[a] == '.'
    } else {
        v[a] == '.' && v[a + 1] == '.'
    };
    if r {
        assert(v@.subrange(a as int, b as int) =~= dots);
    } else {
        assert(v@.subrange(a as int, b as int)[0] != dots[0] || v@.subrange(a as int, b as int)[1]
            != dots[1]);
    }
    r
}

/// Bounds of the file name of `v`, if it has one.
pub fn file_name_range(v: &[char]) -> (r: Option<(usize, usize)>)
    ensures
        match r {
            Some((a, b)) => a <= b <= v@.len() && file_name(v@) == Some(
                v@.subrange(a as int, b as int),
            ),
            None => file_name(v@) is None,
        },
{
    let mut hi = v.len();
    assert(v@.take(hi as int) =~= v@);
    loop
        invariant
            hi <= v@.len(),
            file_name(v@.take(hi as int)) == file_name(v@),
        decreases hi,
    {
        let ghost p = v@.take(hi as int);
        let head = &v[0..hi];
        assert(head@ =~= p);
        let k = last_index_exec(head, '/');
        let start: usize = match k {
            Some(k) => k + 1,
            None => 0,
        };
        proof {
            lemma_last_index_bounds(p, '/');
            assert(p.skip(last_index(p, '/') + 1) =~= v@.subrange(start as int, hi as int));
        }
        if start == hi || is_dot_segment(v, start, hi, 1) {
            match k {
                None => {
                    return None;
                },
                Some(k) => {
                    assert(p.take(k as int) =~= v@.take(k as int));
                    hi = k;
                },
            }
        } else if is_dot_segment(v, start, hi, 2) {
            return None;
        } else {
            return Some((start, hi));
        }
    }
}

/// `Path::extension` of `v`, as a range of `v`.
pub fn extension_range(v: &[char]) -> (r: Option<(usize, usize)>)
    ensures
        match r {
            Some((a, b)) => a <= b <= v@.len() && path_extension(v@) == Some(
                v@.subrange(a as int, b as int),
            ),
            None => path_extension(v@) is None,
        },
{
    match file_name_range(v) {
        None => None,
        Some((a, b)) => {
            let name = &v[a..b];
            match last_index_exec(name, '.') {
                Some(d) => {
                    if d == 0 {
                        None
                    } else {
                        assert(name@.skip(d + 1) =~= v@.subrange(a + d + 1, b as int));
                        Some((a + d + 1, b))
                    }
                },
                None => None,
            }
        },
    }
}

/// `Path::file_stem` of `v`, as a range of `v`.
pub fn stem_range(v: &[char]) -> (r: Option<(usize, usize)>)
    ensures
        match r {
            Some((a, b)) => a <= b <= v@.len() && path_stem(v@) == Some(
                v@.subrange(a as int, b as int),
            ),
            None => path_stem(v@) is None,
        },
{
    match file_name_range(v) {
        None => None,
        Some((a, b)) => {
            let name = &v[a..b];
            match last_index_exec(name, '.') {
                Some(d) => {
                    if d == 0 {
                        Some((a, b))
                    } else {
                        assert(name@.take(d as int) =~= v@.subrange(a as int, a + d));
                        Some((a, a + d))
                    }
                },
                None => Some((a, b)),
            }
        },
    }
}

} // verus!

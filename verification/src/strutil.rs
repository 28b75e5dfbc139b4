//! Verified helpers over string slices: equality, prefix and suffix
//! tests, and prefix stripping, all specified over character sequences.

use vstd::prelude::*;
use vstd::string::StrSliceExecFns;

verus! {

/// Whether `p` is a prefix of `s`.
pub open spec fn spec_starts_with(s: Seq<char>, p: Seq<char>) -> bool {
    p.len() <= s.len() && s.subrange(0, p.len() as int) == p
}

/// Whether `p` is a suffix of `s`.
pub open spec fn spec_ends_with(s: Seq<char>, p: Seq<char>) -> bool {
    p.len() <= s.len() && s.subrange(s.len() - p.len(), s.len() as int) == p
}

/// Compares two string slices character by character.
pub fn str_eq(a: &str, b: &str) -> (r: bool)
    ensures
        r == (a@ == b@),
{
    let n = a.unicode_len();
    let m = b.unicode_len();
    if n != m {
        return false;
    }
    for i in 0..n
        invariant
            n == a@.len(),
            n == b@.len(),
            forall|j: int| 0 <= j < i ==> a@[j] == b@[j],
    {
        if a.get_char(i) != b.get_char(i) {
            return false;
        }
    }
    proof {
        assert(a@ =~= b@);
    }
    true
}

/// Whether `s` starts with the prefix `p`.
pub fn str_starts_with(s: &str, p: &str) -> (r: bool)
    ensures
        r == spec_starts_with(s@, p@),
{
    let n = s.unicode_len();
    let m = p.unicode_len();
    if m > n {
        return false;
    }
    for i in 0..m
        invariant
            n == s@.len(),
            m == p@.len(),
            m <= n,
            forall|j: int| 0 <= j < i ==> s@[j] == p@[j],
    {
        if s.get_char(i) != p.get_char(i) {
            proof {
                assert(s@.subrange(0, p@.len() as int)[i as int] != p@[i as int]);
            }
            return false;
        }
    }
    proof {
        assert(s@.subrange(0, p@.len() as int) =~= p@);
    }
    true
}

/// Whether `s` ends with the suffix `p`.
pub fn str_ends_with(s: &str, p: &str) -> (r: bool)
    ensures
        r == spec_ends_with(s@, p@),
{
    let n = s.unicode_len();
    let m = p.unicode_len();
    if m > n {
        return false;
    }
    let off = n - m;
    for i in 0..m
        invariant
            n == s@.len(),
            m == p@.len(),
            m <= n,
            off == n - m,
            forall|j: int| 0 <= j < i ==> s@[off + j] == p@[j],
    {
        if s.get_char(off + i) != p.get_char(i) {
            proof {
                assert(s@.subrange(s@.len() - p@.len(), s@.len() as int)[i as int]
                    != p@[i as int]);
            }
            return false;
        }
    }
    proof {
        assert(s@.subrange(s@.len() - p@.len(), s@.len() as int) =~= p@);
    }
    true
}

/// The remainder of `s` after the prefix `p`, when `s` starts with `p`.
pub fn str_strip_prefix<'a>(s: &'a str, p: &str) -> (r: Option<&'a str>)
    ensures
        r is Some <==> spec_starts_with(s@, p@),
        r matches Some(rest) ==> rest@ == s@.skip(p@.len() as int),
{
    if str_starts_with(s, p) {
        let rest = s.substring_char(p.unicode_len(), s.unicode_len());
        proof {
            assert(rest@ =~= s@.skip(p@.len() as int));
        }
        Some(rest)
    } else {
        None
    }
}

/// Whether the character `c` occurs in `s`.
pub fn str_contains_char(s: &str, c: char) -> (r: bool)
    ensures
        r == s@.contains(c),
{
    let n = s.unicode_len();
    for i in 0..n
        invariant
            n == s@.len(),
            forall|j: int| 0 <= j < i ==> s@[j] != c,
    {
        if s.get_char(i) == c {
            return true;
        }
    }
    proof {
        assert(!s@.contains(c));
    }
    false
}

/// Splits `s` at every occurrence of `sep`, with `cur` the piece collected
/// so far: the list of separated pieces, in order. Splitting keeps empty
/// pieces, so `n` separators always yield `n + 1` pieces.
pub open spec fn spec_split_acc(s: Seq<char>, sep: char, cur: Seq<char>) -> Seq<Seq<char>>
    decreases s.len(),
{
    if s.len() == 0 {
        seq![cur]
    } else if s.first() == sep {
        seq![cur] + spec_split_acc(s.drop_first(), sep, Seq::empty())
    } else {
        spec_split_acc(s.drop_first(), sep, cur.push(s.first()))
    }
}

/// The pieces of `s` between occurrences of `sep`.
pub open spec fn spec_split(s: Seq<char>, sep: char) -> Seq<Seq<char>> {
    spec_split_acc(s, sep, Seq::empty())
}

/// Splits `path` at slashes into owned components.
pub fn split_slashes(path: &str) -> (r: Vec<String>)
    ensures
        r@.map_values(|p: String| p@) == spec_split(path@, '/'),
{
    let n = path.unicode_len();
    let mut parts: Vec<String> = Vec::new();
    let mut start: usize = 0;
    proof {
        assert(path@.skip(0) =~= path@);
        assert(path@.subrange(0, 0) =~= Seq::<char>::empty());
        assert(parts@.map_values(|p: String| p@) =~= Seq::<Seq<char>>::empty());
    }
    for i in 0..n
        invariant
            n == path@.len(),
            start <= i,
            spec_split(path@, '/') =~= parts@.map_values(|p: String| p@) + spec_split_acc(
                path@.skip(i as int),
                '/',
                path@.subrange(start as int, i as int),
            ),
    {
        let ghost parts0 = parts@;
        let c = path.get_char(i);
        proof {
            let rest = path@.skip(i as int);
            assert(rest.first() == path@[i as int]);
            assert(rest.drop_first() =~= path@.skip(i as int + 1));
        }
        if c == '/' {
            let ghost start0 = start as int;
            let piece = path.substring_char(start, i).to_owned();
            proof {
                assert(piece@ =~= path@.subrange(start0, i as int));
            }
            parts.push(piece);
            start = i + 1;
            proof {
                assert(parts@.map_values(|p: String| p@) =~= parts0.map_values(
                    |p: String| p@,
                ).push(path@.subrange(start0, i as int)));
                assert(path@.subrange(start as int, i as int + 1) =~= Seq::<char>::empty());
            }
        } else {
            proof {
                assert(path@.subrange(start as int, i as int).push(path@[i as int])
                    =~= path@.subrange(start as int, i as int + 1));
            }
        }
    }
    let last = path.substring_char(start, n).to_owned();
    proof {
        assert(last@ =~= path@.subrange(start as int, n as int));
        assert(path@.skip(n as int) =~= Seq::<char>::empty());
    }
    let ghost parts0 = parts@;
    parts.push(last);
    proof {
        assert(parts@.map_values(|p: String| p@) =~= parts0.map_values(|p: String| p@).push(
            path@.subrange(start as int, n as int),
        ));
        assert(parts@.map_values(|p: String| p@) =~= spec_split(path@, '/'));
    }
    parts
}

} // verus!

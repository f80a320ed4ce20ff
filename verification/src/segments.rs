//! Splitting a path string into its `/`-separated segments.
//!
//! Both route templates and candidate request paths are compared segment by
//! segment, so the split is the common ground that the pattern specifications
//! build on.

use vstd::prelude::*;

verus! {

/// The sequences of characters of a sequence of strings.
pub open spec fn seg_views(ss: Seq<String>) -> Seq<Seq<char>> {
    ss.map_values(|s: String| s@)
}

/// Splitting a character sequence on a separator, in the sense of Rust's
/// `str::split`: the empty sequence yields one empty segment, and every
/// occurrence of the separator ends a segment, so `n` separators yield
/// `n + 1` segments.
pub open spec fn split_chars(s: Seq<char>, sep: char) -> Seq<Seq<char>>
    decreases s.len(),
{
    if s.len() == 0 {
        seq![Seq::<char>::empty()]
    } else if s.last() == sep {
        split_chars(s.drop_last(), sep).push(Seq::<char>::empty())
    } else {
        let parts = split_chars(s.drop_last(), sep);
        parts.update(parts.len() - 1, parts.last().push(s.last()))
    }
}

/// Whether two strings hold the same characters.
pub fn str_eq(a: &str, b: &str) -> (r: bool)
    ensures
        r == (a@ == b@),
{
    let n = a.unicode_len();
    let m = b.unicode_len();
    if n != m {
        return false;
    }
    let mut i: usize = 0;
    while i < n
        invariant
            i <= n,
            n == a@.len(),
            n == b@.len(),
            forall|j: int| 0 <= j < i ==> a@[j] == b@[j],
        decreases n - i,
    {
        if a.get_char(i) != b.get_char(i) {
            return false;
        }
        i = i + 1;
    }
    proof {
        assert(a@ =~= b@);
    }
    true
}

/// Splits a path string on `/`, keeping every piece verbatim, so that a
/// leading or trailing `/` contributes an empty segment.
pub fn split_path(s: &str) -> (r: Vec<String>)
    ensures
        seg_views(r@) == split_chars(s@, '/'),
{
    let n = s.unicode_len();
    let mut parts: Vec<String> = Vec::new();
    let mut start: usize = 0;
    let mut i: usize = 0;
    proof {
        assert(s@.subrange(0, 0) =~= Seq::<char>::empty());
        assert(s@.take(0) =~= Seq::<char>::empty());
        assert(seg_views(parts@).push(s@.subrange(0, 0)) =~= split_chars(s@.take(0), '/'));
    }
    while i < n
        invariant
            start <= i <= n,
            n == s@.len(),
            seg_views(parts@).push(s@.subrange(start as int, i as int)) == split_chars(
                s@.take(i as int),
                '/',
            ),
        decreases n - i,
    {
        let c = s.get_char(i);
        proof {
            assert(s@.take(i + 1).drop_last() =~= s@.take(i as int));
        }
        if c == '/' {
            let seg = s.substring_char(start, i);
            let ghost old_parts = parts@;
            parts.push(String::from_str(seg));
            proof {
                assert(seg_views(parts@) =~= seg_views(old_parts).push(seg@));
                assert(seg_views(parts@).push(Seq::<char>::empty()) =~= split_chars(
                    s@.take(i + 1),
                    '/',
                ));
                assert(s@.subrange(i + 1, i + 1) =~= Seq::<char>::empty());
            }
            start = i + 1;
        } else {
            proof {
                let p = seg_views(parts@);
                let mid = s@.subrange(start as int, i as int);
                assert(mid.push(s@[i as int]) =~= s@.subrange(start as int, i + 1));
                assert(split_chars(s@.take(i as int), '/').last() == mid);
                assert(p.push(mid).update(p.len() as int, mid.push(s@[i as int])) =~= p.push(
                    s@.subrange(start as int, i + 1),
                ));
            }
        }
        i = i + 1;
    }
    let last = s.substring_char(start, n);
    let ghost old_parts = parts@;
    parts.push(String::from_str(last));
    proof {
        assert(s@.take(n as int) =~= s@);
        assert(seg_views(parts@) =~= seg_views(old_parts).push(last@));
    }
    parts
}

} // verus!

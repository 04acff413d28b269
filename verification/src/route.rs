//! Route pattern matching.
//!
//! A pattern matches a path when they are equal, when the pattern ends
//! in `/*` and the path carries the prefix before the `*`, or when both
//! have the same number of `/`-separated segments and every pattern
//! segment either begins with `:` (a path parameter) or equals the
//! corresponding path segment.

use vstd::prelude::*;
use crate::strutil::{is_prefix_of, str_eq, str_starts_with};

verus! {

/// `/`-separated segments of `s`, with `cur` the partial segment read so
/// far. Splitting never yields an empty list: an empty string is one
/// empty segment.
pub open spec fn split_acc(s: Seq<char>, cur: Seq<char>) -> Seq<Seq<char>>
    decreases s.len(),
{
    if s.len() == 0 {
        seq![cur]
    } else if s[0] == '/' {
        seq![cur] + split_acc(s.skip(1), Seq::empty())
    } else {
        split_acc(s.skip(1), cur.push(s[0]))
    }
}

/// The `/`-separated segments of `s`.
pub open spec fn split_slash(s: Seq<char>) -> Seq<Seq<char>> {
    split_acc(s, Seq::empty())
}

/// A pattern segment accepts a path segment when it is a `:` parameter
/// or equal to it.
pub open spec fn segment_accepts(p: Seq<char>, t: Seq<char>) -> bool {
    (p.len() > 0 && p[0] == ':') || p == t
}

/// Segment lists of equal length whose segments all accept each other.
pub open spec fn segments_match(ps: Seq<Seq<char>>, ts: Seq<Seq<char>>) -> bool {
    ps.len() == ts.len() && forall|i: int| 0 <= i < ps.len()
        ==> segment_accepts(#[trigger] ps[i], ts[i])
}

/// The pattern ends in `/*`.
pub open spec fn is_wildcard_pattern(p: Seq<char>) -> bool {
    p.len() >= 2 && p[p.len() - 2] == '/' && p[p.len() - 1] == '*'
}

/// Whether `pattern` matches `path`: exact equality, a trailing
/// wildcard over a prefix, or segment-wise matching with `:` parameters.
pub open spec fn route_matches_spec(pattern: Seq<char>, path: Seq<char>) -> bool {
    if pattern == path {
        true
    } else if is_wildcard_pattern(pattern) {
        is_prefix_of(pattern.take(pattern.len() - 2), path)
    } else {
        segments_match(split_slash(pattern), split_slash(path))
    }
}

/// The `/`-separated segments of `s`, as owned strings.
pub fn split_path(s: &str) -> (r: Vec<String>)
    ensures
        r.deep_view() == split_slash(s@),
        r@.len() >= 1,
{
    let n = s.unicode_len();
    let mut segs: Vec<String> = Vec::new();
    let mut start: usize = 0;
    let mut i: usize = 0;
    proof {
        assert(s@.skip(0) =~= s@);
        assert(s@.subrange(0, 0) =~= Seq::<char>::empty());
        assert(segs.deep_view() + split_acc(s@, Seq::empty()) =~= split_acc(s@, Seq::empty()));
    }
    while i < n
        invariant
            start <= i <= n,
            n == s@.len(),
            split_slash(s@) =~= segs.deep_view() + split_acc(
                s@.skip(i as int),
                s@.subrange(start as int, i as int),
            ),
        decreases n - i,
    {
        let ghost pre = segs.deep_view();
        let c = s.get_char(i);
        proof {
            assert(s@.skip(i as int)[0] == s@[i as int]);
            assert(s@.skip(i as int).skip(1) =~= s@.skip(i as int + 1));
        }
        if c == '/' {
            let seg = s.substring_char(start, i).to_owned();
            segs.push(seg);
            proof {
                assert(segs.deep_view() =~= pre.push(s@.subrange(start as int, i as int)));
                assert(pre + (seq![s@.subrange(start as int, i as int)] + split_acc(
                    s@.skip(i as int + 1),
                    Seq::empty(),
                )) =~= segs.deep_view() + split_acc(s@.skip(i as int + 1), Seq::empty()));
            }
            start = i + 1;
            proof {
                assert(s@.subrange(start as int, i as int + 1) =~= Seq::<char>::empty());
            }
        } else {
            proof {
                assert(s@.subrange(start as int, i as int).push(s@[i as int]) =~= s@.subrange(
                    start as int,
                    i as int + 1,
                ));
            }
        }
        i += 1;
    }
    let ghost pre = segs.deep_view();
    let seg = s.substring_char(start, n).to_owned();
    segs.push(seg);
    proof {
        assert(s@.skip(n as int) =~= Seq::<char>::empty());
        assert(segs.deep_view() =~= pre.push(s@.subrange(start as int, n as int)));
        assert(pre + seq![s@.subrange(start as int, n as int)] =~= segs.deep_view());
    }
    segs
}

/// Whether `pattern` matches `path`.
pub fn route_matches(pattern: &str, path: &str) -> (r: bool)
    ensures
        r == route_matches_spec(pattern@, path@),
{
    if str_eq(pattern, path) {
        return true;
    }
    let plen = pattern.unicode_len();
    if plen >= 2 && pattern.get_char(plen - 2) == '/' && pattern.get_char(plen - 1) == '*' {
        let prefix = pattern.substring_char(0, plen - 2);
        proof {
            assert(prefix@ =~= pattern@.take(plen as int - 2));
        }
        return str_starts_with(path, prefix);
    }
    let psegs = split_path(pattern);
    let tsegs = split_path(path);
    if psegs.len() != tsegs.len() {
        return false;
    }
    let mut i: usize = 0;
    while i < psegs.len()
        invariant
            i <= psegs@.len(),
            psegs@.len() == tsegs@.len(),
            pattern@ != path@,
            !is_wildcard_pattern(pattern@),
            psegs.deep_view() == split_slash(pattern@),
            tsegs.deep_view() == split_slash(path@),
            forall|j: int| 0 <= j < i
                ==> segment_accepts(#[trigger] psegs.deep_view()[j], tsegs.deep_view()[j]),
        decreases psegs@.len() - i,
    {
        let p = &psegs[i];
        let is_param = if p.as_str().unicode_len() > 0 {
            p.as_str().get_char(0) == ':'
        } else {
            false
        };
        if !is_param {
            if !str_eq(p.as_str(), tsegs[i].as_str()) {
                assert(!segment_accepts(psegs.deep_view()[i as int], tsegs.deep_view()[i as int]));
                assert(!segments_match(psegs.deep_view(), tsegs.deep_view()));
                return false;
            }
        }
        assert(segment_accepts(psegs.deep_view()[i as int], tsegs.deep_view()[i as int]));
        i += 1;
    }
    true
}

} // verus!

//! Path splitting for the dispatcher: a requested path is a `/`-separated
//! string, and resolution walks its non-empty segments in order. A leading
//! separator only marks the root level, repeated separators collapse, and
//! `.` or `..` are ordinary segments with no special meaning.

use vstd::prelude::*;
use vstd::string::StrSliceExecFns;

verus! {

/// The segments contributed by `s[i..]`, while a token that began at
/// `start` (with `start <= i`) is still being read: the splitting rule,
/// written as a left-to-right scan over the characters.
pub open spec fn segments_from(s: Seq<char>, i: int, start: int) -> Seq<Seq<char>>
    decreases s.len() - i,
{
    if i >= s.len() {
        if 0 <= start < s.len() {
            seq![s.subrange(start, s.len() as int)]
        } else {
            seq![]
        }
    } else if s[i] == '/' {
        if 0 <= start < i {
            seq![s.subrange(start, i)] + segments_from(s, i + 1, i + 1)
        } else {
            segments_from(s, i + 1, i + 1)
        }
    } else {
        segments_from(s, i + 1, start)
    }
}

/// The ordered sequence of non-empty `/`-separated segments of a path.
pub open spec fn spec_segments(s: Seq<char>) -> Seq<Seq<char>> {
    segments_from(s, 0, 0)
}

/// The views of a vector of owned segment strings.
pub open spec fn seg_views(segs: Seq<String>) -> Seq<Seq<char>> {
    segs.map_values(|t: String| t@)
}

/// Split a path into its non-empty `/`-separated segments, in order.
pub fn split_path(path: &str) -> (segs: Vec<String>)
    ensures
        seg_views(segs@) == spec_segments(path@),
{
    let n = path.unicode_len();
    let mut segs: Vec<String> = Vec::new();
    let mut start: usize = 0;
    let mut i: usize = 0;
    while i < n
        invariant
            start <= i <= n,
            n == path@.len(),
            seg_views(segs@) + segments_from(path@, i as int, start as int) == spec_segments(
                path@,
            ),
        decreases n - i,
    {
        let c = path.get_char(i);
        if c == '/' {
            if start < i {
                let token = path.substring_char(start, i).to_owned();
                proof {
                    assert(seg_views(segs@.push(token)) =~= seg_views(segs@).push(token@));
                    assert(seg_views(segs@).push(token@) + segments_from(
                        path@,
                        i + 1,
                        i + 1,
                    ) =~= seg_views(segs@) + segments_from(path@, i as int, start as int));
                }
                segs.push(token);
            }
            start = i + 1;
        }
        i += 1;
    }
    if start < n {
        let token = path.substring_char(start, n).to_owned();
        proof {
            assert(seg_views(segs@.push(token)) =~= seg_views(segs@).push(token@));
            assert(seg_views(segs@).push(token@) =~= seg_views(segs@) + segments_from(
                path@,
                n as int,
                start as int,
            ));
        }
        segs.push(token);
    }
    proof {
        assert(seg_views(segs@) =~= spec_segments(path@));
    }
    segs
}

/// Scan part of the splitting rule: all segments contributed by `s[i..]`
/// are non-empty and hold no separator, provided the token read so far has
/// none.
proof fn lemma_segments_from_wf(s: Seq<char>, i: int, start: int)
    requires
        0 <= start <= i <= s.len(),
        forall|j: int| start <= j < i ==> s[j] != '/',
    ensures
        forall|k: int|
            #![trigger segments_from(s, i, start)[k]]
            0 <= k < segments_from(s, i, start).len() ==> segments_from(s, i, start)[k].len() > 0
                && (forall|m: int|
                0 <= m < segments_from(s, i, start)[k].len() ==> segments_from(s, i, start)[k][m]
                    != '/'),
    decreases s.len() - i,
{
    let segs = segments_from(s, i, start);
    if i >= s.len() {
        if start < s.len() {
            assert forall|k: int| 0 <= k < segs.len() implies segs[k].len() > 0 && (forall|m: int|
                0 <= m < segs[k].len() ==> segs[k][m] != '/') by {
                assert(segs[k] == s.subrange(start, s.len() as int));
                assert forall|m: int| 0 <= m < segs[k].len() implies segs[k][m] != '/' by {
                    assert(segs[k][m] == s[start + m]);
                }
            }
        }
    } else if s[i] == '/' {
        lemma_segments_from_wf(s, i + 1, i + 1);
        if start < i {
            let rest = segments_from(s, i + 1, i + 1);
            assert forall|k: int| 0 <= k < segs.len() implies segs[k].len() > 0 && (forall|m: int|
                0 <= m < segs[k].len() ==> segs[k][m] != '/') by {
                if k == 0 {
                    assert(segs[k] == s.subrange(start, i));
                    assert forall|m: int| 0 <= m < segs[k].len() implies segs[k][m] != '/' by {
                        assert(segs[k][m] == s[start + m]);
                    }
                } else {
                    assert(segs[k] == rest[k - 1]);
                }
            }
        }
    } else {
        lemma_segments_from_wf(s, i + 1, start);
        assert(segs == segments_from(s, i + 1, start));
    }
}

/// Every segment a path splits into is non-empty and holds no separator;
/// a routing key that holds a `/` can therefore never be matched by any
/// path.
pub proof fn lemma_segments_wf(s: Seq<char>)
    ensures
        forall|k: int|
            #![trigger spec_segments(s)[k]]
            0 <= k < spec_segments(s).len() ==> spec_segments(s)[k].len() > 0 && (forall|m: int|
                0 <= m < spec_segments(s)[k].len() ==> spec_segments(s)[k][m] != '/'),
{
    lemma_segments_from_wf(s, 0, 0);
}

/// Compare two string slices character by character.
pub fn str_eq(a: &str, b: &str) -> (r: bool)
    ensures
        r == (a@ == b@),
{
    let na = a.unicode_len();
    let nb = b.unicode_len();
    if na != nb {
        return false;
    }
    let mut i: usize = 0;
    while i < na
        invariant
            i <= na,
            na == a@.len(),
            na == b@.len(),
            forall|j: int| 0 <= j < i ==> a@[j] == b@[j],
        decreases na - i,
    {
        if a.get_char(i) != b.get_char(i) {
            return false;
        }
        i += 1;
    }
    proof {
        assert(a@ =~= b@);
    }
    true
}

} // verus!

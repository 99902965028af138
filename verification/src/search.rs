use vstd::prelude::*;

verus! {

// A byte-signature scanner in the Boyer-Moore-Horspool style: a 256-entry
// bad-character shift table lets the scan skip alignments that provably
// cannot start an occurrence, so the expected cost stays linear in the
// haystack for short needles.

/// `i` starts an occurrence of `needle` inside `hay`.
pub open spec fn is_match(hay: Seq<u8>, needle: Seq<u8>, i: int) -> bool {
    &&& 0 <= i
    &&& i + needle.len() <= hay.len()
    &&& hay.subrange(i, i + needle.len() as int) == needle
}

/// The scanner answers only non-degenerate queries: an empty needle, an
/// empty haystack and a needle longer than the haystack all yield "nothing".
pub open spec fn searchable(hay: Seq<u8>, needle: Seq<u8>) -> bool {
    0 < needle.len() <= hay.len()
}

/// The first occurrence at or after `from`, scanning upward.
pub open spec fn first_match_from(hay: Seq<u8>, needle: Seq<u8>, from: int) -> Option<int>
    decreases hay.len() + 1 - from,
{
    if from < 0 || from + needle.len() > hay.len() {
        None
    } else if is_match(hay, needle, from) {
        Some(from)
    } else {
        first_match_from(hay, needle, from + 1)
    }
}

/// The last occurrence at or before `from`, scanning downward.
pub open spec fn last_match_before(hay: Seq<u8>, needle: Seq<u8>, from: int) -> Option<int>
    decreases from + 1,
{
    if from < 0 {
        None
    } else if from + needle.len() <= hay.len() && is_match(hay, needle, from) {
        Some(from)
    } else {
        last_match_before(hay, needle, from - 1)
    }
}

/// All non-overlapping occurrences at or after `from`, greedily from the
/// left: after a hit the scan resumes one full needle length further.
pub open spec fn matches_from(hay: Seq<u8>, needle: Seq<u8>, from: int) -> Seq<int>
    decreases hay.len() + 1 - from,
        when needle.len() > 0
{
    if from < 0 || from + needle.len() > hay.len() {
        Seq::empty()
    } else if is_match(hay, needle, from) {
        seq![from] + matches_from(hay, needle, from + needle.len() as int)
    } else {
        matches_from(hay, needle, from + 1)
    }
}

/// What `search` returns.
pub open spec fn spec_search(hay: Seq<u8>, needle: Seq<u8>) -> Option<int> {
    if searchable(hay, needle) {
        first_match_from(hay, needle, 0)
    } else {
        None
    }
}

/// What `rsearch` returns.
pub open spec fn spec_rsearch(hay: Seq<u8>, needle: Seq<u8>) -> Option<int> {
    if searchable(hay, needle) {
        last_match_before(hay, needle, hay.len() - needle.len())
    } else {
        None
    }
}

/// What `search_all` returns.
pub open spec fn spec_search_all(hay: Seq<u8>, needle: Seq<u8>) -> Seq<int> {
    if searchable(hay, needle) {
        matches_from(hay, needle, 0)
    } else {
        Seq::empty()
    }
}

// ------------------------------------------------------------------
// Characterizations of the three scan orders.

/// A `Some` from `first_match_from` is the least match at or after `from`;
/// a `None` means there is none.
pub proof fn lemma_first_match_from(hay: Seq<u8>, needle: Seq<u8>, from: int)
    requires
        0 <= from,
    ensures
        first_match_from(hay, needle, from) matches Some(i) ==> {
            &&& from <= i
            &&& is_match(hay, needle, i)
            &&& forall|j: int| from <= j < i ==> !is_match(hay, needle, j)
        },
        first_match_from(hay, needle, from) is None ==> forall|j: int|
            from <= j ==> !is_match(hay, needle, j),
    decreases hay.len() + 1 - from,
{
    if from + needle.len() > hay.len() {
        assert forall|j: int| from <= j implies !is_match(hay, needle, j) by {
            if is_match(hay, needle, j) {
                assert(j + needle.len() <= hay.len());
            }
        }
    } else if is_match(hay, needle, from) {
    } else {
        lemma_first_match_from(hay, needle, from + 1);
    }
}

/// A `Some` from `last_match_before` is the greatest match at or before
/// `from`; a `None` means there is none.
pub proof fn lemma_last_match_before(hay: Seq<u8>, needle: Seq<u8>, from: int)
    ensures
        last_match_before(hay, needle, from) matches Some(i) ==> {
            &&& i <= from
            &&& is_match(hay, needle, i)
            &&& forall|j: int| i < j <= from ==> !(j + needle.len() <= hay.len()
                && is_match(hay, needle, j))
        },
        last_match_before(hay, needle, from) is None ==> forall|j: int|
            j <= from ==> !(j + needle.len() <= hay.len() && is_match(hay, needle, j)),
    decreases from + 1,
{
    if from >= 0 && !(from + needle.len() <= hay.len() && is_match(hay, needle, from)) {
        lemma_last_match_before(hay, needle, from - 1);
    }
}

/// If no match starts in `[a, b)` then scanning upward from `a` or from `b`
/// finds the same first occurrence.
pub proof fn lemma_first_match_skip(hay: Seq<u8>, needle: Seq<u8>, a: int, b: int)
    requires
        0 <= a <= b,
        forall|j: int| a <= j < b ==> !is_match(hay, needle, j),
    ensures
        first_match_from(hay, needle, a) == first_match_from(hay, needle, b),
    decreases b - a,
{
    if a < b {
        if a + needle.len() > hay.len() {
            lemma_first_match_from(hay, needle, a);
            lemma_first_match_from(hay, needle, b);
            if let Some(i) = first_match_from(hay, needle, b) {
                assert(is_match(hay, needle, i));
                assert(i + needle.len() <= hay.len());
                assert(a <= b <= i);
            }
        } else {
            lemma_first_match_skip(hay, needle, a + 1, b);
        }
    }
}

/// If no match starts in `(b, a]` then scanning downward from `a` or from `b`
/// finds the same last occurrence.
pub proof fn lemma_last_match_skip(hay: Seq<u8>, needle: Seq<u8>, a: int, b: int)
    requires
        b <= a,
        forall|j: int| b < j <= a ==> !is_match(hay, needle, j),
    ensures
        last_match_before(hay, needle, a) == last_match_before(hay, needle, b),
    decreases a - b,
{
    if b < a {
        lemma_last_match_skip(hay, needle, a - 1, b);
    }
}

/// If no match starts in `[a, b)` then the greedy scan from `a` and from `b`
/// collect the same occurrences.
pub proof fn lemma_matches_skip(hay: Seq<u8>, needle: Seq<u8>, a: int, b: int)
    requires
        needle.len() > 0,
        0 <= a <= b,
        forall|j: int| a <= j < b ==> !is_match(hay, needle, j),
    ensures
        matches_from(hay, needle, a) == matches_from(hay, needle, b),
    decreases b - a,
{
    if a < b {
        if a + needle.len() > hay.len() {
            assert forall|j: int| b <= j implies !is_match(hay, needle, j) by {
                if is_match(hay, needle, j) {
                    assert(j + needle.len() <= hay.len());
                    assert(j < a);
                }
            }
            lemma_matches_all_excluded(hay, needle, b);
        } else {
            lemma_matches_skip(hay, needle, a + 1, b);
        }
    }
}

/// When the needle no longer fits, or every alignment from `from` on is
/// excluded, the greedy scan collects nothing.
proof fn lemma_matches_all_excluded(hay: Seq<u8>, needle: Seq<u8>, from: int)
    requires
        needle.len() > 0,
        0 <= from,
        forall|j: int| from <= j ==> !is_match(hay, needle, j),
    ensures
        matches_from(hay, needle, from) == Seq::<int>::empty(),
    decreases hay.len() + 1 - from,
{
    if !(from + needle.len() > hay.len()) {
        lemma_matches_all_excluded(hay, needle, from + 1);
    }
}

/// The indices the greedy scan collects are matches, strictly ascending with
/// gaps of at least the needle length, and they cover every match at or
/// after `from`: each match index lands inside one collected occurrence.
#[verifier::rlimit(100)]
pub proof fn lemma_matches_from_properties(hay: Seq<u8>, needle: Seq<u8>, from: int)
    requires
        needle.len() > 0,
        0 <= from,
    ensures
        ({
            let r = matches_from(hay, needle, from);
            &&& forall|k: int| 0 <= k < r.len() ==> is_match(hay, needle, #[trigger] r[k])
            &&& forall|k: int| 0 <= k < r.len() ==> from <= #[trigger] r[k]
            &&& forall|k: int| 0 <= k < r.len() - 1 ==> #[trigger] r[k] + needle.len() <= r[k + 1]
            &&& forall|j: int| from <= j && is_match(hay, needle, j) ==> exists|k: int|
                0 <= k < r.len() && #[trigger] r[k] <= j < r[k] + needle.len()
        }),
    decreases hay.len() + 1 - from,
{
    let r = matches_from(hay, needle, from);
    if from + needle.len() > hay.len() {
        assert forall|j: int| from <= j && is_match(hay, needle, j) implies exists|k: int|
            0 <= k < r.len() && #[trigger] r[k] <= j < r[k] + needle.len() by {
            assert(j + needle.len() <= hay.len());
        }
    } else if is_match(hay, needle, from) {
        let nl = needle.len() as int;
        let rest = matches_from(hay, needle, from + nl);
        lemma_matches_from_properties(hay, needle, from + nl);
        assert(r == seq![from] + rest);
        assert(r.len() == 1 + rest.len());
        assert(r[0] == from);
        assert forall|k: int|
            0 <= k < r.len() implies is_match(hay, needle, #[trigger] r[k]) && from <= r[k] by {
            if k > 0 {
                assert(r[k] == rest[k - 1]);
            }
        }
        assert forall|k: int| 0 <= k < r.len() - 1 implies #[trigger] r[k] + needle.len() <= r[k
            + 1] by {
            if k == 0 {
                assert(r[1] == rest[0]);
                assert(from + needle.len() <= rest[0]);
            } else {
                assert(r[k] == rest[k - 1]);
                assert(r[k + 1] == rest[k]);
            }
        }
        assert forall|j: int| from <= j && is_match(hay, needle, j) implies exists|k: int|
            0 <= k < r.len() && #[trigger] r[k] <= j < r[k] + needle.len() by {
            if j < from + nl {
                assert(r[0] <= j < r[0] + needle.len());
            } else {
                assert(from + nl <= j && is_match(hay, needle, j));
                assert(exists|k: int|
                    0 <= k < rest.len() && #[trigger] rest[k] <= j < rest[k] + needle.len());
                let k0 = choose|k: int|
                    0 <= k < rest.len() && #[trigger] rest[k] <= j < rest[k] + needle.len();
                assert(r[k0 + 1] == rest[k0]);
                assert(0 <= k0 + 1 < r.len() && r[k0 + 1] <= j < r[k0 + 1] + needle.len());
            }
        }
    } else {
        lemma_matches_from_properties(hay, needle, from + 1);
        assert forall|j: int| from <= j && is_match(hay, needle, j) implies exists|k: int|
            0 <= k < r.len() && #[trigger] r[k] <= j < r[k] + needle.len() by {
            assert(j != from);
        }
    }
}

// ------------------------------------------------------------------
// The shift tables.
//
// Forward scan: the byte under the window's end decides the shift. For a
// shift `s = t[b]`, no needle position in `[m - s, m - 1)` holds `b`, so no
// skipped alignment can place `b` correctly.
// Reverse scan: the byte under the window's start decides; no needle
// position in `[1, s)` holds `b`.

spec fn fwd_table_ok(needle: Seq<u8>, t: Seq<usize>) -> bool {
    &&& t.len() == 256
    &&& forall|b: int| 0 <= b < 256 ==> 1 <= #[trigger] t[b] <= needle.len()
    &&& forall|b: int, p: int|
        #![trigger t[b], needle[p]]
        0 <= b < 256 && needle.len() - t[b] <= p < needle.len() - 1 ==> needle[p] != b
}

spec fn rev_table_ok(needle: Seq<u8>, t: Seq<usize>) -> bool {
    &&& t.len() == 256
    &&& forall|b: int| 0 <= b < 256 ==> 1 <= #[trigger] t[b] <= needle.len()
    &&& forall|b: int, p: int|
        #![trigger t[b], needle[p]]
        0 <= b < 256 && 1 <= p < t[b] ==> needle[p] != b
}

fn build_fwd_table(needle: &[u8]) -> (t: Vec<usize>)
    requires
        needle@.len() >= 1,
    ensures
        fwd_table_ok(needle@, t@),
{
    let m = needle.len();
    let mut t: Vec<usize> = Vec::new();
    let mut z: usize = 0;
    while z < 256
        invariant
            t@.len() == z,
            z <= 256,
            m == needle@.len(),
            forall|b: int| 0 <= b < z ==> #[trigger] t@[b] == m,
        decreases 256 - z,
    {
        t.push(m);
        z += 1;
    }
    let mut i: usize = 0;
    while i + 1 < m
        invariant
            t@.len() == 256,
            i <= m - 1,
            m == needle@.len(),
            m >= 1,
            forall|b: int| 0 <= b < 256 ==> 1 <= #[trigger] t@[b] <= m,
            forall|b: int, p: int|
                #![trigger t@[b], needle@[p]]
                0 <= b < 256 && m - t@[b] <= p < m - 1 && p < i ==> needle@[p] != b,
        decreases m - i,
    {
        let b = needle[i] as usize;
        t.set(b, m - 1 - i);
        i += 1;
    }
    proof {
        assert forall|b: int, p: int|
            #![trigger t@[b], needle@[p]]
            0 <= b < 256 && needle@.len() - t@[b] <= p < needle@.len() - 1 implies needle@[p]
            != b by {
            assert(p < i);
        }
    }
    t
}

fn build_rev_table(needle: &[u8]) -> (t: Vec<usize>)
    requires
        needle@.len() >= 1,
    ensures
        rev_table_ok(needle@, t@),
{
    let m = needle.len();
    let mut t: Vec<usize> = Vec::new();
    let mut z: usize = 0;
    while z < 256
        invariant
            t@.len() == z,
            z <= 256,
            m == needle@.len(),
            forall|b: int| 0 <= b < z ==> #[trigger] t@[b] == m,
        decreases 256 - z,
    {
        t.push(m);
        z += 1;
    }
    // walk down so that the smallest positive occurrence of a byte wins
    let mut i: usize = m;
    while i > 1
        invariant
            t@.len() == 256,
            1 <= i <= m || (m == 1 && i == 1),
            m == needle@.len(),
            m >= 1,
            forall|b: int| 0 <= b < 256 ==> 1 <= #[trigger] t@[b] <= m,
            forall|b: int, p: int|
                #![trigger t@[b], needle@[p]]
                0 <= b < 256 && i <= p < t@[b] ==> needle@[p] != b,
        decreases i,
    {
        i -= 1;
        let b = needle[i] as usize;
        t.set(b, i);
    }
    t
}

/// The two windows `hay[a..a+len(needle)]` and `needle` compared byte by
/// byte.
fn window_eq(hay: &[u8], needle: &[u8], a: usize) -> (r: bool)
    requires
        needle@.len() >= 1,
        a + needle@.len() <= hay@.len(),
    ensures
        r == is_match(hay@, needle@, a as int),
{
    let m = needle.len();
    let hl = hay.len();
    let mut k: usize = 0;
    while k < m
        invariant
            k <= m,
            m == needle@.len(),
            hl == hay@.len(),
            a + m <= hl,
            forall|q: int| 0 <= q < k ==> hay@[a + q] == needle@[q],
        decreases m - k,
    {
        if hay[a + k] != needle[k] {
            proof {
                if is_match(hay@, needle@, a as int) {
                    assert(hay@.subrange(a as int, a + needle@.len() as int)[k as int]
                        == needle@[k as int]);
                }
            }
            return false;
        }
        k += 1;
    }
    proof {
        assert(hay@.subrange(a as int, a + needle@.len() as int) =~= needle@);
    }
    true
}

/// The first occurrence of `needle` in `hay`, or nothing when the query is
/// degenerate or there is none.
pub fn search(hay: &[u8], needle: &[u8]) -> (r: Option<usize>)
    ensures
        r matches Some(i) ==> spec_search(hay@, needle@) == Some(i as int),
        r is None ==> spec_search(hay@, needle@) is None,
        r matches Some(i) ==> is_match(hay@, needle@, i as int) && forall|j: int|
            0 <= j < i ==> !is_match(hay@, needle@, j),
        r is None && searchable(hay@, needle@) ==> forall|j: int| !is_match(hay@, needle@, j),
{
    let m = needle.len();
    let hl = hay.len();
    if m == 0 || hl == 0 || m > hl {
        return None;
    }
    let t = build_fwd_table(needle);
    let mut a: usize = 0;
    while a <= hl - m
        invariant
            m == needle@.len(),
            hl == hay@.len(),
            0 < m <= hl,
            a <= hl,
            fwd_table_ok(needle@, t@),
            first_match_from(hay@, needle@, 0) == first_match_from(hay@, needle@, a as int),
        decreases hl - a,
    {
        if window_eq(hay, needle, a) {
            proof {
                assert(first_match_from(hay@, needle@, a as int) == Some(a as int));
                lemma_first_match_from(hay@, needle@, 0);
            }
            return Some(a);
        }
        let s = t[hay[a + m - 1] as usize];
        proof {
            let b = hay@[a + m - 1] as int;
            assert forall|d: int| a < d < a + s implies !is_match(hay@, needle@, d) by {
                if is_match(hay@, needle@, d) {
                    let p = a + m - 1 - d;
                    assert(m as int - t@[b] <= p < m - 1);
                    assert(hay@.subrange(d, d + needle@.len() as int)[p] == needle@[p]);
                    assert(hay@[d + p] == needle@[p]);
                    assert(needle@[p] != b);
                }
            }
            lemma_first_match_skip(hay@, needle@, a as int, a + s);
        }
        a += s;
    }
    proof {
        lemma_first_match_from(hay@, needle@, 0);
    }
    None
}

/// The last occurrence of `needle` in `hay`, or nothing when the query is
/// degenerate or there is none.
pub fn rsearch(hay: &[u8], needle: &[u8]) -> (r: Option<usize>)
    ensures
        r matches Some(i) ==> spec_rsearch(hay@, needle@) == Some(i as int),
        r is None ==> spec_rsearch(hay@, needle@) is None,
        r matches Some(i) ==> is_match(hay@, needle@, i as int) && forall|j: int|
            i < j ==> !is_match(hay@, needle@, j),
        r is None && searchable(hay@, needle@) ==> forall|j: int| !is_match(hay@, needle@, j),
{
    let m = needle.len();
    let hl = hay.len();
    if m == 0 || hl == 0 || m > hl {
        return None;
    }
    let t = build_rev_table(needle);
    let top = hl - m;
    let mut a: usize = top;
    loop
        invariant
            m == needle@.len(),
            hl == hay@.len(),
            0 < m <= hl,
            top == hl - m,
            a <= top,
            rev_table_ok(needle@, t@),
            last_match_before(hay@, needle@, top as int) == last_match_before(
                hay@,
                needle@,
                a as int,
            ),
        decreases a + 1,
    {
        if window_eq(hay, needle, a) {
            proof {
                assert(last_match_before(hay@, needle@, a as int) == Some(a as int));
                lemma_last_match_before(hay@, needle@, top as int);
                assert forall|j: int| a < j implies !is_match(hay@, needle@, j) by {
                    if is_match(hay@, needle@, j) {
                        assert(j + needle@.len() <= hay@.len());
                        assert(j <= top);
                    }
                }
            }
            return Some(a);
        }
        let s = t[hay[a] as usize];
        proof {
            let b = hay@[a as int] as int;
            assert forall|d: int| a - s < d < a implies !is_match(hay@, needle@, d) by {
                if is_match(hay@, needle@, d) {
                    let p = a - d;
                    assert(1 <= p < t@[b]);
                    assert(hay@.subrange(d, d + needle@.len() as int)[p] == needle@[p]);
                    assert(hay@[d + p] == needle@[p]);
                    assert(needle@[p] != b);
                }
            }
            lemma_last_match_skip(hay@, needle@, a as int, a - s);
        }
        if a < s {
            proof {
                lemma_last_match_before(hay@, needle@, a as int - s);
                assert(last_match_before(hay@, needle@, top as int) is None);
                assert forall|j: int| !is_match(hay@, needle@, j) by {
                    if is_match(hay@, needle@, j) {
                        lemma_last_match_before(hay@, needle@, top as int);
                        assert(j + needle@.len() <= hay@.len());
                        assert(0 <= j <= top);
                    }
                }
            }
            return None;
        }
        a -= s;
    }
}

/// Every non-overlapping occurrence of `needle` in `hay`, in ascending
/// order, greedily from the left.
pub fn search_all(hay: &[u8], needle: &[u8]) -> (r: Vec<usize>)
    ensures
        r@.map_values(|x: usize| x as int) == spec_search_all(hay@, needle@),
        forall|k: int| 0 <= k < r@.len() ==> is_match(hay@, needle@, #[trigger] r@[k] as int),
        forall|k: int|
            0 <= k < r@.len() - 1 ==> #[trigger] r@[k] + needle@.len() <= r@[k + 1],
        forall|j: int|
            searchable(hay@, needle@) && is_match(hay@, needle@, j) ==> exists|k: int|
                0 <= k < r@.len() && #[trigger] r@[k] <= j < r@[k] + needle@.len(),
{
    let m = needle.len();
    let hl = hay.len();
    let mut out: Vec<usize> = Vec::new();
    if m == 0 || hl == 0 || m > hl {
        proof {
            assert(out@.map_values(|x: usize| x as int) =~= Seq::<int>::empty());
        }
        return out;
    }
    let t = build_fwd_table(needle);
    let mut a: usize = 0;
    while a <= hl - m
        invariant
            m == needle@.len(),
            hl == hay@.len(),
            0 < m <= hl,
            a <= hl,
            fwd_table_ok(needle@, t@),
            matches_from(hay@, needle@, 0) == out@.map_values(|x: usize| x as int)
                + matches_from(hay@, needle@, a as int),
        decreases hl - a,
    {
        if window_eq(hay, needle, a) {
            proof {
                assert(matches_from(hay@, needle@, a as int) == seq![a as int] + matches_from(
                    hay@,
                    needle@,
                    a + m,
                ));
                assert(out@.push(a).map_values(|x: usize| x as int) =~= out@.map_values(
                    |x: usize| x as int,
                ).push(a as int));
                assert(out@.map_values(|x: usize| x as int) + (seq![a as int] + matches_from(
                    hay@,
                    needle@,
                    a + m,
                )) =~= out@.map_values(|x: usize| x as int).push(a as int) + matches_from(
                    hay@,
                    needle@,
                    a + m,
                ));
            }
            out.push(a);
            a += m;
        } else {
            let s = t[hay[a + m - 1] as usize];
            proof {
                let b = hay@[a + m - 1] as int;
                assert forall|d: int| a <= d < a + s implies !is_match(hay@, needle@, d) by {
                    if d > a && is_match(hay@, needle@, d) {
                        let p = a + m - 1 - d;
                        assert(m as int - t@[b] <= p < m - 1);
                        assert(hay@.subrange(d, d + needle@.len() as int)[p] == needle@[p]);
                        assert(hay@[d + p] == needle@[p]);
                        assert(needle@[p] != b);
                    }
                }
                lemma_matches_skip(hay@, needle@, a as int, a + s);
            }
            a += s;
        }
    }
    proof {
        let rv = out@.map_values(|x: usize| x as int);
        assert(matches_from(hay@, needle@, a as int) =~= Seq::<int>::empty());
        assert(rv + Seq::<int>::empty() =~= rv);
        assert(rv == spec_search_all(hay@, needle@));
        lemma_matches_from_properties(hay@, needle@, 0);
        assert forall|k: int|
            0 <= k < out@.len() implies is_match(hay@, needle@, #[trigger] out@[k] as int) by {
            assert(rv[k] == out@[k] as int);
        }
        assert forall|k: int|
            0 <= k < out@.len() - 1 implies #[trigger] out@[k] + needle@.len() <= out@[k + 1] by {
            assert(rv[k] == out@[k] as int);
            assert(rv[k + 1] == out@[k + 1] as int);
        }
        assert forall|j: int|
            searchable(hay@, needle@) && is_match(hay@, needle@, j) implies exists|k: int|
            0 <= k < out@.len() && #[trigger] out@[k] <= j < out@[k] + needle@.len() by {
            assert(0 <= j);
            let k0 = choose|k: int| 0 <= k < rv.len() && #[trigger] rv[k] <= j < rv[k]
                + needle@.len();
            assert(out@[k0] <= j < out@[k0] + needle@.len());
        }
    }
    out
}

// ------------------------------------------------------------------
// The method-style interface over owned byte buffers.

/// Fast substring search over a byte buffer.
pub trait FastSearch {
    /// The bytes that are scanned.
    spec fn space(&self) -> Seq<u8>;

    /// The first occurrence of `pattern`, or nothing.
    fn search(&self, pattern: &Vec<u8>) -> (r: Option<usize>)
        ensures
            r matches Some(i) ==> spec_search(self.space(), pattern@) == Some(i as int),
            r is None ==> spec_search(self.space(), pattern@) is None,
    ;

    /// The last occurrence of `pattern`, or nothing.
    fn rsearch(&self, pattern: &Vec<u8>) -> (r: Option<usize>)
        ensures
            r matches Some(i) ==> spec_rsearch(self.space(), pattern@) == Some(i as int),
            r is None ==> spec_rsearch(self.space(), pattern@) is None,
    ;

    /// Every non-overlapping occurrence of `pattern`, ascending.
    fn search_all(&self, pattern: &Vec<u8>) -> (r: Vec<usize>)
        ensures
            r@.map_values(|x: usize| x as int) == spec_search_all(self.space(), pattern@),
    ;
}

impl FastSearch for Vec<u8> {
    open spec fn space(&self) -> Seq<u8> {
        self@
    }

    fn search(&self, pattern: &Vec<u8>) -> (r: Option<usize>) {
        search(self.as_slice(), pattern.as_slice())
    }

    fn rsearch(&self, pattern: &Vec<u8>) -> (r: Option<usize>) {
        rsearch(self.as_slice(), pattern.as_slice())
    }

    fn search_all(&self, pattern: &Vec<u8>) -> (r: Vec<usize>) {
        search_all(self.as_slice(), pattern.as_slice())
    }
}

} // verus!

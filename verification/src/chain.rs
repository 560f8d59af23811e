//! Resolving which update bundles form a valid, contiguous version chain
//! from the client's current version.
//!
//! Candidates are sorted ascending by version, then scanned: the chain
//! starts at the first candidate that directly succeeds the client's
//! version and must continue gap-free to the last candidate; a break after
//! the start is a hard failure, never a silent skip.

use vstd::prelude::*;
use vstd::relations::{sorted_by, total_ordering};
use vstd::seq_lib::lemma_multiset_commutative;
use vstd::seq_lib::lemma_sorted_unique;

use crate::binary_version::{is_direct_successor, version_le, BinaryVersion};
use crate::error::Error;
use crate::utils::verify_hdiff_version;

verus! {

/// The version order as a relation value, for sorting.
pub open spec fn version_leq() -> spec_fn(BinaryVersion, BinaryVersion) -> bool {
    |a: BinaryVersion, b: BinaryVersion| version_le(a, b)
}

pub proof fn lemma_version_leq_total()
    ensures
        total_ordering(version_leq()),
{
    let leq = version_leq();
    assert forall|x: BinaryVersion| #[trigger] leq(x, x) by {}
    assert forall|x: BinaryVersion, y: BinaryVersion| #[trigger] leq(x, y) && #[trigger] leq(
        y,
        x,
    ) implies x == y by {}
    assert forall|x: BinaryVersion, y: BinaryVersion, z: BinaryVersion|
        #[trigger] leq(x, y) && #[trigger] leq(y, z) implies leq(x, z) by {}
    assert forall|x: BinaryVersion, y: BinaryVersion| #![trigger leq(x, y)] true implies leq(x, y)
        || leq(y, x) by {}
}

/// The first index at or after `i` whose version directly succeeds `client`.
pub open spec fn spec_find_start(client: BinaryVersion, s: Seq<BinaryVersion>, i: int) -> Option<
    int,
>
    decreases s.len() - i,
{
    if i < 0 || i >= s.len() {
        None
    } else if is_direct_successor(client, s[i]) {
        Some(i)
    } else {
        spec_find_start(client, s, i + 1)
    }
}

/// The first index at or after `j` whose version does not directly succeed
/// its predecessor's.
pub open spec fn spec_find_break(s: Seq<BinaryVersion>, j: int) -> Option<int>
    decreases s.len() - j,
{
    if j < 1 || j >= s.len() {
        None
    } else if !is_direct_successor(s[j - 1], s[j]) {
        Some(j)
    } else {
        spec_find_break(s, j + 1)
    }
}

/// What chain resolution yields on an already-sorted candidate list: the
/// tail of the list from the first direct successor of the client's version
/// onward, provided it is gap-free; otherwise the pair of versions between
/// which continuity failed (the client's own version against the highest
/// candidate when no start exists at all).
pub open spec fn spec_resolve_sorted(client: BinaryVersion, s: Seq<BinaryVersion>) -> Result<
    Seq<BinaryVersion>,
    (BinaryVersion, BinaryVersion),
> {
    match spec_find_start(client, s, 0) {
        None => {
            if s.len() == 0 {
                Err((client, client))
            } else {
                Err((client, s.last()))
            }
        },
        Some(i0) => match spec_find_break(s, i0 + 1) {
            None => Ok(s.subrange(i0, s.len() as int)),
            Some(j) => Err((s[j - 1], s[j])),
        },
    }
}

/// Chain resolution on an unordered candidate set: sort ascending, then
/// scan.
pub open spec fn spec_resolve(client: BinaryVersion, candidates: Seq<BinaryVersion>) -> Result<
    Seq<BinaryVersion>,
    (BinaryVersion, BinaryVersion),
> {
    spec_resolve_sorted(client, candidates.sort_by(version_leq()))
}

fn find_start_exec(client: &BinaryVersion, s: &Vec<BinaryVersion>) -> (r: Option<usize>)
    ensures
        (match r {
            Some(i) => Some(i as int),
            None => None::<int>,
        }) == spec_find_start(*client, s@, 0),
        r matches Some(i) ==> i < s@.len(),
{
    let mut i: usize = 0;
    while i < s.len()
        invariant
            i <= s@.len(),
            spec_find_start(*client, s@, 0) == spec_find_start(*client, s@, i as int),
        decreases s@.len() - i,
    {
        if verify_hdiff_version(client, &s[i]) {
            return Some(i);
        }
        i = i + 1;
    }
    None
}

fn find_break_exec(s: &Vec<BinaryVersion>, from: usize) -> (r: Option<usize>)
    requires
        from >= 1,
    ensures
        (match r {
            Some(j) => Some(j as int),
            None => None::<int>,
        }) == spec_find_break(s@, from as int),
        r matches Some(j) ==> from <= j < s@.len(),
{
    let mut j = from;
    while j < s.len()
        invariant
            1 <= from <= j,
            spec_find_break(s@, from as int) == spec_find_break(s@, j as int),
        decreases s@.len() - j,
    {
        if !verify_hdiff_version(&s[j - 1], &s[j]) {
            return Some(j);
        }
        j = j + 1;
    }
    None
}

/// Scans an already-sorted candidate list for the chain to apply, exactly
/// as `spec_resolve_sorted` describes: `Ok` with the contiguous tail, or
/// the `InvalidHdiffVersion` error citing the two versions between which
/// continuity failed.
pub fn resolve_sorted(client: &BinaryVersion, sorted: &Vec<BinaryVersion>) -> (r: Result<
    Vec<BinaryVersion>,
    Error,
>)
    ensures
        match r {
            Ok(chain) => spec_resolve_sorted(*client, sorted@) == Ok::<
                Seq<BinaryVersion>,
                (BinaryVersion, BinaryVersion),
            >(chain@),
            Err(e) => spec_resolve_sorted(*client, sorted@) matches Err(p) && e
                == Error::InvalidHdiffVersion(p.0, p.1),
        },
{
    let n = sorted.len();
    match find_start_exec(client, sorted) {
        None => {
            if n == 0 {
                Err(Error::InvalidHdiffVersion(*client, *client))
            } else {
                Err(Error::InvalidHdiffVersion(*client, sorted[n - 1]))
            }
        },
        Some(i0) => {
            assert(i0 < sorted@.len());
            match find_break_exec(sorted, i0 + 1) {
                None => {
                    let mut chain: Vec<BinaryVersion> = Vec::new();
                    let mut k = i0;
                    while k < sorted.len()
                        invariant
                            i0 <= k <= sorted@.len(),
                            chain@ == sorted@.subrange(i0 as int, k as int),
                        decreases sorted@.len() - k,
                    {
                        chain.push(sorted[k]);
                        proof {
                            assert(chain@ =~= sorted@.subrange(i0 as int, k as int + 1));
                        }
                        k = k + 1;
                    }
                    Ok(chain)
                },
                Some(j) => Err(Error::InvalidHdiffVersion(sorted[j - 1], sorted[j])),
            }
        },
    }
}

proof fn lemma_insert_multiset(s: Seq<BinaryVersion>, pos: int, x: BinaryVersion)
    requires
        0 <= pos <= s.len(),
    ensures
        s.insert(pos, x).to_multiset() == s.to_multiset().insert(x),
{
    broadcast use vstd::seq_lib::group_to_multiset_ensures;
    broadcast use vstd::multiset::group_multiset_axioms;

    let a = s.subrange(0, pos);
    let b = s.subrange(pos, s.len() as int);
    lemma_multiset_commutative(a.push(x), b);
    lemma_multiset_commutative(a, b);
    assert(s =~= a + b);
    assert(a.push(x).to_multiset() =~= a.to_multiset().insert(x));
    assert(s.insert(pos, x).to_multiset() =~= s.to_multiset().insert(x));
}

#[verifier::rlimit(100)]
proof fn lemma_insert_keeps_sorted(s: Seq<BinaryVersion>, pos: int, x: BinaryVersion)
    requires
        sorted_by(s, version_leq()),
        0 <= pos <= s.len(),
        forall|j: int| 0 <= j < pos ==> version_le(#[trigger] s[j], x),
        pos < s.len() ==> !version_le(s[pos], x),
    ensures
        sorted_by(s.insert(pos, x), version_leq()),
{
    let leq = version_leq();
    lemma_version_leq_total();
    s.insert_ensures(pos, x);
    let t = s.insert(pos, x);
    assert forall|p: int, q: int| 0 <= p < q < t.len() implies #[trigger] leq(t[p], t[q]) by {
        if q < pos {
            assert(leq(s[p], s[q]));
        } else if p < pos && q == pos {
            assert(version_le(s[p], x));
        } else if p < pos && q > pos {
            assert(leq(s[p], s[q - 1]));
        } else if p == pos {
            assert(pos < s.len());
            assert(!version_le(s[pos], x));
            assert(leq(x, s[pos]));
            if q - 1 > pos {
                assert(leq(s[pos], s[q - 1]));
            }
        } else {
            assert(leq(s[p - 1], s[q - 1]));
        }
    }
}

fn insert_sorted(v: &mut Vec<BinaryVersion>, x: BinaryVersion)
    requires
        sorted_by(old(v)@, version_leq()),
    ensures
        sorted_by(final(v)@, version_leq()),
        final(v)@.to_multiset() == old(v)@.to_multiset().insert(x),
        final(v)@.len() == old(v)@.len() + 1,
{
    proof {
        lemma_version_leq_total();
    }
    let mut i: usize = 0;
    while i < v.len() && v[i].le(&x)
        invariant
            i <= v@.len(),
            v@ == old(v)@,
            forall|j: int| 0 <= j < i ==> version_le(#[trigger] v@[j], x),
        decreases v@.len() - i,
    {
        i = i + 1;
    }
    let ghost s = v@;
    let ghost pos = i as int;
    proof {
        lemma_insert_keeps_sorted(s, pos, x);
        lemma_insert_multiset(s, pos, x);
    }
    v.insert(i, x);
}

/// Sorts the candidate versions ascending; the result is exactly the
/// canonical sorted permutation of the input.
pub fn sort_candidates(candidates: &Vec<BinaryVersion>) -> (r: Vec<BinaryVersion>)
    ensures
        sorted_by(r@, version_leq()),
        r@.to_multiset() == candidates@.to_multiset(),
        r@ == candidates@.sort_by(version_leq()),
{
    let mut out: Vec<BinaryVersion> = Vec::new();
    let mut i: usize = 0;
    proof {
        broadcast use vstd::seq_lib::group_to_multiset_ensures;

        assert(candidates@.subrange(0, 0) =~= Seq::<BinaryVersion>::empty());
    }
    while i < candidates.len()
        invariant
            i <= candidates@.len(),
            sorted_by(out@, version_leq()),
            out@.to_multiset() == candidates@.subrange(0, i as int).to_multiset(),
        decreases candidates@.len() - i,
    {
        insert_sorted(&mut out, candidates[i]);
        proof {
            broadcast use vstd::seq_lib::group_to_multiset_ensures;

            let pre = candidates@.subrange(0, i as int);
            assert(candidates@.subrange(0, i as int + 1) =~= pre.push(candidates@[i as int]));
            assert(pre.push(candidates@[i as int]).to_multiset() =~= pre.to_multiset().insert(
                candidates@[i as int],
            ));
        }
        i = i + 1;
    }
    proof {
        assert(candidates@.subrange(0, candidates@.len() as int) =~= candidates@);
        lemma_version_leq_total();
        candidates@.lemma_sort_by_ensures(version_leq());
        lemma_sorted_unique(out@, candidates@.sort_by(version_leq()), version_leq());
    }
    out
}

/// Resolves the chain of updates to apply from an unordered candidate set,
/// exactly as `spec_resolve` describes. The same candidate multiset always
/// yields the same outcome (see `lemma_resolve_deterministic`).
pub fn resolve_chain(client: &BinaryVersion, candidates: &Vec<BinaryVersion>) -> (r: Result<
    Vec<BinaryVersion>,
    Error,
>)
    ensures
        match r {
            Ok(chain) => spec_resolve(*client, candidates@) == Ok::<
                Seq<BinaryVersion>,
                (BinaryVersion, BinaryVersion),
            >(chain@),
            Err(e) => spec_resolve(*client, candidates@) matches Err(p) && e
                == Error::InvalidHdiffVersion(p.0, p.1),
        },
{
    let sorted = sort_candidates(candidates);
    resolve_sorted(client, &sorted)
}

/// Chain resolution is a function of the client version and the candidate
/// multiset alone: any two arrival orders of the same candidates resolve to
/// the same outcome.
pub proof fn lemma_resolve_deterministic(
    client: BinaryVersion,
    c1: Seq<BinaryVersion>,
    c2: Seq<BinaryVersion>,
)
    requires
        c1.to_multiset() == c2.to_multiset(),
    ensures
        spec_resolve(client, c1) == spec_resolve(client, c2),
{
    let leq = version_leq();
    lemma_version_leq_total();
    c1.lemma_sort_by_ensures(leq);
    c2.lemma_sort_by_ensures(leq);
    lemma_sorted_unique(c1.sort_by(leq), c2.sort_by(leq), leq);
}

proof fn lemma_find_start_some(client: BinaryVersion, s: Seq<BinaryVersion>, i: int, i0: int)
    requires
        0 <= i,
        spec_find_start(client, s, i) == Some(i0),
    ensures
        i <= i0 < s.len(),
        is_direct_successor(client, s[i0]),
    decreases s.len() - i,
{
    if i >= s.len() {
        assert(false);
    } else if is_direct_successor(client, s[i]) {
    } else {
        lemma_find_start_some(client, s, i + 1, i0);
    }
}

proof fn lemma_find_break_none(s: Seq<BinaryVersion>, j: int, k: int)
    requires
        1 <= j <= k < s.len(),
        spec_find_break(s, j) == None::<int>,
    ensures
        is_direct_successor(s[k - 1], s[k]),
    decreases k - j,
{
    if j == k {
        assert(is_direct_successor(s[j - 1], s[j]));
    } else {
        assert(is_direct_successor(s[j - 1], s[j]));
        lemma_find_break_none(s, j + 1, k);
    }
}

/// A resolved chain is never empty, starts at the direct successor of the
/// client's version, and is contiguous: every later element directly
/// succeeds the one before it.
pub proof fn lemma_chain_contiguous(
    client: BinaryVersion,
    s: Seq<BinaryVersion>,
    chain: Seq<BinaryVersion>,
)
    requires
        spec_resolve_sorted(client, s) == Ok::<Seq<BinaryVersion>, (BinaryVersion, BinaryVersion)>(
            chain,
        ),
    ensures
        chain.len() > 0,
        is_direct_successor(client, chain[0]),
        forall|k: int|
            1 <= k < chain.len() ==> is_direct_successor(chain[k - 1], #[trigger] chain[k]),
{
    match spec_find_start(client, s, 0) {
        None => {
            assert(false);
        },
        Some(i0) => {
            lemma_find_start_some(client, s, 0, i0);
            assert(chain =~= s.subrange(i0, s.len() as int));
            assert forall|k: int| 1 <= k < chain.len() implies is_direct_successor(
                chain[k - 1],
                #[trigger] chain[k],
            ) by {
                lemma_find_break_none(s, i0 + 1, i0 + k);
            }
        },
    }
}

} // verus!

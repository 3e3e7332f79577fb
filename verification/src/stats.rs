//! Ordering and rank statistics over integer samples.
use vstd::prelude::*;
use vstd::relations::{sorted_by, total_ordering};

verus! {

/// `<=` on sample values.
pub open spec fn value_le() -> spec_fn(u64, u64) -> bool {
    |a: u64, b: u64| a <= b
}

/// The samples in ascending order.
pub open spec fn sorted_values(s: Seq<u64>) -> Seq<u64> {
    s.sort_by(value_le())
}

proof fn lemma_value_le_total()
    ensures
        total_ordering(value_le()),
{
}

/// Sorts the values ascending.
pub fn sort_values(v: &Vec<u64>) -> (r: Vec<u64>)
    ensures
        r@ == sorted_values(v@),
        r@.len() == v@.len(),
{
    let mut out: Vec<u64> = Vec::new();
    let mut i: usize = 0;
    proof {
        assert(v@.subrange(0, 0) =~= out@);
    }
    while i < v.len()
        invariant
            i <= v.len(),
            out@.len() == i,
            sorted_by(out@, value_le()),
            out@.to_multiset() == v@.subrange(0, i as int).to_multiset(),
        decreases v.len() - i,
    {
        let x = v[i];
        let mut p: usize = 0;
        while p < out.len() && out[p] <= x
            invariant
                p <= out.len(),
                sorted_by(out@, value_le()),
                forall|k: int| 0 <= k < p ==> out@[k] <= x,
            decreases out.len() - p,
        {
            p = p + 1;
        }
        let ghost before = out@;
        out.insert(p, x);
        proof {
            assert(out@ == before.insert(p as int, x));
            assert forall|a: int, b: int| 0 <= a < b < out@.len() implies #[trigger] value_le()(
                out@[a],
                out@[b],
            ) by {
                if b < p {
                    assert(value_le()(before[a], before[b]));
                } else if b == p {
                    assert(before[a] <= x);
                } else if a < p {
                    assert(before[a] <= x);
                    assert(p < before.len());
                    assert(before[p as int] > x);
                    assert(value_le()(before[p as int], before[b - 1]) || p as int == b - 1);
                } else if a == p {
                    assert(before[p as int] > x);
                    assert(value_le()(before[p as int], before[b - 1]) || p as int == b - 1);
                } else {
                    assert(value_le()(before[a - 1], before[b - 1]));
                }
            }
            assert(v@.subrange(0, i + 1) =~= v@.subrange(0, i as int).push(x));
            vstd::seq_lib::to_multiset_insert(before, p as int, x);
            vstd::seq_lib::to_multiset_build(v@.subrange(0, i as int), x);
            assert(v@.subrange(0, i as int).push(x).to_multiset() == v@.subrange(
                0,
                i as int,
            ).to_multiset().insert(x));
        }
        i = i + 1;
    }
    proof {
        assert(v@.subrange(0, v.len() as int) =~= v@);
        lemma_value_le_total();
        v@.lemma_sort_by_ensures(value_le());
        vstd::seq_lib::lemma_sorted_unique(out@, v@.sort_by(value_le()), value_le());
    }
    out
}

/// Zero-based index of the `numerator / denominator` percentile in `len` sorted values:
/// the `ceil(len * fraction)`-th value, clamped to the list.
pub open spec fn percentile_rank(len: nat, numerator: nat, denominator: nat) -> int {
    let rank: int = (len * numerator + denominator - 1) / (denominator as int);
    let index: int = if rank >= 1 { rank - 1 } else { 0 };
    if index <= len - 1 { index } else { len - 1 }
}

/// The percentile of the samples, zero when there are none.
pub open spec fn spec_percentile(s: Seq<u64>, numerator: nat, denominator: nat) -> u64 {
    if s.len() == 0 {
        0
    } else {
        sorted_values(s)[percentile_rank(s.len(), numerator, denominator)]
    }
}

/// Nearest-rank percentile of `values`; `numerator / denominator` is the fraction.
pub fn percentile(values: &Vec<u64>, numerator: u64, denominator: u64) -> (p: u64)
    requires
        0 < denominator <= 100,
        numerator <= denominator,
    ensures
        p == spec_percentile(values@, numerator as nat, denominator as nat),
{
    if values.len() == 0 {
        return 0;
    }
    let sorted = sort_values(values);
    let len = values.len() as u128;
    let num = numerator as u128;
    let den = denominator as u128;
    assert(len * num <= len * 100) by (nonlinear_arith)
        requires
            num <= den <= 100,
    ;
    assert(len * 100 <= 0x1_0000_0000_0000_0000 * 100) by (nonlinear_arith)
        requires
            len <= 0xffff_ffff_ffff_ffff,
    ;
    let rank = (len * num + den - 1) / den;
    let index = if rank >= 1 { rank - 1 } else { 0 };
    let index = if index <= len - 1 { index } else { len - 1 };
    sorted[index as usize]
}

/// Largest value, zero for an empty list.
pub open spec fn max_value(s: Seq<u64>) -> u64
    decreases s.len(),
{
    if s.len() == 0 {
        0
    } else {
        let rest = max_value(s.drop_last());
        if s.last() > rest { s.last() } else { rest }
    }
}

pub fn maximum(values: &Vec<u64>) -> (m: u64)
    ensures
        m == max_value(values@),
{
    let mut m: u64 = 0;
    let mut i: usize = 0;
    while i < values.len()
        invariant
            i <= values.len(),
            m == max_value(values@.subrange(0, i as int)),
        decreases values.len() - i,
    {
        assert(values@.subrange(0, i + 1).drop_last() =~= values@.subrange(0, i as int));
        if values[i] > m {
            m = values[i];
        }
        i = i + 1;
    }
    assert(values@.subrange(0, values.len() as int) =~= values@);
    m
}

} // verus!

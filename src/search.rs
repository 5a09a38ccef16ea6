use vstd::prelude::*;

use crate::columns::{bits_and_assign, bits_not, bits_of, bits_or_assign, bits_push, bits_repeat, BitColumn};
use crate::exclusions::{lemma_must_be_in_sound, lemma_must_be_out_sound, Exclusion, Side};
use crate::metric::Metric;

verus! {

/// The answer to a range query: each point of `data` within `tau` of `q`,
/// paired with its distance from `q`, in dataset order.
pub open spec fn hits<T: Metric>(data: Seq<T>, q: T, tau: nat) -> Seq<(T, u64)>
    decreases data.len(),
{
    if data.len() == 0 {
        Seq::empty()
    } else {
        let rest = hits(data.drop_last(), q, tau);
        let p = data.last();
        if q.dist(p) <= tau {
            rest.push((p, q.dist(p) as u64))
        } else {
            rest
        }
    }
}

/// The membership bits of one exclusion region over the dataset.
pub open spec fn column_bits<T: Metric>(e: Exclusion<T>, data: Seq<T>) -> Seq<bool> {
    Seq::new(data.len(), |i: int| e.spec_is_in(data[i]))
}

/// Column `e` holds the membership bits of exclusion `e`, for every `e`.
pub open spec fn columns_match<T: Metric>(
    data: Seq<T>,
    excls: Seq<Exclusion<T>>,
    cols: Seq<BitColumn>,
) -> bool {
    &&& cols.len() == excls.len()
    &&& forall|e: int| 0 <= e < cols.len() ==> #[trigger] bits_of(cols[e]) == column_bits(excls[e], data)
}

/// Where the query disc `(q, tau)` stands relative to each exclusion.
pub open spec fn spec_sides<T: Metric>(excls: Seq<Exclusion<T>>, q: T, tau: nat) -> Seq<Side> {
    Seq::new(excls.len(), |e: int| excls[e].spec_side(q, tau))
}

/// The positions of `s` in `sides`, in increasing order.
pub open spec fn positions(sides: Seq<Side>, s: Side) -> Seq<usize>
    decreases sides.len(),
{
    if sides.len() == 0 {
        Seq::empty()
    } else {
        let rest = positions(sides.drop_last(), s);
        if sides.last() == s {
            rest.push((sides.len() - 1) as usize)
        } else {
            rest
        }
    }
}

/// A point survives the filter: it is in every column of `ins` and in no
/// column of `outs`.
pub open spec fn is_candidate(cols: Seq<BitColumn>, ins: Seq<usize>, outs: Seq<usize>, i: int) -> bool {
    &&& forall|k: int| 0 <= k < ins.len() ==> #[trigger] bits_of(cols[ins[k] as int])[i]
    &&& !exists|k: int| 0 <= k < outs.len() && #[trigger] bits_of(cols[outs[k] as int])[i]
}

pub proof fn lemma_positions(sides: Seq<Side>, s: Side)
    requires
        sides.len() <= usize::MAX,
    ensures
        forall|k: int|
            0 <= k < positions(sides, s).len() ==> #[trigger] positions(sides, s)[k] < sides.len()
                && sides[positions(sides, s)[k] as int] == s,
    decreases sides.len(),
{
    if sides.len() > 0 {
        let init = sides.drop_last();
        lemma_positions(init, s);
        let rest = positions(init, s);
        assert forall|k: int| 0 <= k < rest.len() implies rest[k] < sides.len() && sides[rest[k] as int]
            == s by {
            assert(init[rest[k] as int] == s);
        }
    }
}

/// Every point within `tau` of `q` survives the filter built from the
/// exclusions that must hold it and those that must not.
pub proof fn lemma_hit_is_candidate<T: Metric>(
    data: Seq<T>,
    excls: Seq<Exclusion<T>>,
    cols: Seq<BitColumn>,
    q: T,
    tau: nat,
    i: int,
)
    requires
        columns_match(data, excls, cols),
        excls.len() <= usize::MAX,
        0 <= i < data.len(),
        q.dist(data[i]) <= tau,
    ensures
        is_candidate(
            cols,
            positions(spec_sides(excls, q, tau), Side::In),
            positions(spec_sides(excls, q, tau), Side::Out),
            i,
        ),
{
    let sides = spec_sides(excls, q, tau);
    let ins = positions(sides, Side::In);
    let outs = positions(sides, Side::Out);
    lemma_positions(sides, Side::In);
    lemma_positions(sides, Side::Out);
    assert forall|k: int| 0 <= k < ins.len() implies #[trigger] bits_of(cols[ins[k] as int])[i] by {
        let e = ins[k] as int;
        assert(sides[e] == Side::In);
        lemma_must_be_in_sound(excls[e], q, tau, data[i]);
        assert(bits_of(cols[e]) == column_bits(excls[e], data));
    }
    assert forall|k: int| 0 <= k < outs.len() implies !#[trigger] bits_of(cols[outs[k] as int])[i] by {
        let e = outs[k] as int;
        assert(sides[e] == Side::Out);
        lemma_must_be_out_sound(excls[e], q, tau, data[i]);
        assert(bits_of(cols[e]) == column_bits(excls[e], data));
    }
}

/// The membership bits of one exclusion region over the dataset.
pub fn make_column<T: Metric>(e: &Exclusion<T>, data: &Vec<T>) -> (r: BitColumn)
    requires
        data@.len() <= usize::MAX / 8,
    ensures
        bits_of(r) == column_bits(*e, data@),
{
    let n = data.len();
    let mut col = bits_repeat(false, 0);
    let mut i: usize = 0;
    while i < n
        invariant
            n == data@.len(),
            n <= usize::MAX / 8,
            i <= n,
            bits_of(col) =~= column_bits(*e, data@.take(i as int)),
        decreases n - i,
    {
        let bit = e.is_in(&data[i]);
        bits_push(&mut col, bit);
        i = i + 1;
        assert(bits_of(col) =~= column_bits(*e, data@.take(i as int)));
    }
    assert(data@.take(n as int) =~= data@);
    col
}

/// The columns of every exclusion region, built one after the other.
pub fn make_columns<T: Metric>(excls: &Vec<Exclusion<T>>, data: &Vec<T>) -> (r: Vec<BitColumn>)
    requires
        data@.len() <= usize::MAX / 8,
    ensures
        columns_match(data@, excls@, r@),
{
    let m = excls.len();
    let mut cols: Vec<BitColumn> = Vec::new();
    let mut e: usize = 0;
    while e < m
        invariant
            m == excls@.len(),
            data@.len() <= usize::MAX / 8,
            e <= m,
            cols@.len() == e,
            forall|j: int| 0 <= j < e ==> #[trigger] bits_of(cols@[j]) == column_bits(excls@[j], data@),
        decreases m - e,
    {
        let col = make_column(&excls[e], data);
        cols.push(col);
        e = e + 1;
    }
    cols
}

/// Splits exclusion indices by side: those that must hold the query disc
/// and those that must not. Ambiguous ones are dropped.
pub fn partition_sides(sides: &Vec<Side>) -> (r: (Vec<usize>, Vec<usize>))
    ensures
        r.0@ == positions(sides@, Side::In),
        r.1@ == positions(sides@, Side::Out),
{
    let m = sides.len();
    let mut ins: Vec<usize> = Vec::new();
    let mut outs: Vec<usize> = Vec::new();
    let mut e: usize = 0;
    while e < m
        invariant
            m == sides@.len(),
            e <= m,
            ins@ == positions(sides@.take(e as int), Side::In),
            outs@ == positions(sides@.take(e as int), Side::Out),
        decreases m - e,
    {
        assert(sides@.take(e + 1).drop_last() =~= sides@.take(e as int));
        match sides[e] {
            Side::In => ins.push(e),
            Side::Out => outs.push(e),
            Side::Ambiguous => {},
        }
        e = e + 1;
    }
    assert(sides@.take(m as int) =~= sides@);
    (ins, outs)
}

/// Where the query disc stands relative to each exclusion, in order.
pub fn sides_of<T: Metric>(excls: &Vec<Exclusion<T>>, q: &T, tau: u64) -> (r: Vec<Side>)
    ensures
        r@ == spec_sides(excls@, *q, tau as nat),
{
    let m = excls.len();
    let mut sides: Vec<Side> = Vec::new();
    let mut e: usize = 0;
    while e < m
        invariant
            m == excls@.len(),
            e <= m,
            sides@ =~= spec_sides(excls@.take(e as int), *q, tau as nat),
        decreases m - e,
    {
        let s = excls[e].side(q, tau);
        sides.push(s);
        e = e + 1;
        assert(sides@ =~= spec_sides(excls@.take(e as int), *q, tau as nat));
    }
    assert(excls@.take(m as int) =~= excls@);
    sides
}

/// The candidate mask: the AND of the `ins` columns, AND NOT the OR of the
/// `outs` columns.
pub fn candidates(cols: &Vec<BitColumn>, n: usize, ins: &Vec<usize>, outs: &Vec<usize>) -> (r:
    BitColumn)
    requires
        n <= usize::MAX / 8,
        forall|e: int| 0 <= e < cols@.len() ==> #[trigger] bits_of(cols@[e]).len() == n,
        forall|k: int| 0 <= k < ins@.len() ==> #[trigger] ins@[k] < cols@.len(),
        forall|k: int| 0 <= k < outs@.len() ==> #[trigger] outs@[k] < cols@.len(),
    ensures
        bits_of(r).len() == n,
        forall|i: int| 0 <= i < n ==> #[trigger] bits_of(r)[i] == is_candidate(cols@, ins@, outs@, i),
{
    let mut all = bits_repeat(true, n);
    let mut k: usize = 0;
    while k < ins.len()
        invariant
            n <= usize::MAX / 8,
            forall|e: int| 0 <= e < cols@.len() ==> #[trigger] bits_of(cols@[e]).len() == n,
            forall|j: int| 0 <= j < ins@.len() ==> #[trigger] ins@[j] < cols@.len(),
            k <= ins@.len(),
            bits_of(all).len() == n,
            forall|i: int|
                0 <= i < n ==> #[trigger] bits_of(all)[i] == (forall|j: int|
                    0 <= j < k ==> #[trigger] bits_of(cols@[ins@[j] as int])[i]),
        decreases ins@.len() - k,
    {
        let ghost prev = bits_of(all);
        let e = ins[k];
        bits_and_assign(&mut all, &cols[e]);
        proof {
            assert forall|i: int| 0 <= i < n implies #[trigger] bits_of(all)[i] == (forall|j: int|
                0 <= j < k + 1 ==> #[trigger] bits_of(cols@[ins@[j] as int])[i]) by {
                assert(bits_of(all)[i] == (prev[i] && bits_of(cols@[e as int])[i]));
            }
        }
        k = k + 1;
    }
    let mut any = bits_repeat(false, n);
    let mut k: usize = 0;
    while k < outs.len()
        invariant
            n <= usize::MAX / 8,
            forall|e: int| 0 <= e < cols@.len() ==> #[trigger] bits_of(cols@[e]).len() == n,
            forall|j: int| 0 <= j < outs@.len() ==> #[trigger] outs@[j] < cols@.len(),
            k <= outs@.len(),
            bits_of(any).len() == n,
            forall|i: int|
                0 <= i < n ==> #[trigger] bits_of(any)[i] == (exists|j: int|
                    0 <= j < k && #[trigger] bits_of(cols@[outs@[j] as int])[i]),
        decreases outs@.len() - k,
    {
        let ghost prev = bits_of(any);
        let e = outs[k];
        bits_or_assign(&mut any, &cols[e]);
        proof {
            assert forall|i: int| 0 <= i < n implies #[trigger] bits_of(any)[i] == (exists|j: int|
                0 <= j < k + 1 && #[trigger] bits_of(cols@[outs@[j] as int])[i]) by {
                assert(bits_of(any)[i] == (prev[i] || bits_of(cols@[e as int])[i]));
                if bits_of(cols@[e as int])[i] {
                    assert(bits_of(cols@[outs@[k as int] as int])[i]);
                }
            }
        }
        k = k + 1;
    }
    let none = bits_not(any);
    bits_and_assign(&mut all, &none);
    all
}

} // verus!

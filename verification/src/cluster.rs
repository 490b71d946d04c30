use vstd::prelude::*;
use crate::fx::div_floor_i128;

verus! {

/// Lexicographic order on (value, index): the stable sorting order used to
/// arrange positions before grouping them into clusters.
pub open spec fn idx_le(values: Seq<i64>, i: usize, j: usize) -> bool {
    values[i as int] < values[j as int] || (values[i as int] == values[j as int] && i <= j)
}

/// What `cluster_values` returns: `r` partitions the index set of `values`
/// into runs that are consecutive in the sorted order, chained by steps of at
/// most `tol`, and separated by gaps larger than `tol`.
pub open spec fn is_clustering(values: Seq<i64>, tol: int, r: Seq<Seq<usize>>) -> bool {
    &&& forall|k: int| 0 <= k < r.len() ==> #[trigger] r[k].len() > 0
    &&& forall|k: int, p: int|
        0 <= k < r.len() && 0 <= p < r[k].len() ==> (#[trigger] r[k][p]) < values.len()
    &&& forall|k: int, p: int|
        0 <= k < r.len() && 0 < p < r[k].len() ==> idx_le(values, #[trigger] r[k][p - 1], r[k][p])
            && values[r[k][p] as int] - values[r[k][p - 1] as int] <= tol
    &&& forall|k: int|
        0 < k < r.len() ==> idx_le(values, (#[trigger] r[k - 1]).last(), r[k][0])
            && values[r[k][0] as int] - values[r[k - 1].last() as int] > tol
    &&& r.flatten().to_multiset() == Seq::new(values.len(), |i: int| i as usize).to_multiset()
}

/// With tolerance 0 no cluster joins two distinct values: inside every
/// cluster of the result all values are equal.
pub proof fn lemma_zero_tolerance_never_merges(values: Seq<i64>, r: Seq<Seq<usize>>)
    requires
        is_clustering(values, 0, r),
    ensures
        forall|k: int, p: int, q: int|
            0 <= k < r.len() && 0 <= p < r[k].len() && 0 <= q < r[k].len()
                ==> values[#[trigger] r[k][p] as int] == values[#[trigger] r[k][q] as int],
{
    assert forall|k: int, p: int|
        0 <= k < r.len() && 0 <= p < r[k].len()
            implies values[#[trigger] r[k][p] as int] == values[r[k][0] as int] by {
        lemma_cluster_head_eq(values, r, k, p);
    }
}

proof fn lemma_cluster_head_eq(values: Seq<i64>, r: Seq<Seq<usize>>, k: int, p: int)
    requires
        is_clustering(values, 0, r),
        0 <= k < r.len(),
        0 <= p < r[k].len(),
    ensures
        values[r[k][p] as int] == values[r[k][0] as int],
    decreases p,
{
    if p > 0 {
        lemma_cluster_head_eq(values, r, k, p - 1);
        assert(idx_le(values, r[k][p - 1], r[k][p]));
        assert(values[r[k][p] as int] - values[r[k][p - 1] as int] <= 0);
    }
}

/// Sort a vector of indices into `values` by (value, index), stably and
/// uniquely: the result is the one sorted permutation of the input.
fn sort_indices(values: &Vec<i64>, v: &mut Vec<usize>)
    requires
        forall|p: int| 0 <= p < old(v)@.len() ==> (#[trigger] old(v)@[p]) < values@.len(),
    ensures
        final(v)@.len() == old(v)@.len(),
        final(v)@.to_multiset() == old(v)@.to_multiset(),
        forall|p: int| 0 <= p < final(v)@.len() ==> (#[trigger] final(v)@[p]) < values@.len(),
        forall|p: int, q: int|
            0 <= p < q < final(v)@.len() ==> idx_le(values@, final(v)@[p], final(v)@[q]),
{
    broadcast use vstd::seq_lib::group_to_multiset_ensures;

    let n = v.len();
    if n == 0 {
        return;
    }
    let mut i: usize = 1;
    while i < n
        invariant
            n == v@.len(),
            1 <= i <= n,
            v@.to_multiset() == old(v)@.to_multiset(),
            forall|p: int| 0 <= p < v@.len() ==> (#[trigger] v@[p]) < values@.len(),
            forall|p: int, q: int| 0 <= p < q < i ==> idx_le(values@, v@[p], v@[q]),
        decreases n - i,
    {
        let x = v[i];
        let mut j: usize = 0;
        loop
            invariant
                n == v@.len(),
                1 <= i < n,
                0 <= j <= i,
                x == v@[i as int],
                forall|p: int| 0 <= p < v@.len() ==> (#[trigger] v@[p]) < values@.len(),
                forall|p: int| 0 <= p < j ==> idx_le(values@, v@[p], x),
            ensures
                0 <= j <= i,
                x == v@[i as int],
                forall|p: int| 0 <= p < j ==> idx_le(values@, v@[p], x),
                j < i ==> !idx_le(values@, v@[j as int], x),
            decreases i - j,
        {
            if j == i {
                break;
            }
            let c = v[j];
            if !(values[c] < values[x] || (values[c] == values[x] && c <= x)) {
                break;
            }
            j += 1;
        }
        let ghost s0 = v@;
        proof {
            broadcast use vstd::multiset::group_multiset_axioms;
            assert(s0.contains(x));
            s0.to_multiset_ensures();
            assert(s0.to_multiset().count(x) > 0);
        }
        let xv = v.remove(i);
        v.insert(j, xv);
        proof {
            broadcast use vstd::multiset::group_multiset_axioms;
            assert(v@ =~= s0.remove(i as int).insert(j as int, x));
            vstd::seq_lib::to_multiset_remove(s0, i as int);
            vstd::seq_lib::to_multiset_insert(s0.remove(i as int), j as int, x);
            assert(v@.to_multiset() =~= s0.to_multiset());
            assert forall|p: int, q: int| 0 <= p < q < i + 1 implies idx_le(values@, v@[p], v@[q]) by {
                if q == j {
                    assert(idx_le(values@, s0[p], x));
                } else if p == j {
                    let oq = if q < j { q } else { q - 1 };
                    if j < i {
                        assert(!idx_le(values@, s0[j as int], x));
                        assert(idx_le(values@, x, s0[j as int]));
                        assert(idx_le(values@, s0[j as int], s0[q - 1]));
                    }
                } else {
                    let op = if p < j { p } else { p - 1 };
                    let oq = if q < j { q } else { q - 1 };
                    assert(v@[p] == s0[op] && v@[q] == s0[oq]);
                }
            }
        }
        i += 1;
    }
}

/// Cluster the positions of `values` by 1-D tolerance: indices are arranged
/// in (value, index) order and split wherever the value steps by more than
/// `tolerance`. Each returned group is one cluster, in order.
pub fn cluster_values(values: &Vec<i64>, tolerance: i64) -> (r: Vec<Vec<usize>>)
    ensures
        values@.len() == 0 ==> r@.len() == 0,
        is_clustering(values@, tolerance as int, r.deep_view()),
{
    broadcast use vstd::seq_lib::group_to_multiset_ensures;

    let n = values.len();
    let mut idxs: Vec<usize> = Vec::new();
    let mut i: usize = 0;
    while i < n
        invariant
            i <= n,
            n == values@.len(),
            idxs@ =~= Seq::new(i as nat, |p: int| p as usize),
        decreases n - i,
    {
        idxs.push(i);
        proof {
            assert(idxs@ =~= Seq::new((i + 1) as nat, |p: int| p as usize));
        }
        i += 1;
    }
    sort_indices(values, &mut idxs);

    let mut r: Vec<Vec<usize>> = Vec::new();
    if n == 0 {
        proof {
            assert(r.deep_view().flatten() =~= Seq::<usize>::empty());
            assert(r.deep_view().flatten().to_multiset()
                =~= Seq::new(0nat, |i: int| i as usize).to_multiset());
        }
        return r;
    }

    let mut pos: usize = 0;
    while pos < n
        invariant
            n == values@.len(),
            n == idxs@.len(),
            0 <= pos <= n,
            forall|p: int| 0 <= p < idxs@.len() ==> (#[trigger] idxs@[p]) < values@.len(),
            forall|p: int, q: int| 0 <= p < q < idxs@.len() ==> idx_le(values@, idxs@[p], idxs@[q]),
            idxs@.to_multiset() == Seq::new(n as nat, |i: int| i as usize).to_multiset(),
            pos == 0 ==> r@.len() == 0,
            pos > 0 ==> r.deep_view().len() > 0 && r.deep_view().last().len() > 0
                && r.deep_view().last().last() == idxs@[pos - 1],
            forall|k: int| 0 <= k < r.deep_view().len() ==> #[trigger] r.deep_view()[k].len() > 0,
            forall|k: int, p: int|
                0 <= k < r.deep_view().len() && 0 <= p < r.deep_view()[k].len()
                    ==> (#[trigger] r.deep_view()[k][p]) < values@.len(),
            forall|k: int, p: int|
                0 <= k < r.deep_view().len() && 0 < p < r.deep_view()[k].len()
                    ==> idx_le(values@, #[trigger] r.deep_view()[k][p - 1], r.deep_view()[k][p])
                        && values@[r.deep_view()[k][p] as int]
                            - values@[r.deep_view()[k][p - 1] as int] <= tolerance as int,
            forall|k: int|
                0 < k < r.deep_view().len()
                    ==> idx_le(values@, (#[trigger] r.deep_view()[k - 1]).last(), r.deep_view()[k][0])
                        && values@[r.deep_view()[k][0] as int]
                            - values@[r.deep_view()[k - 1].last() as int] > tolerance as int,
            r.deep_view().flatten() =~= idxs@.take(pos as int),
        decreases n - pos,
    {
        let ghost old_r = r.deep_view();
        let x = idxs[pos];
        if pos == 0 {
            let mut c: Vec<usize> = Vec::new();
            c.push(x);
            r.push(c);
            proof {
                assert(r.deep_view() =~~= old_r.push(seq![x]));
                lemma_flatten_push_group(old_r, x);
                assert(r.deep_view().flatten() =~= idxs@.take(1));
            }
        } else {
            let last_idx = {
                let lr = r.len();
                let lc = r[lr - 1].len();
                r[lr - 1][lc - 1]
            };
            let diff: i128 = values[x] as i128 - values[last_idx] as i128;
            if diff <= tolerance as i128 {
                let lr = r.len();
                let mut c = r.pop().unwrap();
                c.push(x);
                r.push(c);
                proof {
                    assert(r.deep_view() =~~= old_r.update(old_r.len() - 1, old_r.last().push(x)));
                    lemma_flatten_push_into_last(old_r, x);
                    assert(idxs@.take(pos as int).push(idxs@[pos as int]) =~= idxs@.take(pos as int + 1));
                }
            } else {
                let mut c: Vec<usize> = Vec::new();
                c.push(x);
                r.push(c);
                proof {
                    assert(r.deep_view() =~~= old_r.push(seq![x]));
                    lemma_flatten_push_group(old_r, x);
                    assert(idxs@.take(pos as int).push(idxs@[pos as int]) =~= idxs@.take(pos as int + 1));
                }
            }
        }
        pos += 1;
    }
    proof {
        assert(idxs@.take(n as int) =~= idxs@);
    }
    r
}

/// The sum of the values selected by a cluster's first `p` indices.
pub open spec fn cluster_sum(values: Seq<i64>, c: Seq<usize>, p: int) -> int
    decreases p,
{
    if p <= 0 {
        0
    } else {
        cluster_sum(values, c, p - 1) + values[c[p - 1] as int]
    }
}

/// The means (floor of sum over size) of each cluster of `r`, as
/// `cluster_to_means` computes them.
pub open spec fn means_of(values: Seq<i64>, r: Seq<Seq<usize>>) -> Seq<i64> {
    Seq::new(r.len(), |k: int| (cluster_sum(values, r[k], r[k].len() as int) / (r[k].len() as int)) as i64)
}

proof fn lemma_cluster_sum_bounds(values: Seq<i64>, c: Seq<usize>, p: int)
    requires
        0 <= p <= c.len(),
        forall|q: int| 0 <= q < c.len() ==> (#[trigger] c[q]) < values.len(),
    ensures
        -p * 0x8000_0000_0000_0000 <= cluster_sum(values, c, p) <= p * 0x8000_0000_0000_0000,
    decreases p,
{
    if p > 0 {
        lemma_cluster_sum_bounds(values, c, p - 1);
        assert((p - 1) * 0x8000_0000_0000_0000 + 0x8000_0000_0000_0000
            == p * 0x8000_0000_0000_0000) by (nonlinear_arith);
        assert(-(p - 1) * 0x8000_0000_0000_0000 - 0x8000_0000_0000_0000
            == -p * 0x8000_0000_0000_0000) by (nonlinear_arith);
    }
}

/// Cluster the values, then report each cluster as its floored mean.
pub fn cluster_to_means(values: &Vec<i64>, tolerance: i64) -> (r: Vec<i64>)
    requires
        values@.len() < 0x4000_0000_0000_0000,
    ensures
        exists|cl: Seq<Seq<usize>>|
            is_clustering(values@, tolerance as int, cl) && r@ == means_of(values@, cl),
{
    let clusters = cluster_values(values, tolerance);
    let ghost cl = clusters.deep_view();
    proof {
        lemma_clustering_sizes(values@, tolerance as int, cl);
    }
    let mut means: Vec<i64> = Vec::new();
    let mut k: usize = 0;
    while k < clusters.len()
        invariant
            is_clustering(values@, tolerance as int, cl),
            cl == clusters.deep_view(),
            cl.len() == clusters@.len(),
            values@.len() < 0x4000_0000_0000_0000,
            forall|kk: int| 0 <= kk < cl.len() ==> (#[trigger] cl[kk]).len() <= values@.len(),
            0 <= k <= clusters@.len(),
            means@ =~= means_of(values@, cl).take(k as int),
        decreases clusters@.len() - k,
    {
        let c = &clusters[k];
        let len = c.len();
        proof {
            assert(cl[k as int] == c@);
            assert(cl[k as int].len() > 0);
        }
        let mut sum: i128 = 0;
        let mut p: usize = 0;
        while p < len
            invariant
                0 <= p <= len,
                len == c@.len(),
                len <= values@.len() < 0x4000_0000_0000_0000,
                forall|q: int| 0 <= q < c@.len() ==> (#[trigger] c@[q]) < values@.len(),
                sum == cluster_sum(values@, c@, p as int),
                -(p as int) * 0x8000_0000_0000_0000 <= sum <= (p as int) * 0x8000_0000_0000_0000,
            decreases len - p,
        {
            let idx = c[p];
            sum = sum + values[idx] as i128;
            proof {
                lemma_cluster_sum_bounds(values@, c@, p as int + 1);
            }
            p += 1;
        }
        proof {
            lemma_cluster_sum_bounds(values@, c@, len as int);
            assert((len as int) * 0x8000_0000_0000_0000
                < 0x4000_0000_0000_0000 * 0x8000_0000_0000_0000) by (nonlinear_arith)
                requires len < 0x4000_0000_0000_0000;
            assert(-(0x4000_0000_0000_0000 * 0x8000_0000_0000_0000)
                < -((len as int) * 0x8000_0000_0000_0000) || len == 0) by (nonlinear_arith)
                requires len < 0x4000_0000_0000_0000;
        }
        let q = crate::fx::div_floor_i128(sum, len as i128);
        proof {
            lemma_mean_fits(values@, c@, sum as int, len as int);
        }
        means.push(q as i64);
        proof {
            assert(means@ =~= means_of(values@, cl).take(k as int + 1));
        }
        k += 1;
    }
    proof {
        assert(means@ =~= means_of(values@, cl));
    }
    means
}

/// In a clustering every cluster is no longer than the whole index set.
proof fn lemma_clustering_sizes(values: Seq<i64>, tol: int, r: Seq<Seq<usize>>)
    requires
        is_clustering(values, tol, r),
    ensures
        forall|k: int| 0 <= k < r.len() ==> (#[trigger] r[k]).len() <= values.len(),
{
    broadcast use vstd::seq_lib::group_to_multiset_ensures;
    let flat = r.flatten();
    let full = Seq::new(values.len(), |i: int| i as usize);
    assert(flat.to_multiset().len() == full.to_multiset().len());
    assert(flat.len() == values.len());
    assert forall|k: int| 0 <= k < r.len() implies (#[trigger] r[k]).len() <= values.len() by {
        r.lemma_flatten_and_flatten_alt_are_equivalent();
        r.lemma_flatten_length_ge_single_element_length(k);
    }
}

/// The floored mean of at most `len` values each within i64 range is itself
/// within i64 range.
proof fn lemma_mean_fits(values: Seq<i64>, c: Seq<usize>, sum: int, len: int)
    requires
        len > 0,
        sum == cluster_sum(values, c, len),
        len <= c.len(),
        forall|q: int| 0 <= q < c.len() ==> (#[trigger] c[q]) < values.len(),
    ensures
        i64::MIN <= sum / len <= i64::MAX,
{
    lemma_cluster_sum_bounds(values, c, len);
    assert(len * (i64::MIN as int) <= sum <= len * (0x8000_0000_0000_0000)) by {
        assert(len * (i64::MIN as int) == -len * 0x8000_0000_0000_0000) by (nonlinear_arith);
    }
    assert(sum / len >= i64::MIN) by {
        vstd::arithmetic::div_mod::lemma_div_multiples_vanish(i64::MIN as int, len);
        vstd::arithmetic::div_mod::lemma_div_is_ordered(len * (i64::MIN as int), sum, len);
        assert(len * (i64::MIN as int) == (i64::MIN as int) * len) by (nonlinear_arith);
    }
    assert(sum / len <= i64::MAX) by {
        vstd::arithmetic::div_mod::lemma_div_multiples_vanish(0x8000_0000_0000_0000, len);
        vstd::arithmetic::div_mod::lemma_div_is_ordered(sum, len * 0x8000_0000_0000_0000, len);
        assert(len * 0x8000_0000_0000_0000 == 0x8000_0000_0000_0000 * len) by (nonlinear_arith);
        assert(0x8000_0000_0000_0000int / len <= 0x8000_0000_0000_0000) by {
            assert(0x8000_0000_0000_0000int / 1 == 0x8000_0000_0000_0000) by (nonlinear_arith);
            vstd::arithmetic::div_mod::lemma_div_is_ordered_by_denominator(0x8000_0000_0000_0000, 1, len);
        }
        if sum / len > i64::MAX {
            assert(sum / len == 0x8000_0000_0000_0000);
            vstd::arithmetic::div_mod::lemma_fundamental_div_mod(sum, len);
            assert(sum == len * 0x8000_0000_0000_0000 + sum % len);
            assert(sum % len < len);
            assert(sum <= len * 0x8000_0000_0000_0000);
            assert(sum == len * 0x8000_0000_0000_0000);
            assert(cluster_sum(values, c, len) == len * 0x8000_0000_0000_0000);
            lemma_cluster_sum_strict(values, c, len);
        }
    }
}

/// A sum of i64 values never reaches len * 2^63 exactly (each term is at
/// most 2^63 - 1).
proof fn lemma_cluster_sum_strict(values: Seq<i64>, c: Seq<usize>, len: int)
    requires
        len > 0,
        len <= c.len(),
        forall|q: int| 0 <= q < c.len() ==> (#[trigger] c[q]) < values.len(),
    ensures
        cluster_sum(values, c, len) < len * 0x8000_0000_0000_0000,
    decreases len,
{
    assert(cluster_sum(values, c, len)
        == cluster_sum(values, c, len - 1) + values[c[len - 1] as int]);
    assert(values[c[len - 1] as int] < 0x8000_0000_0000_0000);
    if len == 1 {
        assert(cluster_sum(values, c, 0) == 0);
        assert(1 * 0x8000_0000_0000_0000 == 0x8000_0000_0000_0000) by (nonlinear_arith);
    } else {
        lemma_cluster_sum_strict(values, c, len - 1);
        assert((len - 1) * 0x8000_0000_0000_0000 + 0x8000_0000_0000_0000
            == len * 0x8000_0000_0000_0000) by (nonlinear_arith);
    }
}

/// Cluster positions and return the sorted cluster means.
pub fn find_grid_lines(positions: &Vec<i64>, tolerance: i64) -> (r: Vec<i64>)
    requires
        positions@.len() < 0x4000_0000_0000_0000,
    ensures
        exists|cl: Seq<Seq<usize>>|
            is_clustering(positions@, tolerance as int, cl)
                && r@.to_multiset() == means_of(positions@, cl).to_multiset(),
        forall|p: int, q: int| 0 <= p < q < r@.len() ==> r@[p] <= r@[q],
{
    let mut means = cluster_to_means(positions, tolerance);
    sort_i64(&mut means);
    means
}

/// Sort a vector of fixed-point values ascending.
pub fn sort_i64(v: &mut Vec<i64>)
    ensures
        final(v)@.len() == old(v)@.len(),
        final(v)@.to_multiset() == old(v)@.to_multiset(),
        forall|p: int, q: int| 0 <= p < q < final(v)@.len() ==> final(v)@[p] <= final(v)@[q],
{
    broadcast use vstd::seq_lib::group_to_multiset_ensures;

    let n = v.len();
    if n == 0 {
        return;
    }
    let mut i: usize = 1;
    while i < n
        invariant
            n == v@.len(),
            1 <= i <= n,
            v@.to_multiset() == old(v)@.to_multiset(),
            forall|p: int, q: int| 0 <= p < q < i ==> v@[p] <= v@[q],
        decreases n - i,
    {
        let x = v[i];
        let mut j: usize = 0;
        loop
            invariant
                n == v@.len(),
                1 <= i < n,
                0 <= j <= i,
                x == v@[i as int],
                forall|p: int| 0 <= p < j ==> v@[p] <= x,
            ensures
                0 <= j <= i,
                x == v@[i as int],
                forall|p: int| 0 <= p < j ==> v@[p] <= x,
                j < i ==> !(v@[j as int] <= x),
            decreases i - j,
        {
            if j == i {
                break;
            }
            if !(v[j] <= x) {
                break;
            }
            j += 1;
        }
        let ghost s0 = v@;
        proof {
            broadcast use vstd::multiset::group_multiset_axioms;
            assert(s0.contains(x));
            s0.to_multiset_ensures();
            assert(s0.to_multiset().count(x) > 0);
        }
        let xv = v.remove(i);
        v.insert(j, xv);
        proof {
            broadcast use vstd::multiset::group_multiset_axioms;
            assert(v@ =~= s0.remove(i as int).insert(j as int, x));
            vstd::seq_lib::to_multiset_remove(s0, i as int);
            vstd::seq_lib::to_multiset_insert(s0.remove(i as int), j as int, x);
            assert(v@.to_multiset() =~= s0.to_multiset());
            assert forall|p: int, q: int| 0 <= p < q < i + 1 implies v@[p] <= v@[q] by {
                if q == j {
                    assert(v@[p] == s0[p]);
                } else if p == j {
                    if j < i {
                        assert(s0[j as int] > x);
                        if q - 1 > j {
                            assert(s0[j as int] <= s0[q - 1]);
                        }
                    }
                } else {
                    let op = if p < j { p } else { p - 1 };
                    let oq = if q < j { q } else { q - 1 };
                    assert(v@[p] == s0[op] && v@[q] == s0[oq]);
                }
            }
        }
        i += 1;
    }
}

/// Appending a one-element group appends that element to the flattening.
proof fn lemma_flatten_push_group(r: Seq<Seq<usize>>, x: usize)
    ensures
        r.push(seq![x]).flatten() =~= r.flatten().push(x),
{
    r.lemma_flatten_push(seq![x]);
    assert(r.flatten() + seq![x] =~= r.flatten().push(x));
}

/// Pushing an element onto the last group appends it to the flattening.
proof fn lemma_flatten_push_into_last(r: Seq<Seq<usize>>, x: usize)
    requires
        r.len() > 0,
    ensures
        r.update(r.len() - 1, r.last().push(x)).flatten() =~= r.flatten().push(x),
{
    let r2 = r.update(r.len() - 1, r.last().push(x));
    assert(r2 =~= r.drop_last().push(r.last().push(x)));
    r.drop_last().lemma_flatten_push(r.last().push(x));
    assert(r =~= r.drop_last().push(r.last()));
    r.drop_last().lemma_flatten_push(r.last());
    assert(r.drop_last().flatten() + r.last().push(x) =~= (r.drop_last().flatten() + r.last()).push(x));
}

} // verus!

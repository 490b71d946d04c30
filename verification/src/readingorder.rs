use vstd::prelude::*;
use crate::bbox::BBox;
use crate::objects::Char;
use crate::fx::{min_i64, max_i64};

verus! {

/// Whether every index of every block points into the character slice.
pub open spec fn blocks_valid(blocks: Seq<Seq<usize>>, n: nat) -> bool {
    forall|b: int, t: int|
        0 <= b < blocks.len() && 0 <= t < blocks[b].len() ==> (#[trigger] blocks[b][t]) < n
}

/// Determine a reading order for the characters by recursive cuts: split
/// at the widest horizontal gap, then at the widest vertical one, until no
/// gap at least `min_gap` remains; each returned block lists character
/// indices in reading order.
pub fn determine_reading_order(chars: &Vec<Char>, page_bbox: &BBox) -> (r: Vec<Vec<usize>>)
    ensures
        chars@.len() == 0 ==> r@.len() == 0,
        blocks_valid(r.deep_view(), chars@.len()),
        forall|b: int| 0 <= b < r@.len() ==> (#[trigger] r@[b])@.len() > 0,
{
    let mut blocks: Vec<Vec<usize>> = Vec::new();
    let n = chars.len();
    if n == 0 {
        return blocks;
    }
    let mut indices: Vec<usize> = Vec::new();
    let mut i: usize = 0;
    while i < n
        invariant
            0 <= i <= n,
            n == chars@.len(),
            indices@.len() == i,
            forall|p: int| 0 <= p < i ==> (#[trigger] indices@[p]) < n,
        decreases n - i,
    {
        indices.push(i);
        i += 1;
    }
    xy_cut(chars, indices, &mut blocks, 20 * crate::fx::SCALE);
    blocks
}

/// One recursive cut step: try a horizontal split, then a vertical one,
/// else emit the block sorted into reading order.
fn xy_cut(chars: &Vec<Char>, indices: Vec<usize>, result: &mut Vec<Vec<usize>>, min_gap: i64)
    requires
        indices@.len() > 0,
        forall|p: int| 0 <= p < indices@.len() ==> (#[trigger] indices@[p]) < chars@.len(),
        blocks_valid(old(result).deep_view(), chars@.len()),
        forall|b: int| 0 <= b < old(result)@.len() ==> (#[trigger] old(result)@[b])@.len() > 0,
    ensures
        blocks_valid(final(result).deep_view(), chars@.len()),
        forall|b: int| 0 <= b < final(result)@.len() ==> (#[trigger] final(result)@[b])@.len() > 0,
        final(result)@.len() > old(result)@.len(),
    decreases indices@.len(),
{
    if indices.len() <= 3 {
        let mut sorted = indices;
        crate::words::sort_char_indices(chars, &mut sorted);
        push_block(result, sorted, Ghost(chars@.len()));
        return;
    }
    match find_cut(chars, &indices, min_gap, true) {
        Some((first, second)) => {
            xy_cut(chars, first, result, min_gap);
            xy_cut(chars, second, result, min_gap);
            return;
        },
        None => {},
    }
    match find_cut(chars, &indices, min_gap, false) {
        Some((first, second)) => {
            xy_cut(chars, first, result, min_gap);
            xy_cut(chars, second, result, min_gap);
            return;
        },
        None => {},
    }
    let mut sorted = indices;
    crate::words::sort_char_indices(chars, &mut sorted);
    push_block(result, sorted, Ghost(chars@.len()));
}

/// Record one finished block.
fn push_block(result: &mut Vec<Vec<usize>>, block: Vec<usize>, Ghost(n): Ghost<nat>)
    requires
        block@.len() > 0,
        forall|p: int| 0 <= p < block@.len() ==> (#[trigger] block@[p]) < n,
        blocks_valid(old(result).deep_view(), n),
        forall|b: int| 0 <= b < old(result)@.len() ==> (#[trigger] old(result)@[b])@.len() > 0,
    ensures
        blocks_valid(final(result).deep_view(), n),
        forall|b: int| 0 <= b < final(result)@.len() ==> (#[trigger] final(result)@[b])@.len() > 0,
        final(result)@.len() == old(result)@.len() + 1,
{
    let ghost dv0 = result.deep_view();
    result.push(block);
    proof {
        assert(result.deep_view() =~~= dv0.push(block@));
        assert forall|b: int, t: int|
            0 <= b < result.deep_view().len() && 0 <= t < result.deep_view()[b].len()
                implies (#[trigger] result.deep_view()[b][t]) < n by {
            if b < dv0.len() {
                assert(result.deep_view()[b] == dv0[b]);
            } else {
                assert(result.deep_view()[b] == block@);
            }
        }
    }
}

/// Split the indices at the widest gap of at least `min_gap`: across the
/// page when `horizontal`, down the page otherwise. Both sides come back
/// nonempty, strictly smaller, and made of the same indices.
fn find_cut(chars: &Vec<Char>, indices: &Vec<usize>, min_gap: i64, horizontal: bool) -> (r: Option<(Vec<usize>, Vec<usize>)>)
    requires
        indices@.len() >= 2,
        forall|p: int| 0 <= p < indices@.len() ==> (#[trigger] indices@[p]) < chars@.len(),
    ensures
        ({
            match r {
                Some((first, second)) => first@.len() > 0 && second@.len() > 0
                    && first@.len() < indices@.len() && second@.len() < indices@.len()
                    && (forall|p: int|
                        0 <= p < first@.len() ==> (#[trigger] first@[p]) < chars@.len())
                    && (forall|p: int|
                        0 <= p < second@.len() ==> (#[trigger] second@[p]) < chars@.len()),
                None => true,
            }
        }),
{
    let n = indices.len();
    let mut sorted: Vec<usize> = Vec::new();
    let mut i: usize = 0;
    while i < n
        invariant
            0 <= i <= n,
            n == indices@.len(),
            sorted@.len() == i,
            forall|p: int| 0 <= p < indices@.len() ==> (#[trigger] indices@[p]) < chars@.len(),
            forall|p: int| 0 <= p < i ==> (#[trigger] sorted@[p]) < chars@.len(),
        decreases n - i,
    {
        sorted.push(indices[i]);
        i += 1;
    }
    if horizontal {
        crate::words::sort_char_indices(chars, &mut sorted);
    } else {
        sort_by_x(chars, &mut sorted);
    }

    let mut best_gap: i64 = 0;
    let mut best_split: usize = 0;
    let mut k: usize = 0;
    while k < n - 1
        invariant
            2 <= n,
            n == sorted@.len(),
            0 <= k <= n - 1,
            0 <= best_split < n,
            forall|p: int| 0 <= p < sorted@.len() ==> (#[trigger] sorted@[p]) < chars@.len(),
        decreases n - 1 - k,
    {
        let a = &chars[sorted[k]];
        let b = &chars[sorted[k + 1]];
        let gap128: i128 = if horizontal {
            b.top as i128 - a.bottom as i128
        } else {
            b.x0 as i128 - a.x1 as i128
        };
        if gap128 > best_gap as i128 {
            best_gap = if gap128 > i64::MAX as i128 {
                i64::MAX
            } else {
                gap128 as i64
            };
            best_split = k + 1;
        }
        k += 1;
    }

    if best_gap >= min_gap && best_split > 0 && best_split < n {
        let mut first: Vec<usize> = Vec::new();
        let mut second: Vec<usize> = Vec::new();
        let mut t: usize = 0;
        while t < n
            invariant
                0 <= t <= n,
                n == sorted@.len(),
                0 < best_split < n,
                forall|p: int| 0 <= p < sorted@.len() ==> (#[trigger] sorted@[p]) < chars@.len(),
                first@.len() == if t <= best_split { t as int } else { best_split as int },
                second@.len() == if t <= best_split { 0int } else { t - best_split },
                forall|p: int| 0 <= p < first@.len() ==> (#[trigger] first@[p]) < chars@.len(),
                forall|p: int| 0 <= p < second@.len() ==> (#[trigger] second@[p]) < chars@.len(),
            decreases n - t,
        {
            if t < best_split {
                first.push(sorted[t]);
            } else {
                second.push(sorted[t]);
            }
            t += 1;
        }
        Some((first, second))
    } else {
        None
    }
}

/// Sort character indices by (x0, top), stably.
fn sort_by_x(chars: &Vec<Char>, v: &mut Vec<usize>)
    requires
        forall|p: int| 0 <= p < old(v)@.len() ==> (#[trigger] old(v)@[p]) < chars@.len(),
    ensures
        final(v)@.len() == old(v)@.len(),
        final(v)@.to_multiset() == old(v)@.to_multiset(),
        forall|p: int| 0 <= p < final(v)@.len() ==> (#[trigger] final(v)@[p]) < chars@.len(),
        forall|p: int, q: int|
            0 <= p < q < final(v)@.len() ==> char_x_le(chars@, final(v)@[p], final(v)@[q]),
{
    broadcast use vstd::seq_lib::group_to_multiset_ensures;

    let n = v.len();
    if n == 0 {
        return;
    }
    let mut i: usize = 1;
    while i < n
        invariant
            n == v@.len(),
            1 <= i <= n,
            v@.to_multiset() == old(v)@.to_multiset(),
            forall|p: int| 0 <= p < v@.len() ==> (#[trigger] v@[p]) < chars@.len(),
            forall|p: int, q: int| 0 <= p < q < i ==> char_x_le(chars@, v@[p], v@[q]),
        decreases n - i,
    {
        let x = v[i];
        let mut j: usize = 0;
        loop
            invariant
                n == v@.len(),
                1 <= i < n,
                0 <= j <= i,
                x == v@[i as int],
                x < chars@.len(),
                forall|p: int| 0 <= p < v@.len() ==> (#[trigger] v@[p]) < chars@.len(),
                forall|p: int| 0 <= p < j ==> char_x_le(chars@, v@[p], x),
            ensures
                0 <= j <= i,
                x == v@[i as int],
                forall|p: int| 0 <= p < j ==> char_x_le(chars@, v@[p], x),
                j < i ==> !char_x_le(chars@, v@[j as int], x),
            decreases i - j,
        {
            if j == i {
                break;
            }
            let c = v[j];
            let a = &chars[c];
            let b = &chars[x];
            if a.x0 < b.x0 || (a.x0 == b.x0 && (a.top < b.top || (a.top == b.top && c <= x))) {
                j += 1;
            } else {
                break;
            }
        }
        let ghost s0 = v@;
        proof {
            broadcast use vstd::multiset::group_multiset_axioms;
            assert(s0.contains(x));
            s0.to_multiset_ensures();
            assert(s0.to_multiset().count(x) > 0);
        }
        let xv = v.remove(i);
        v.insert(j, xv);
        proof {
            broadcast use vstd::multiset::group_multiset_axioms;
            assert(v@ =~= s0.remove(i as int).insert(j as int, x));
            vstd::seq_lib::to_multiset_remove(s0, i as int);
            vstd::seq_lib::to_multiset_insert(s0.remove(i as int), j as int, x);
            assert(v@.to_multiset() =~= s0.to_multiset());
            assert forall|p: int, q: int|
                0 <= p < q < i + 1 implies char_x_le(chars@, v@[p], v@[q]) by {
                if q == j {
                    assert(v@[p] == s0[p]);
                } else if p == j {
                    if j < i {
                        assert(!char_x_le(chars@, s0[j as int], x));
                        assert(char_x_le(chars@, x, s0[j as int]));
                        if q - 1 > j {
                            assert(char_x_le(chars@, s0[j as int], s0[q - 1]));
                        }
                    }
                } else {
                    let op = if p < j { p } else { p - 1 };
                    let oq = if q < j { q } else { q - 1 };
                    assert(v@[p] == s0[op] && v@[q] == s0[oq]);
                }
            }
        }
        i += 1;
    }
}

/// Column order on characters: by x0, then top, then original position.
pub open spec fn char_x_le(chars: Seq<Char>, i: usize, j: usize) -> bool {
    let a = chars[i as int];
    let b = chars[j as int];
    a.x0 < b.x0 || (a.x0 == b.x0 && (a.top < b.top || (a.top == b.top && i <= j)))
}

/// The hull of the characters a block selects.
pub fn compute_bbox(chars: &Vec<Char>, indices: &Vec<usize>) -> (r: BBox)
    requires
        forall|p: int| 0 <= p < indices@.len() ==> (#[trigger] indices@[p]) < chars@.len(),
    ensures
        indices@.len() == 0 ==> r == (BBox { x0: 0i64, top: 0i64, x1: 0i64, bottom: 0i64 }),
        forall|p: int|
            0 <= p < indices@.len() ==> r.x0 <= chars@[(#[trigger] indices@[p]) as int].x0
                && chars@[indices@[p] as int].x1 <= r.x1
                && r.top <= chars@[indices@[p] as int].top
                && chars@[indices@[p] as int].bottom <= r.bottom,
{
    if indices.len() == 0 {
        return BBox { x0: 0, top: 0, x1: 0, bottom: 0 };
    }
    let mut x0: i64 = i64::MAX;
    let mut top: i64 = i64::MAX;
    let mut x1: i64 = i64::MIN;
    let mut bottom: i64 = i64::MIN;
    let mut i: usize = 0;
    while i < indices.len()
        invariant
            0 <= i <= indices@.len(),
            forall|p: int| 0 <= p < indices@.len() ==> (#[trigger] indices@[p]) < chars@.len(),
            forall|p: int|
                0 <= p < i ==> x0 <= chars@[(#[trigger] indices@[p]) as int].x0
                    && chars@[indices@[p] as int].x1 <= x1
                    && top <= chars@[indices@[p] as int].top
                    && chars@[indices@[p] as int].bottom <= bottom,
        decreases indices@.len() - i,
    {
        let c = &chars[indices[i]];
        x0 = min_i64(x0, c.x0);
        top = min_i64(top, c.top);
        x1 = max_i64(x1, c.x1);
        bottom = max_i64(bottom, c.bottom);
        i += 1;
    }
    BBox { x0, top, x1, bottom }
}

} // verus!

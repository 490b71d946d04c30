use vstd::prelude::*;
use vstd::pervasive::VecAdditionalExecFns;
use crate::edges::Edge;
use crate::table::{Table, TableCell};
use crate::trusted::push_char;

verus! {

/// Every cell starts inside the declared grid.
pub open spec fn cells_in_grid(t: Table) -> bool {
    forall|k: int|
        0 <= k < t.cells@.len() ==> (#[trigger] t.cells@[k]).row < t.row_count
            && t.cells@[k].col < t.col_count
}

/// Whether a vertical edge runs along x within `tol`, covering the span
/// from `top` to `bottom`.
pub open spec fn spec_has_separating_vertical(edges: Seq<Edge>, x: i64, top: i64, bottom: i64, tol: i64) -> bool {
    exists|i: int|
        0 <= i < edges.len() && (#[trigger] edges[i]).is_v()
            && -(tol as int) <= edges[i].x0 - x <= tol as int
            && edges[i].top <= top + tol as int && edges[i].bottom >= bottom - tol as int
}

/// Whether a horizontal edge runs along y within `tol`, covering the span
/// from `x0` to `x1`.
pub open spec fn spec_has_separating_horizontal(edges: Seq<Edge>, y: i64, x0: i64, x1: i64, tol: i64) -> bool {
    exists|i: int|
        0 <= i < edges.len() && (#[trigger] edges[i]).is_h()
            && -(tol as int) <= edges[i].top - y <= tol as int
            && edges[i].x0 <= x0 + tol as int && edges[i].x1 >= x1 - tol as int
}

/// Whether cells `li` and `ri` of the table are adjacent in the merge
/// direction and their shared boundary lacks a separating edge: the pair
/// the merge pass would absorb next.
pub open spec fn spec_mergeable_pair(t: Table, edges: Seq<Edge>, tol: i64, horizontal: bool, li: int, ri: int) -> bool {
    &&& 0 <= li < t.cells@.len()
    &&& 0 <= ri < t.cells@.len()
    &&& li != ri
    &&& (if horizontal {
        t.cells@[ri].row == t.cells@[li].row && t.cells@[ri].col == sat_usize(
            t.cells@[li].col + t.cells@[li].col_span,
        )
    } else {
        t.cells@[ri].col == t.cells@[li].col && t.cells@[ri].row == sat_usize(
            t.cells@[li].row + t.cells@[li].row_span,
        )
    })
    &&& (if horizontal {
        !spec_has_separating_vertical(
            edges,
            t.cells@[li].bbox.x1,
            t.cells@[li].bbox.top,
            t.cells@[li].bbox.bottom,
            tol,
        )
    } else {
        !spec_has_separating_horizontal(
            edges,
            t.cells@[li].bbox.bottom,
            t.cells@[li].bbox.x0,
            t.cells@[li].bbox.x1,
            tol,
        )
    })
}

/// Whether any adjacent pair of the table still lacks its separating
/// edge in the given direction.
pub open spec fn spec_has_mergeable(t: Table, edges: Seq<Edge>, tol: i64, horizontal: bool) -> bool {
    exists|li: int, ri: int| #[trigger] spec_mergeable_pair(t, edges, tol, horizontal, li, ri)
}

/// The saturated sum of two grid spans.
pub open spec fn sat_usize(v: int) -> usize {
    if v > usize::MAX as int {
        usize::MAX
    } else {
        v as usize
    }
}

/// The text the merged cell carries: the left text, then a separator and
/// the right text when both are present.
pub open spec fn spec_merged_text(left: Seq<char>, right: Seq<char>, horizontal: bool) -> Seq<char> {
    if right.len() == 0 {
        left
    } else if left.len() == 0 {
        right
    } else if horizontal {
        left + seq![' '] + right
    } else {
        left + seq!['\n'] + right
    }
}

/// Detect merged cells: wherever the boundary between two adjacent cells
/// has no separating edge, absorb the right (or lower) cell into the left
/// (or upper) one, widening its span and joining the texts.
pub fn detect_merged_cells(table: &mut Table, edges: &Vec<Edge>, tolerance: i64)
    requires
        cells_in_grid(*old(table)),
    ensures
        cells_in_grid(*final(table)),
        final(table).row_count == old(table).row_count,
        final(table).col_count == old(table).col_count,
        final(table).bbox == old(table).bbox,
        final(table).cells@.len() <= old(table).cells@.len(),
        old(table).cells@.len() == 0 || old(table).row_count <= 1 || old(table).col_count <= 1
            ==> *final(table) == *old(table),
        !(old(table).cells@.len() == 0 || old(table).row_count <= 1 || old(table).col_count <= 1)
            ==> !spec_has_mergeable(*final(table), edges@, tolerance, false),
{
    if table.cells.len() == 0 || table.row_count <= 1 || table.col_count <= 1 {
        return;
    }
    merge_pass(table, edges, tolerance, true);
    merge_pass(table, edges, tolerance, false);
}

/// One direction of the merge pass: repeat until no adjacent pair lacks
/// its separating edge.
fn merge_pass(table: &mut Table, edges: &Vec<Edge>, tolerance: i64, horizontal: bool)
    requires
        cells_in_grid(*old(table)),
    ensures
        cells_in_grid(*final(table)),
        final(table).row_count == old(table).row_count,
        final(table).col_count == old(table).col_count,
        final(table).bbox == old(table).bbox,
        final(table).cells@.len() <= old(table).cells@.len(),
        !spec_has_mergeable(*final(table), edges@, tolerance, horizontal),
{
    loop
        invariant
            cells_in_grid(*table),
            table.row_count == old(table).row_count,
            table.col_count == old(table).col_count,
            table.bbox == old(table).bbox,
            table.cells@.len() <= old(table).cells@.len(),
        ensures
            cells_in_grid(*table),
            table.row_count == old(table).row_count,
            table.col_count == old(table).col_count,
            table.bbox == old(table).bbox,
            table.cells@.len() <= old(table).cells@.len(),
            !spec_has_mergeable(*table, edges@, tolerance, horizontal),
        decreases table.cells@.len(),
    {
        let pair = find_merge_pair(table, edges, tolerance, horizontal);
        match pair {
            Some((li, ri)) => {
                apply_merge(table, li, ri, horizontal);
            },
            None => {
                break;
            },
        }
    }
}

/// Find the first adjacent pair whose shared boundary lacks a separating
/// edge: the left/upper cell's index and the right/lower cell's index.
fn find_merge_pair(table: &Table, edges: &Vec<Edge>, tolerance: i64, horizontal: bool) -> (r: Option<(usize, usize)>)
    ensures
        ({
            match r {
                Some((li, ri)) => spec_mergeable_pair(
                    *table,
                    edges@,
                    tolerance,
                    horizontal,
                    li as int,
                    ri as int,
                ),
                None => !spec_has_mergeable(*table, edges@, tolerance, horizontal),
            }
        }),
{
    let n = table.cells.len();
    let mut li: usize = 0;
    while li < n
        invariant
            n == table.cells@.len(),
            0 <= li <= n,
            forall|a: int, b: int|
                0 <= a < li && 0 <= b < n ==> !(#[trigger] spec_mergeable_pair(
                    *table,
                    edges@,
                    tolerance,
                    horizontal,
                    a,
                    b,
                )),
        decreases n - li,
    {
        let left = &table.cells[li];
        let mut ri: usize = 0;
        while ri < n
            invariant
                n == table.cells@.len(),
                0 <= li < n,
                0 <= ri <= n,
                *left == table.cells@[li as int],
                forall|a: int, b: int|
                    0 <= a < li && 0 <= b < n ==> !(#[trigger] spec_mergeable_pair(
                        *table,
                        edges@,
                        tolerance,
                        horizontal,
                        a,
                        b,
                    )),
                forall|b: int|
                    0 <= b < ri ==> !(#[trigger] spec_mergeable_pair(
                        *table,
                        edges@,
                        tolerance,
                        horizontal,
                        li as int,
                        b,
                    )),
            decreases n - ri,
        {
            if ri != li {
                let right = &table.cells[ri];
                let adjacent: bool = if horizontal {
                    right.row == left.row && right.col == wrapping_sum(left.col, left.col_span)
                } else {
                    right.col == left.col && right.row == wrapping_sum(left.row, left.row_span)
                };
                proof {
                    if horizontal {
                        assert(adjacent == (table.cells@[ri as int].row
                            == table.cells@[li as int].row && table.cells@[ri as int].col
                            == sat_usize(
                            table.cells@[li as int].col + table.cells@[li as int].col_span,
                        )));
                    } else {
                        assert(adjacent == (table.cells@[ri as int].col
                            == table.cells@[li as int].col && table.cells@[ri as int].row
                            == sat_usize(
                            table.cells@[li as int].row + table.cells@[li as int].row_span,
                        )));
                    }
                }
                if adjacent {
                    let separated: bool = if horizontal {
                        has_separating_vertical(
                            edges,
                            left.bbox.x1,
                            left.bbox.top,
                            left.bbox.bottom,
                            tolerance,
                        )
                    } else {
                        has_separating_horizontal(
                            edges,
                            left.bbox.bottom,
                            left.bbox.x0,
                            left.bbox.x1,
                            tolerance,
                        )
                    };
                    if !separated {
                        proof {
                            assert(spec_mergeable_pair(
                                *table,
                                edges@,
                                tolerance,
                                horizontal,
                                li as int,
                                ri as int,
                            ));
                        }
                        return Some((li, ri));
                    }
                    proof {
                        assert(!spec_mergeable_pair(
                            *table,
                            edges@,
                            tolerance,
                            horizontal,
                            li as int,
                            ri as int,
                        ));
                    }
                } else {
                    proof {
                        assert(!spec_mergeable_pair(
                            *table,
                            edges@,
                            tolerance,
                            horizontal,
                            li as int,
                            ri as int,
                        ));
                    }
                }
            } else {
                proof {
                    assert(!spec_mergeable_pair(
                        *table,
                        edges@,
                        tolerance,
                        horizontal,
                        li as int,
                        ri as int,
                    ));
                }
            }
            ri += 1;
        }
        li += 1;
    }
    None
}

/// The saturating sum of a grid index and a span.
fn wrapping_sum(a: usize, b: usize) -> (r: usize)
    ensures
        r == if a + b <= usize::MAX { a + b } else { usize::MAX as int },
{
    if b <= usize::MAX - a {
        a + b
    } else {
        usize::MAX
    }
}

/// Whether a vertical edge runs along x = `x` covering the rows from
/// `top` to `bottom`, within the tolerance.
fn has_separating_vertical(edges: &Vec<Edge>, x: i64, top: i64, bottom: i64, tol: i64) -> (r: bool)
    ensures
        r == spec_has_separating_vertical(edges@, x, top, bottom, tol),
{
    let mut i: usize = 0;
    while i < edges.len()
        invariant
            0 <= i <= edges@.len(),
            forall|k: int|
                0 <= k < i ==> !((#[trigger] edges@[k]).is_v()
                    && -(tol as int) <= edges@[k].x0 - x <= tol as int
                    && edges@[k].top <= top + tol as int
                    && edges@[k].bottom >= bottom - tol as int),
        decreases edges@.len() - i,
    {
        let e = &edges[i];
        let dx: i128 = e.x0 as i128 - x as i128;
        if e.is_vertical() && -(tol as i128) <= dx && dx <= tol as i128
            && (e.top as i128) <= top as i128 + tol as i128
            && (e.bottom as i128) >= bottom as i128 - tol as i128 {
            return true;
        }
        i += 1;
    }
    false
}

/// Whether a horizontal edge runs along y = `y` covering the columns from
/// `x0` to `x1`, within the tolerance.
fn has_separating_horizontal(edges: &Vec<Edge>, y: i64, x0: i64, x1: i64, tol: i64) -> (r: bool)
    ensures
        r == spec_has_separating_horizontal(edges@, y, x0, x1, tol),
{
    let mut i: usize = 0;
    while i < edges.len()
        invariant
            0 <= i <= edges@.len(),
            forall|k: int|
                0 <= k < i ==> !((#[trigger] edges@[k]).is_h()
                    && -(tol as int) <= edges@[k].top - y <= tol as int
                    && edges@[k].x0 <= x0 + tol as int && edges@[k].x1 >= x1 - tol as int),
        decreases edges@.len() - i,
    {
        let e = &edges[i];
        let dy: i128 = e.top as i128 - y as i128;
        if e.is_horizontal() && -(tol as i128) <= dy && dy <= tol as i128
            && (e.x0 as i128) <= x0 as i128 + tol as i128
            && (e.x1 as i128) >= x1 as i128 - tol as i128 {
            return true;
        }
        i += 1;
    }
    false
}

/// Absorb cell `ri` into cell `li`: widen the span, join the boxes, and
/// concatenate the texts with a space (across) or a line break (down).
fn apply_merge(table: &mut Table, li: usize, ri: usize, horizontal: bool)
    requires
        cells_in_grid(*old(table)),
        li < old(table).cells@.len(),
        ri < old(table).cells@.len(),
        li != ri,
    ensures
        cells_in_grid(*final(table)),
        final(table).row_count == old(table).row_count,
        final(table).col_count == old(table).col_count,
        final(table).bbox == old(table).bbox,
        final(table).cells@.len() == old(table).cells@.len() - 1,
        ({
            // The absorbed cell is gone; the absorbing one keeps its
            // position, widens its span, takes the union box and the
            // joined text; every other cell only shifts.
            let left = old(table).cells@[li as int];
            let right = old(table).cells@[ri as int];
            let li2: int = if (li as int) < ri as int { li as int } else { li as int - 1 };
            let merged = final(table).cells@[li2];
            &&& merged.row == left.row && merged.col == left.col
            &&& merged.row_span == (if horizontal {
                left.row_span
            } else {
                sat_usize(left.row_span + right.row_span)
            })
            &&& merged.col_span == (if horizontal {
                sat_usize(left.col_span + right.col_span)
            } else {
                left.col_span
            })
            &&& merged.bbox == left.bbox.spec_union(right.bbox)
            &&& merged.text@ == spec_merged_text(left.text@, right.text@, horizontal)
            &&& forall|k: int|
                0 <= k < final(table).cells@.len() && k != li2
                    ==> (#[trigger] final(table).cells@[k]) == old(table).cells@[
                    if k < ri { k } else { k + 1 }
                ]
        }),
{
    let right = table.cells[ri].clone();
    let left = table.cells[li].clone();
    let mut text = left.text;
    if right.text.as_str().unicode_len() > 0 {
        if text.as_str().unicode_len() > 0 {
            if horizontal {
                push_char(&mut text, ' ');
            } else {
                push_char(&mut text, '\n');
            }
        }
        text.append(right.text.as_str());
    }
    let merged = TableCell {
        row: left.row,
        col: left.col,
        row_span: if horizontal { left.row_span } else { wrapping_sum(left.row_span, right.row_span) },
        col_span: if horizontal { wrapping_sum(left.col_span, right.col_span) } else { left.col_span },
        text,
        bbox: left.bbox.union(&right.bbox),
    };
    table.cells.set(li, merged);
    let ghost mid = table.cells@;
    proof {
        assert forall|k: int|
            0 <= k < mid.len() implies (#[trigger] mid[k]).row < table.row_count
                && mid[k].col < table.col_count by {
            if k != li {
                assert(mid[k] == old(table).cells@[k]);
            }
        }
    }
    table.cells.remove(ri);
    proof {
        assert forall|k: int|
            0 <= k < table.cells@.len() implies (#[trigger] table.cells@[k]).row < table.row_count
                && table.cells@[k].col < table.col_count by {
            if k < ri {
                assert(table.cells@[k] == mid[k]);
            } else {
                assert(table.cells@[k] == mid[k + 1]);
            }
        }
    }
}

} // verus!

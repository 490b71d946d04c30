use vstd::prelude::*;
use vstd::pervasive::VecAdditionalExecFns;
use crate::bbox::BBox;
use crate::edges::{Edge, snap_edges, merge_edges, find_intersections};
use crate::objects::{Char, Line, Rect, Word};
use crate::settings::{Strategy, TableSettings};
use crate::table::{Table, TableCell};
use crate::words::group_chars_to_words;
use crate::cluster::{cluster_values, sort_i64, is_clustering};
use crate::fx::{min_i64, max_i64, div_floor_i128, SCALE};
use crate::trusted::{push_char, is_unicode_white};

verus! {

/// A candidate cell found between adjacent grid coordinates.
pub struct CellRect {
    pub bbox: BBox,
    pub row_idx: usize,
    pub col_idx: usize,
}

/// The invariant every detected table satisfies: it has cells, each cell
/// sits inside the declared grid, and no cell is merged yet.
pub open spec fn table_wf(t: Table) -> bool {
    &&& t.cells@.len() > 0
    &&& forall|k: int|
        0 <= k < t.cells@.len() ==> (#[trigger] t.cells@[k]).row < t.row_count
            && t.cells@[k].col < t.col_count && t.cells@[k].row_span == 1
            && t.cells@[k].col_span == 1
            && t.cells@[k].bbox.x0 <= t.cells@[k].bbox.x1
            && t.cells@[k].bbox.top <= t.cells@[k].bbox.bottom
}

/// Keeping a sorted run deduplicated: a value within `tol` of the last
/// kept one is dropped.
pub open spec fn spec_dedup_from(s: Seq<i64>, tol: i64, last: i64, i: int) -> Seq<i64>
    decreases s.len() - i,
{
    if i < 0 || i >= s.len() {
        Seq::empty()
    } else if -(tol as int) < s[i] - last < tol as int {
        spec_dedup_from(s, tol, last, i + 1)
    } else {
        seq![s[i]] + spec_dedup_from(s, tol, s[i], i + 1)
    }
}

/// The tolerance-deduplicated form of a sorted run: the first value of
/// each `tol`-chain survives.
pub open spec fn spec_dedup(s: Seq<i64>, tol: i64) -> Seq<i64> {
    if s.len() == 0 {
        Seq::empty()
    } else {
        seq![s[0]] + spec_dedup_from(s, tol, s[0], 1)
    }
}

/// The first index whose value lies within `tol` of `v`; the length when
/// none does.
pub open spec fn spec_position_from(vals: Seq<i64>, v: i64, tol: i64, i: int) -> int
    decreases vals.len() - i,
{
    if i < 0 || i >= vals.len() {
        vals.len() as int
    } else if -(tol as int) < vals[i] - v < tol as int {
        i
    } else {
        spec_position_from(vals, v, tol, i + 1)
    }
}

/// How a detected table numbers its grid: the row and column counts are
/// the tolerance-deduplicated counts of its cells' distinct tops and
/// lefts, and each cell's indices point at its own coordinates in those
/// lists.
pub open spec fn table_counts_derived(t: Table, iy: i64, ix: i64) -> bool {
    exists|tops: Seq<i64>, lefts: Seq<i64>|
        {
            &&& tops.to_multiset() == Seq::new(
                t.cells@.len(),
                |k: int| t.cells@[k].bbox.top,
            ).to_multiset()
            &&& #[trigger] sorted_i64(tops)
            &&& lefts.to_multiset() == Seq::new(
                t.cells@.len(),
                |k: int| t.cells@[k].bbox.x0,
            ).to_multiset()
            &&& #[trigger] sorted_i64(lefts)
            &&& t.row_count == spec_dedup(tops, iy).len()
            &&& t.col_count == spec_dedup(lefts, ix).len()
            &&& forall|k: int|
                0 <= k < t.cells@.len() ==> (#[trigger] t.cells@[k]).row as int == (
                if spec_position_from(spec_dedup(tops, iy), t.cells@[k].bbox.top, iy, 0)
                    < spec_dedup(tops, iy).len() {
                    spec_position_from(spec_dedup(tops, iy), t.cells@[k].bbox.top, iy, 0)
                } else {
                    0
                }) && t.cells@[k].col as int == (
                if spec_position_from(spec_dedup(lefts, ix), t.cells@[k].bbox.x0, ix, 0)
                    < spec_dedup(lefts, ix).len() {
                    spec_position_from(spec_dedup(lefts, ix), t.cells@[k].bbox.x0, ix, 0)
                } else {
                    0
                })
        }
}

/// Whether a run is nondecreasing.
pub open spec fn sorted_i64(s: Seq<i64>) -> bool {
    forall|p: int, q: int| 0 <= p < q < s.len() ==> s[p] <= s[q]
}

/// Detect tables on a page: collect edges by the configured strategies,
/// filter, snap and merge them, find their crossings, build cells between
/// adjacent crossings, and group touching cells into tables.
pub fn detect_tables(
    lines: &Vec<Line>,
    rects: &Vec<Rect>,
    chars: &Vec<Char>,
    page_width: i64,
    page_height: i64,
    settings: &TableSettings,
) -> (r: Vec<Table>)
    requires
        chars@.len() < 0x4000_0000_0000_0000,
    ensures
        forall|k: int| 0 <= k < r@.len() ==> table_wf(#[trigger] r@[k]),
        forall|k: int|
            0 <= k < r@.len() ==> table_counts_derived(
                #[trigger] r@[k],
                settings.spec_intersection_y(),
                settings.spec_intersection_x(),
            ),
{
    let edges0 = collect_edges(lines, rects, chars, page_width, page_height, settings);
    if edges0.len() == 0 {
        return Vec::new();
    }
    let edges1 = filter_short_edges(&edges0, settings.edge_min_length);
    if edges1.len() == 0 {
        return Vec::new();
    }
    let sx = nonneg(settings.snap_x());
    let sy = nonneg(settings.snap_y());
    let edges2 = snap_edges(&edges1, sx, sy);
    let jx = settings.join_x();
    let jy = settings.join_y();
    let edges = merge_edges(&edges2, max_i64(jx, jy));
    let ix = nonneg(settings.intersection_x());
    let iy = nonneg(settings.intersection_y());
    let intersections = find_intersections(&edges, ix, iy);
    if intersections.len() < 4 {
        return Vec::new();
    }
    let cells = build_cells(&intersections, &edges, settings);
    if cells.len() == 0 {
        return Vec::new();
    }
    group_cells_into_tables(&cells, chars, settings)
}

/// Clamp a tolerance to zero when negative.
fn nonneg(v: i64) -> (r: i64)
    ensures
        r == if v >= 0 { v as int } else { 0int },
        r >= 0,
{
    if v >= 0 {
        v
    } else {
        0
    }
}

/// The vertical edge a vertical drawn line contributes.
pub open spec fn v_edge_of_line(l: Line) -> Edge {
    (Edge {
        x0: l.x0,
        top: if l.top <= l.bottom { l.top } else { l.bottom },
        x1: l.x0,
        bottom: if l.top >= l.bottom { l.top } else { l.bottom },
        width: l.width,
        orientation: crate::edges::Orientation::Vertical,
    })
}

/// The horizontal edge a horizontal drawn line contributes.
pub open spec fn h_edge_of_line(l: Line) -> Edge {
    (Edge {
        x0: if l.x0 <= l.x1 { l.x0 } else { l.x1 },
        top: l.top,
        x1: if l.x0 >= l.x1 { l.x0 } else { l.x1 },
        bottom: l.top,
        width: l.width,
        orientation: crate::edges::Orientation::Horizontal,
    })
}

/// The vertical edges of the drawn lines, in order.
pub open spec fn v_line_edges(ls: Seq<Line>) -> Seq<Edge> {
    ls.filter(|l: Line| l.x0 == l.x1).map_values(|l: Line| v_edge_of_line(l))
}

/// The horizontal edges of the drawn lines, in order.
pub open spec fn h_line_edges(ls: Seq<Line>) -> Seq<Edge> {
    ls.filter(|l: Line| l.y0 == l.y1).map_values(|l: Line| h_edge_of_line(l))
}

/// What the vertical pass of edge collection yields under the line
/// strategies: the vertical drawn lines, then both sides of every
/// rectangle.
pub open spec fn v_lines_part(ls: Seq<Line>, rs: Seq<Rect>, part: Seq<Edge>) -> bool {
    ({
        let base = v_line_edges(ls).len();
        &&& part.len() == base + 2 * rs.len()
        &&& part.subrange(0, base as int) == v_line_edges(ls)
        &&& forall|j: int|
            0 <= j < rs.len() ==> (#[trigger] part[base + 2 * j]) == (Edge {
                x0: rs[j].x0,
                top: if rs[j].top <= rs[j].bottom { rs[j].top } else { rs[j].bottom },
                x1: rs[j].x0,
                bottom: if rs[j].top >= rs[j].bottom { rs[j].top } else { rs[j].bottom },
                width: rs[j].linewidth,
                orientation: crate::edges::Orientation::Vertical,
            }) && part[base + 2 * j + 1] == (Edge {
                x0: rs[j].x1,
                top: if rs[j].top <= rs[j].bottom { rs[j].top } else { rs[j].bottom },
                x1: rs[j].x1,
                bottom: if rs[j].top >= rs[j].bottom { rs[j].top } else { rs[j].bottom },
                width: rs[j].linewidth,
                orientation: crate::edges::Orientation::Vertical,
            })
    })
}

/// What the horizontal pass yields under the line strategies.
pub open spec fn h_lines_part(ls: Seq<Line>, rs: Seq<Rect>, part: Seq<Edge>) -> bool {
    ({
        let base = h_line_edges(ls).len();
        &&& part.len() == base + 2 * rs.len()
        &&& part.subrange(0, base as int) == h_line_edges(ls)
        &&& forall|j: int|
            0 <= j < rs.len() ==> (#[trigger] part[base + 2 * j]) == (Edge {
                x0: if rs[j].x0 <= rs[j].x1 { rs[j].x0 } else { rs[j].x1 },
                top: rs[j].top,
                x1: if rs[j].x0 >= rs[j].x1 { rs[j].x0 } else { rs[j].x1 },
                bottom: rs[j].top,
                width: rs[j].linewidth,
                orientation: crate::edges::Orientation::Horizontal,
            }) && part[base + 2 * j + 1] == (Edge {
                x0: if rs[j].x0 <= rs[j].x1 { rs[j].x0 } else { rs[j].x1 },
                top: rs[j].bottom,
                x1: if rs[j].x0 >= rs[j].x1 { rs[j].x0 } else { rs[j].x1 },
                bottom: rs[j].bottom,
                width: rs[j].linewidth,
                orientation: crate::edges::Orientation::Horizontal,
            })
    })
}

/// What the explicit strategy yields on one axis.
pub open spec fn explicit_v_part(xs: Seq<i64>, page_height: i64, part: Seq<Edge>) -> bool {
    &&& part.len() == xs.len()
    &&& forall|j: int|
        0 <= j < xs.len() ==> (#[trigger] part[j]) == (Edge {
            x0: xs[j],
            top: if 0 <= page_height { 0i64 } else { page_height },
            x1: xs[j],
            bottom: if 0 >= page_height { 0i64 } else { page_height },
            width: SCALE as i64,
            orientation: crate::edges::Orientation::Vertical,
        })
}

pub open spec fn explicit_h_part(ys: Seq<i64>, page_width: i64, part: Seq<Edge>) -> bool {
    &&& part.len() == ys.len()
    &&& forall|j: int|
        0 <= j < ys.len() ==> (#[trigger] part[j]) == (Edge {
            x0: if 0 <= page_width { 0i64 } else { page_width },
            top: ys[j],
            x1: if 0 >= page_width { 0i64 } else { page_width },
            bottom: ys[j],
            width: SCALE as i64,
            orientation: crate::edges::Orientation::Horizontal,
        })
}

/// Collect candidate edges for both axes according to the strategies:
/// drawn lines and rectangle sides, text-inferred boundaries, or explicit
/// coordinates. Under the line strategies the result is exactly the
/// oriented drawn lines and rectangle sides; under the explicit strategy
/// exactly the full-extent edges of the given coordinates; text-inferred
/// edges come from the clustering pass.
pub fn collect_edges(
    lines: &Vec<Line>,
    rects: &Vec<Rect>,
    chars: &Vec<Char>,
    page_width: i64,
    page_height: i64,
    settings: &TableSettings,
) -> (r: Vec<Edge>)
    requires
        chars@.len() < 0x4000_0000_0000_0000,
    ensures
        exists|vpart: Seq<Edge>, hpart: Seq<Edge>|
            {
                &&& r@ == #[trigger] (vpart + hpart)
                &&& (settings.vertical_strategy == Strategy::Lines || settings.vertical_strategy
                    == Strategy::LinesStrict ==> v_lines_part(lines@, rects@, vpart))
                &&& (settings.vertical_strategy == Strategy::Explicit ==> explicit_v_part(
                    settings.explicit_vertical_lines@,
                    page_height,
                    vpart,
                ))
                &&& (settings.horizontal_strategy == Strategy::Lines
                    || settings.horizontal_strategy == Strategy::LinesStrict ==> h_lines_part(
                    lines@,
                    rects@,
                    hpart,
                ))
                &&& (settings.horizontal_strategy == Strategy::Explicit ==> explicit_h_part(
                    settings.explicit_horizontal_lines@,
                    page_width,
                    hpart,
                ))
            },
{
    let mut edges = collect_vertical(lines, rects, chars, page_height, settings);
    let ghost vpart = edges@;
    let mut hedges = collect_horizontal(lines, rects, chars, page_width, settings);
    let ghost hpart = hedges@;
    edges.append(&mut hedges);
    proof {
        assert(edges@ == vpart + hpart);
    }
    edges
}

/// The vertical half of edge collection.
fn collect_vertical(
    lines: &Vec<Line>,
    rects: &Vec<Rect>,
    chars: &Vec<Char>,
    page_height: i64,
    settings: &TableSettings,
) -> (r: Vec<Edge>)
    requires
        chars@.len() < 0x4000_0000_0000_0000,
    ensures
        settings.vertical_strategy == Strategy::Lines || settings.vertical_strategy
            == Strategy::LinesStrict ==> v_lines_part(lines@, rects@, r@),
        settings.vertical_strategy == Strategy::Explicit ==> explicit_v_part(
            settings.explicit_vertical_lines@,
            page_height,
            r@,
        ),
{
    let mut edges: Vec<Edge> = Vec::new();
    match settings.vertical_strategy {
        Strategy::Lines | Strategy::LinesStrict => {
            let mut i: usize = 0;
            while i < lines.len()
                invariant
                    0 <= i <= lines@.len(),
                    edges@ =~= v_line_edges(lines@.take(i as int)),
                decreases lines@.len() - i,
            {
                let l = &lines[i];
                if l.is_vertical() {
                    edges.push(Edge::vertical(l.x0, l.top, l.bottom, l.width));
                }
                proof {
                    reveal_with_fuel(Seq::<Line>::filter, 1);
                    let f = |l: Line| l.x0 == l.x1;
                    let t1 = lines@.take(i as int + 1);
                    assert(t1.drop_last() =~= lines@.take(i as int));
                    assert(t1.last() == lines@[i as int]);
                    assert(t1.filter(f) == if f(lines@[i as int]) {
                        t1.drop_last().filter(f).push(lines@[i as int])
                    } else {
                        t1.drop_last().filter(f)
                    });
                    assert(edges@ =~= v_line_edges(t1));
                }
                i += 1;
            }
            proof {
                assert(lines@.take(lines@.len() as int) =~= lines@);
            }
            let ghost base = edges@.len();
            let mut j: usize = 0;
            while j < rects.len()
                invariant
                    0 <= j <= rects@.len(),
                    base == v_line_edges(lines@).len(),
                    edges@.len() == base + 2 * j,
                    edges@.subrange(0, base as int) =~= v_line_edges(lines@),
                    forall|q: int|
                        0 <= q < j ==> (#[trigger] edges@[base + 2 * q]) == (Edge {
                            x0: rects@[q].x0,
                            top: if rects@[q].top <= rects@[q].bottom {
                                rects@[q].top
                            } else {
                                rects@[q].bottom
                            },
                            x1: rects@[q].x0,
                            bottom: if rects@[q].top >= rects@[q].bottom {
                                rects@[q].top
                            } else {
                                rects@[q].bottom
                            },
                            width: rects@[q].linewidth,
                            orientation: crate::edges::Orientation::Vertical,
                        }) && edges@[base + 2 * q + 1] == (Edge {
                            x0: rects@[q].x1,
                            top: if rects@[q].top <= rects@[q].bottom {
                                rects@[q].top
                            } else {
                                rects@[q].bottom
                            },
                            x1: rects@[q].x1,
                            bottom: if rects@[q].top >= rects@[q].bottom {
                                rects@[q].top
                            } else {
                                rects@[q].bottom
                            },
                            width: rects@[q].linewidth,
                            orientation: crate::edges::Orientation::Vertical,
                        }),
                decreases rects@.len() - j,
            {
                let rc = &rects[j];
                edges.push(Edge::vertical(rc.x0, rc.top, rc.bottom, rc.linewidth));
                edges.push(Edge::vertical(rc.x1, rc.top, rc.bottom, rc.linewidth));
                j += 1;
            }
        },
        Strategy::Text => {
            let words = group_chars_to_words(chars, settings.text_x(), settings.text_y());
            let mut text_edges = infer_vertical_edges_from_text(&words, settings);
            edges.append(&mut text_edges);
        },
        Strategy::Explicit => {
            let mut k: usize = 0;
            while k < settings.explicit_vertical_lines.len()
                invariant
                    0 <= k <= settings.explicit_vertical_lines@.len(),
                    edges@.len() == k,
                    forall|q: int|
                        0 <= q < k ==> (#[trigger] edges@[q]) == (Edge {
                            x0: settings.explicit_vertical_lines@[q],
                            top: if 0 <= page_height { 0i64 } else { page_height },
                            x1: settings.explicit_vertical_lines@[q],
                            bottom: if 0 >= page_height { 0i64 } else { page_height },
                            width: SCALE as i64,
                            orientation: crate::edges::Orientation::Vertical,
                        }),
                decreases settings.explicit_vertical_lines@.len() - k,
            {
                let x = settings.explicit_vertical_lines[k];
                edges.push(Edge::vertical(x, 0, page_height, SCALE));
                k += 1;
            }
        },
    }
    edges
}

/// The horizontal half of edge collection.
fn collect_horizontal(
    lines: &Vec<Line>,
    rects: &Vec<Rect>,
    chars: &Vec<Char>,
    page_width: i64,
    settings: &TableSettings,
) -> (r: Vec<Edge>)
    requires
        chars@.len() < 0x4000_0000_0000_0000,
    ensures
        settings.horizontal_strategy == Strategy::Lines || settings.horizontal_strategy
            == Strategy::LinesStrict ==> h_lines_part(lines@, rects@, r@),
        settings.horizontal_strategy == Strategy::Explicit ==> explicit_h_part(
            settings.explicit_horizontal_lines@,
            page_width,
            r@,
        ),
{
    let mut edges: Vec<Edge> = Vec::new();
    match settings.horizontal_strategy {
        Strategy::Lines | Strategy::LinesStrict => {
            let mut i: usize = 0;
            while i < lines.len()
                invariant
                    0 <= i <= lines@.len(),
                    edges@ =~= h_line_edges(lines@.take(i as int)),
                decreases lines@.len() - i,
            {
                let l = &lines[i];
                if l.is_horizontal() {
                    edges.push(Edge::horizontal(l.x0, l.x1, l.top, l.width));
                }
                proof {
                    reveal_with_fuel(Seq::<Line>::filter, 1);
                    let f = |l: Line| l.y0 == l.y1;
                    let t1 = lines@.take(i as int + 1);
                    assert(t1.drop_last() =~= lines@.take(i as int));
                    assert(t1.last() == lines@[i as int]);
                    assert(t1.filter(f) == if f(lines@[i as int]) {
                        t1.drop_last().filter(f).push(lines@[i as int])
                    } else {
                        t1.drop_last().filter(f)
                    });
                    assert(edges@ =~= h_line_edges(t1));
                }
                i += 1;
            }
            proof {
                assert(lines@.take(lines@.len() as int) =~= lines@);
            }
            let ghost base = edges@.len();
            let mut j: usize = 0;
            while j < rects.len()
                invariant
                    0 <= j <= rects@.len(),
                    base == h_line_edges(lines@).len(),
                    edges@.len() == base + 2 * j,
                    edges@.subrange(0, base as int) =~= h_line_edges(lines@),
                    forall|q: int|
                        0 <= q < j ==> (#[trigger] edges@[base + 2 * q]) == (Edge {
                            x0: if rects@[q].x0 <= rects@[q].x1 {
                                rects@[q].x0
                            } else {
                                rects@[q].x1
                            },
                            top: rects@[q].top,
                            x1: if rects@[q].x0 >= rects@[q].x1 {
                                rects@[q].x0
                            } else {
                                rects@[q].x1
                            },
                            bottom: rects@[q].top,
                            width: rects@[q].linewidth,
                            orientation: crate::edges::Orientation::Horizontal,
                        }) && edges@[base + 2 * q + 1] == (Edge {
                            x0: if rects@[q].x0 <= rects@[q].x1 {
                                rects@[q].x0
                            } else {
                                rects@[q].x1
                            },
                            top: rects@[q].bottom,
                            x1: if rects@[q].x0 >= rects@[q].x1 {
                                rects@[q].x0
                            } else {
                                rects@[q].x1
                            },
                            bottom: rects@[q].bottom,
                            width: rects@[q].linewidth,
                            orientation: crate::edges::Orientation::Horizontal,
                        }),
                decreases rects@.len() - j,
            {
                let rc = &rects[j];
                edges.push(Edge::horizontal(rc.x0, rc.x1, rc.top, rc.linewidth));
                edges.push(Edge::horizontal(rc.x0, rc.x1, rc.bottom, rc.linewidth));
                j += 1;
            }
        },
        Strategy::Text => {
            let words = group_chars_to_words(chars, settings.text_x(), settings.text_y());
            let mut text_edges = infer_horizontal_edges_from_text(&words, settings);
            edges.append(&mut text_edges);
        },
        Strategy::Explicit => {
            let mut k: usize = 0;
            while k < settings.explicit_horizontal_lines.len()
                invariant
                    0 <= k <= settings.explicit_horizontal_lines@.len(),
                    edges@.len() == k,
                    forall|q: int|
                        0 <= q < k ==> (#[trigger] edges@[q]) == (Edge {
                            x0: if 0 <= page_width { 0i64 } else { page_width },
                            top: settings.explicit_horizontal_lines@[q],
                            x1: if 0 >= page_width { 0i64 } else { page_width },
                            bottom: settings.explicit_horizontal_lines@[q],
                            width: SCALE as i64,
                            orientation: crate::edges::Orientation::Horizontal,
                        }),
                decreases settings.explicit_horizontal_lines@.len() - k,
            {
                let y = settings.explicit_horizontal_lines[k];
                edges.push(Edge::horizontal(0, page_width, y, SCALE));
                k += 1;
            }
        },
    }
    edges
}

/// The floored mean of the values a cluster selects out of `vals`.
fn cluster_mean(vals: &Vec<i64>, cluster: &Vec<usize>) -> (r: i64)
    requires
        cluster@.len() > 0,
        cluster@.len() < 0x4000_0000_0000_0000,
        forall|t: int| 0 <= t < cluster@.len() ==> (#[trigger] cluster@[t]) < vals@.len(),
    ensures
        true,
{
    let m = cluster.len();
    let mut sum: i128 = 0;
    let mut t: usize = 0;
    while t < m
        invariant
            m == cluster@.len(),
            m < 0x4000_0000_0000_0000,
            0 <= t <= m,
            forall|q: int| 0 <= q < m ==> (#[trigger] cluster@[q]) < vals@.len(),
            -(t as int) * 0x8000_0000_0000_0000 <= sum <= (t as int) * 0x8000_0000_0000_0000,
        decreases m - t,
    {
        let v = vals[cluster[t]];
        proof {
            lemma_mean_sum_step(sum as int, v as int, t as int);
        }
        sum = sum + v as i128;
        t += 1;
    }
    proof {
        lemma_mean_sum_bound(sum as int, m as int);
    }
    let q = div_floor_i128(sum, m as i128);
    if q > i64::MAX as i128 {
        i64::MAX
    } else if q < i64::MIN as i128 {
        i64::MIN
    } else {
        q as i64
    }
}

proof fn lemma_mean_sum_step(sum: int, v: int, t: int)
    requires
        t >= 0,
        -t * 0x8000_0000_0000_0000 <= sum <= t * 0x8000_0000_0000_0000,
        -0x8000_0000_0000_0000 <= v <= 0x8000_0000_0000_0000,
    ensures
        -(t + 1) * 0x8000_0000_0000_0000 <= sum + v <= (t + 1) * 0x8000_0000_0000_0000,
{
    assert((t + 1) * 0x8000_0000_0000_0000 == t * 0x8000_0000_0000_0000 + 0x8000_0000_0000_0000)
        by (nonlinear_arith);
    assert(-(t + 1) * 0x8000_0000_0000_0000 == -t * 0x8000_0000_0000_0000 - 0x8000_0000_0000_0000)
        by (nonlinear_arith);
}

proof fn lemma_mean_sum_bound(sum: int, m: int)
    requires
        0 < m < 0x4000_0000_0000_0000,
        -m * 0x8000_0000_0000_0000 <= sum <= m * 0x8000_0000_0000_0000,
    ensures
        sum > i128::MIN + m,
{
    assert(m * 0x8000_0000_0000_0000 < 0x4000_0000_0000_0000 * 0x8000_0000_0000_0000)
        by (nonlinear_arith)
        requires 0 < m < 0x4000_0000_0000_0000;
}

/// Vertical edges inferred from word alignment: every large enough
/// cluster of left or right word borders yields a full-height boundary at
/// the cluster mean.
pub fn infer_vertical_edges_from_text(words: &Vec<Word>, settings: &TableSettings) -> (r: Vec<Edge>)
    requires
        words@.len() < 0x4000_0000_0000_0000,
{
    let mut edges: Vec<Edge> = Vec::new();
    let n = words.len();
    if n == 0 {
        return edges;
    }
    let mut y_min: i64 = i64::MAX;
    let mut y_max: i64 = i64::MIN;
    let mut i: usize = 0;
    while i < n
        invariant
            n == words@.len(),
            0 <= i <= n,
        decreases n - i,
    {
        y_min = min_i64(y_min, words[i].top);
        y_max = max_i64(y_max, words[i].bottom);
        i += 1;
    }

    let mut x0s: Vec<i64> = Vec::new();
    let mut k: usize = 0;
    while k < n
        invariant
            n == words@.len(),
            0 <= k <= n,
            x0s@.len() == k,
        decreases n - k,
    {
        x0s.push(words[k].x0);
        k += 1;
    }
    push_cluster_edges_v(&mut edges, &x0s, settings.text_x(), settings.min_words_vertical, y_min, y_max);

    let mut x1s: Vec<i64> = Vec::new();
    let mut k2: usize = 0;
    while k2 < n
        invariant
            n == words@.len(),
            0 <= k2 <= n,
            x1s@.len() == k2,
        decreases n - k2,
    {
        x1s.push(words[k2].x1);
        k2 += 1;
    }
    push_cluster_edges_v(&mut edges, &x1s, settings.text_x(), settings.min_words_vertical, y_min, y_max);

    edges
}

/// Push one vertical edge per qualifying cluster of `vals`.
fn push_cluster_edges_v(edges: &mut Vec<Edge>, vals: &Vec<i64>, tol: i64, min_count: usize, y_min: i64, y_max: i64)
    requires
        vals@.len() < 0x4000_0000_0000_0000,
{
    let clusters = cluster_values(vals, tol);
    let ghost cl = clusters.deep_view();
    proof {
        lemma_cluster_member_bounds(vals@, tol as int, cl);
    }
    let mut c: usize = 0;
    while c < clusters.len()
        invariant
            cl == clusters.deep_view(),
            0 <= c <= clusters@.len(),
            cl.len() == clusters@.len(),
            vals@.len() < 0x4000_0000_0000_0000,
            forall|a: int| 0 <= a < cl.len() ==> (#[trigger] cl[a]).len() <= vals@.len(),
            forall|a: int, b: int|
                0 <= a < cl.len() && 0 <= b < cl[a].len() ==> (#[trigger] cl[a][b]) < vals@.len(),
        decreases clusters@.len() - c,
    {
        let cluster = &clusters[c];
        if cluster.len() >= min_count && cluster.len() > 0 {
            proof {
                assert(cl[c as int] == cluster@);
            }
            let mean = cluster_mean(vals, cluster);
            edges.push(Edge::vertical(mean, y_min, y_max, 500));
        }
        c += 1;
    }
}

/// In any clustering each group's members index the clustered values and
/// no group outgrows them.
proof fn lemma_cluster_member_bounds(vals: Seq<i64>, tol: int, cl: Seq<Seq<usize>>)
    requires
        is_clustering(vals, tol, cl),
    ensures
        forall|a: int| 0 <= a < cl.len() ==> (#[trigger] cl[a]).len() <= vals.len(),
        forall|a: int, b: int|
            0 <= a < cl.len() && 0 <= b < cl[a].len() ==> (#[trigger] cl[a][b]) < vals.len(),
{
    broadcast use vstd::seq_lib::group_to_multiset_ensures;

    let flat = cl.flatten();
    let full = Seq::new(vals.len(), |i: int| i as usize);
    assert(flat.to_multiset().len() == full.to_multiset().len());
    assert(flat.len() == vals.len());
    assert forall|a: int| 0 <= a < cl.len() implies (#[trigger] cl[a]).len() <= vals.len() by {
        cl.lemma_flatten_and_flatten_alt_are_equivalent();
        cl.lemma_flatten_length_ge_single_element_length(a);
    }
}

/// Horizontal edges inferred from word alignment: clusters of word tops
/// and bottoms yield full-width boundaries.
pub fn infer_horizontal_edges_from_text(words: &Vec<Word>, settings: &TableSettings) -> (r: Vec<Edge>)
    requires
        words@.len() < 0x4000_0000_0000_0000,
{
    let mut edges: Vec<Edge> = Vec::new();
    let n = words.len();
    if n == 0 {
        return edges;
    }
    let mut x_min: i64 = i64::MAX;
    let mut x_max: i64 = i64::MIN;
    let mut i: usize = 0;
    while i < n
        invariant
            n == words@.len(),
            0 <= i <= n,
        decreases n - i,
    {
        x_min = min_i64(x_min, words[i].x0);
        x_max = max_i64(x_max, words[i].x1);
        i += 1;
    }

    let mut tops: Vec<i64> = Vec::new();
    let mut k: usize = 0;
    while k < n
        invariant
            n == words@.len(),
            0 <= k <= n,
            tops@.len() == k,
        decreases n - k,
    {
        tops.push(words[k].top);
        k += 1;
    }
    push_cluster_edges_h(&mut edges, &tops, settings.text_y(), settings.min_words_horizontal, x_min, x_max);

    let mut bottoms: Vec<i64> = Vec::new();
    let mut k2: usize = 0;
    while k2 < n
        invariant
            n == words@.len(),
            0 <= k2 <= n,
            bottoms@.len() == k2,
        decreases n - k2,
    {
        bottoms.push(words[k2].bottom);
        k2 += 1;
    }
    push_cluster_edges_h(&mut edges, &bottoms, settings.text_y(), settings.min_words_horizontal, x_min, x_max);

    edges
}

/// Push one horizontal edge per qualifying cluster of `vals`.
fn push_cluster_edges_h(edges: &mut Vec<Edge>, vals: &Vec<i64>, tol: i64, min_count: usize, x_min: i64, x_max: i64)
    requires
        vals@.len() < 0x4000_0000_0000_0000,
{
    let clusters = cluster_values(vals, tol);
    let ghost cl = clusters.deep_view();
    proof {
        lemma_cluster_member_bounds(vals@, tol as int, cl);
    }
    let mut c: usize = 0;
    while c < clusters.len()
        invariant
            cl == clusters.deep_view(),
            0 <= c <= clusters@.len(),
            cl.len() == clusters@.len(),
            vals@.len() < 0x4000_0000_0000_0000,
            forall|a: int| 0 <= a < cl.len() ==> (#[trigger] cl[a]).len() <= vals@.len(),
            forall|a: int, b: int|
                0 <= a < cl.len() && 0 <= b < cl[a].len() ==> (#[trigger] cl[a][b]) < vals@.len(),
        decreases clusters@.len() - c,
    {
        let cluster = &clusters[c];
        if cluster.len() >= min_count && cluster.len() > 0 {
            proof {
                assert(cl[c as int] == cluster@);
            }
            let mean = cluster_mean(vals, cluster);
            edges.push(Edge::horizontal(x_min, x_max, mean, 500));
        }
        c += 1;
    }
}

/// Keep only edges at least `min_len` long.
fn filter_short_edges(edges: &Vec<Edge>, min_len: i64) -> (r: Vec<Edge>)
{
    let mut r: Vec<Edge> = Vec::new();
    let mut i: usize = 0;
    while i < edges.len()
        invariant
            0 <= i <= edges@.len(),
        decreases edges@.len() - i,
    {
        if edges[i].length() >= min_len {
            r.push(edges[i]);
        }
        i += 1;
    }
    r
}

/// Sort values ascending and drop any value within `tol` of the one kept
/// before it: the grid coordinates of the cell lattice.
fn sorted_dedup(vals: &Vec<i64>, tol: i64) -> (r: Vec<i64>)
    ensures
        forall|p: int, q: int| 0 <= p < q < r@.len() ==> r@[p] <= r@[q],
        r@.len() <= vals@.len(),
        vals@.len() > 0 ==> r@.len() > 0,
        exists|sorted: Seq<i64>|
            sorted.to_multiset() == vals@.to_multiset() && #[trigger] sorted_i64(sorted) && r@
                == spec_dedup(sorted, tol),
{
    let mut sorted: Vec<i64> = Vec::new();
    let mut i: usize = 0;
    while i < vals.len()
        invariant
            0 <= i <= vals@.len(),
            sorted@ =~= vals@.take(i as int),
        decreases vals@.len() - i,
    {
        sorted.push(vals[i]);
        i += 1;
    }
    proof {
        assert(sorted@ =~= vals@);
    }
    let ghost vals0 = vals@;
    sort_i64(&mut sorted);
    let ghost sorted_seq = sorted@;
    let mut r: Vec<i64> = Vec::new();
    let mut k: usize = 0;
    while k < sorted.len()
        invariant
            0 <= k <= sorted@.len(),
            sorted@ == sorted_seq,
            sorted@.to_multiset() == vals0.to_multiset(),
            vals0 == vals@,
            r@.len() <= k,
            k > 0 ==> r@.len() > 0,
            forall|p: int, q: int| 0 <= p < q < sorted@.len() ==> sorted@[p] <= sorted@[q],
            forall|p: int| 0 <= p < r@.len() ==> exists|q: int|
                0 <= q < k && (#[trigger] r@[p]) == sorted@[q],
            forall|p: int, q: int| 0 <= p < q < r@.len() ==> r@[p] <= r@[q],
            r@.len() > 0 ==> exists|q: int| 0 <= q < k && r@.last() == sorted@[q],
            k == 0 ==> r@.len() == 0,
            k > 0 ==> spec_dedup(sorted@, tol) == r@ + spec_dedup_from(
                sorted@,
                tol,
                r@.last(),
                k as int,
            ),
        decreases sorted@.len() - k,
    {
        let v = sorted[k];
        let push_it: bool = if r.len() == 0 {
            true
        } else {
            let last = r[r.len() - 1];
            let d: i128 = v as i128 - last as i128;
            !(d < tol as i128 && d > -(tol as i128))
        };
        let ghost pre = r@;
        if push_it {
            proof {
                if pre.len() > 0 {
                    let lq = choose|q: int| 0 <= q < k && pre.last() == (#[trigger] sorted@[q]);
                    assert(sorted@[lq] <= sorted@[k as int]);
                }
            }
            r.push(v);
            proof {
                assert forall|p: int, q: int| 0 <= p < q < r@.len() implies r@[p] <= r@[q] by {
                    if q == r@.len() - 1 && pre.len() > 0 {
                        assert(r@[p] == pre[p]);
                        if p < pre.len() - 1 {
                            assert(pre[p] <= pre.last());
                        }
                    }
                }
                assert(r@.last() == sorted@[k as int]);
                if k == 0 {
                    assert(r@ =~= seq![sorted@[0]]);
                    assert(spec_dedup(sorted@, tol) == r@ + spec_dedup_from(
                        sorted@,
                        tol,
                        r@.last(),
                        k as int + 1,
                    ));
                } else {
                    assert(spec_dedup_from(sorted@, tol, pre.last(), k as int)
                        == seq![sorted@[k as int]] + spec_dedup_from(
                        sorted@,
                        tol,
                        sorted@[k as int],
                        k as int + 1,
                    ));
                    assert(r@ =~= pre + seq![sorted@[k as int]]);
                    assert(r@ + spec_dedup_from(sorted@, tol, r@.last(), k as int + 1)
                        =~= pre + (seq![sorted@[k as int]] + spec_dedup_from(
                        sorted@,
                        tol,
                        sorted@[k as int],
                        k as int + 1,
                    )));
                }
            }
        } else {
            proof {
                assert(pre.len() > 0);
                assert(spec_dedup_from(sorted@, tol, pre.last(), k as int)
                    == spec_dedup_from(sorted@, tol, pre.last(), k as int + 1));
            }
        }
        k += 1;
    }
    proof {
        if sorted@.len() == 0 {
            assert(r@ =~= spec_dedup(sorted@, tol));
        } else {
            assert(spec_dedup_from(sorted@, tol, r@.last(), sorted@.len() as int)
                =~= Seq::<i64>::empty());
            assert(r@ + Seq::<i64>::empty() =~= r@);
        }
        assert(sorted_i64(sorted_seq));
    }
    r
}

/// Whether some collected point lies within the tolerances of (x, y).
pub fn has_point(points: &Vec<(i64, i64)>, x: i64, y: i64, tol_x: i64, tol_y: i64) -> (r: bool)
    ensures
        r == exists|k: int|
            0 <= k < points@.len()
                && -(tol_x as int) <= (#[trigger] points@[k]).0 - x <= tol_x as int
                && -(tol_y as int) <= points@[k].1 - y <= tol_y as int,
{
    let mut i: usize = 0;
    while i < points.len()
        invariant
            0 <= i <= points@.len(),
            forall|k: int|
                0 <= k < i ==> !(-(tol_x as int) <= (#[trigger] points@[k]).0 - x <= tol_x as int
                    && -(tol_y as int) <= points@[k].1 - y <= tol_y as int),
        decreases points@.len() - i,
    {
        let p = points[i];
        let dx: i128 = p.0 as i128 - x as i128;
        let dy: i128 = p.1 as i128 - y as i128;
        if -(tol_x as i128) <= dx && dx <= tol_x as i128 && -(tol_y as i128) <= dy
            && dy <= tol_y as i128 {
            return true;
        }
        i += 1;
    }
    false
}

/// Whether an edge of the wanted orientation runs along `fixed` covering
/// the span from `start` to `end`, within the tolerances.
fn has_edge_between(
    edges: &Vec<Edge>,
    start: i64,
    end: i64,
    fixed: i64,
    horizontal: bool,
    tol_x: i64,
    tol_y: i64,
) -> (r: bool)
{
    let mut i: usize = 0;
    while i < edges.len()
        invariant
            0 <= i <= edges@.len(),
        decreases edges@.len() - i,
    {
        let e = &edges[i];
        if horizontal {
            let dt: i128 = e.top as i128 - fixed as i128;
            if e.is_horizontal() && -(tol_y as i128) <= dt && dt <= tol_y as i128
                && (e.x0 as i128) <= start as i128 + tol_x as i128
                && (e.x1 as i128) >= end as i128 - tol_x as i128 {
                return true;
            }
        } else {
            let dx: i128 = e.x0 as i128 - fixed as i128;
            if e.is_vertical() && -(tol_x as i128) <= dx && dx <= tol_x as i128
                && (e.top as i128) <= start as i128 + tol_y as i128
                && (e.bottom as i128) >= end as i128 - tol_y as i128 {
                return true;
            }
        }
        i += 1;
    }
    false
}

/// Build candidate cells: every pair of adjacent grid coordinates whose
/// four corners are all crossings and which has a top and bottom, or a
/// left and right, bounding edge.
fn build_cells(
    intersections: &Vec<(i64, i64)>,
    edges: &Vec<Edge>,
    settings: &TableSettings,
) -> (r: Vec<CellRect>)
    ensures
        forall|k: int|
            0 <= k < r@.len() ==> (#[trigger] r@[k]).bbox.x0 <= r@[k].bbox.x1
                && r@[k].bbox.top <= r@[k].bbox.bottom,
{
    let tol_x = settings.intersection_x();
    let tol_y = settings.intersection_y();

    let mut xs0: Vec<i64> = Vec::new();
    let mut ys0: Vec<i64> = Vec::new();
    let mut i: usize = 0;
    while i < intersections.len()
        invariant
            0 <= i <= intersections@.len(),
        decreases intersections@.len() - i,
    {
        xs0.push(intersections[i].0);
        ys0.push(intersections[i].1);
        i += 1;
    }
    let xs = sorted_dedup(&xs0, tol_x);
    let ys = sorted_dedup(&ys0, tol_y);

    let mut cells: Vec<CellRect> = Vec::new();
    if xs.len() < 2 || ys.len() < 2 {
        return cells;
    }
    let nxs = xs.len();
    let nys = ys.len();
    let mut yi: usize = 0;
    while yi < nys - 1
        invariant
            nxs == xs@.len(),
            nys == ys@.len(),
            xs@.len() >= 2,
            ys@.len() >= 2,
            0 <= yi <= ys@.len() - 1,
            forall|p: int, q: int| 0 <= p < q < xs@.len() ==> xs@[p] <= xs@[q],
            forall|p: int, q: int| 0 <= p < q < ys@.len() ==> ys@[p] <= ys@[q],
            forall|k: int|
                0 <= k < cells@.len() ==> (#[trigger] cells@[k]).bbox.x0 <= cells@[k].bbox.x1
                    && cells@[k].bbox.top <= cells@[k].bbox.bottom,
        decreases ys@.len() - 1 - yi,
    {
        let mut xj: usize = 0;
        while xj < nxs - 1
            invariant
                nxs == xs@.len(),
                nys == ys@.len(),
                xs@.len() >= 2,
                ys@.len() >= 2,
                0 <= yi < ys@.len() - 1,
                0 <= xj <= xs@.len() - 1,
                forall|p: int, q: int| 0 <= p < q < xs@.len() ==> xs@[p] <= xs@[q],
                forall|p: int, q: int| 0 <= p < q < ys@.len() ==> ys@[p] <= ys@[q],
                forall|k: int|
                    0 <= k < cells@.len() ==> (#[trigger] cells@[k]).bbox.x0 <= cells@[k].bbox.x1
                        && cells@[k].bbox.top <= cells@[k].bbox.bottom,
            decreases xs@.len() - 1 - xj,
        {
            let x0 = xs[xj];
            let x1 = xs[xj + 1];
            let y0 = ys[yi];
            let y1 = ys[yi + 1];
            let has_tl = has_point(intersections, x0, y0, tol_x, tol_y);
            let has_tr = has_point(intersections, x1, y0, tol_x, tol_y);
            let has_bl = has_point(intersections, x0, y1, tol_x, tol_y);
            let has_br = has_point(intersections, x1, y1, tol_x, tol_y);
            if has_tl && has_tr && has_bl && has_br {
                let has_top = has_edge_between(edges, x0, x1, y0, true, tol_x, tol_y);
                let has_bottom = has_edge_between(edges, x0, x1, y1, true, tol_x, tol_y);
                let has_left = has_edge_between(edges, y0, y1, x0, false, tol_x, tol_y);
                let has_right = has_edge_between(edges, y0, y1, x1, false, tol_x, tol_y);
                if (has_top && has_bottom) || (has_left && has_right) {
                    cells.push(
                        CellRect {
                            bbox: BBox { x0, top: y0, x1, bottom: y1 },
                            row_idx: yi,
                            col_idx: xj,
                        },
                    );
                }
            }
            xj += 1;
        }
        yi += 1;
    }
    cells
}

/// Whether two cells touch along an edge, within a one-unit tolerance:
/// they agree on a horizontal or vertical border and overlap on the other
/// axis.
pub open spec fn spec_cells_adjacent(a: CellRect, b: CellRect) -> bool {
    ({
        let tol = SCALE as int;
        let near_y = -tol < a.bbox.top - b.bbox.top < tol || -tol < a.bbox.bottom - b.bbox.bottom
            < tol || -tol < a.bbox.top - b.bbox.bottom < tol || -tol < a.bbox.bottom - b.bbox.top
            < tol;
        let near_x = -tol < a.bbox.x0 - b.bbox.x0 < tol || -tol < a.bbox.x1 - b.bbox.x1 < tol
            || -tol < a.bbox.x0 - b.bbox.x1 < tol || -tol < a.bbox.x1 - b.bbox.x0 < tol;
        (near_y && a.bbox.x0 < b.bbox.x1 + tol && a.bbox.x1 > b.bbox.x0 - tol) || (near_x
            && a.bbox.top < b.bbox.bottom + tol && a.bbox.bottom > b.bbox.top - tol)
    })
}

pub fn cells_adjacent(a: &CellRect, b: &CellRect) -> (r: bool)
    ensures
        r == spec_cells_adjacent(*a, *b),
{
    let tol: i128 = SCALE as i128;
    let a_top = a.bbox.top as i128;
    let a_bottom = a.bbox.bottom as i128;
    let a_x0 = a.bbox.x0 as i128;
    let a_x1 = a.bbox.x1 as i128;
    let b_top = b.bbox.top as i128;
    let b_bottom = b.bbox.bottom as i128;
    let b_x0 = b.bbox.x0 as i128;
    let b_x1 = b.bbox.x1 as i128;

    let share_horizontal = (near128(a_top, b_top, tol) || near128(a_bottom, b_bottom, tol)
        || near128(a_top, b_bottom, tol) || near128(a_bottom, b_top, tol)) && a_x0 < b_x1 + tol
        && a_x1 > b_x0 - tol;
    let share_vertical = (near128(a_x0, b_x0, tol) || near128(a_x1, b_x1, tol)
        || near128(a_x0, b_x1, tol) || near128(a_x1, b_x0, tol)) && a_top < b_bottom + tol
        && a_bottom > b_top - tol;
    share_horizontal || share_vertical
}

/// Whether two coordinates lie strictly within `tol` of each other.
fn near128(p: i128, q: i128, tol: i128) -> (r: bool)
    requires
        -0x1_0000_0000_0000_0000 <= p <= 0x1_0000_0000_0000_0000,
        -0x1_0000_0000_0000_0000 <= q <= 0x1_0000_0000_0000_0000,
        0 <= tol <= 0x1_0000_0000_0000_0000,
    ensures
        r == (p - q < tol && q - p < tol),
{
    p - q < tol && q - p < tol
}

/// Group touching cells into connected components and turn each into a
/// table: rows and columns renumbered from the sorted distinct cell tops
/// and lefts, cell text gathered from the characters inside each box.
fn group_cells_into_tables(cells: &Vec<CellRect>, chars: &Vec<Char>, settings: &TableSettings) -> (r: Vec<Table>)
    requires
        cells@.len() > 0,
        forall|k: int|
            0 <= k < cells@.len() ==> (#[trigger] cells@[k]).bbox.x0 <= cells@[k].bbox.x1
                && cells@[k].bbox.top <= cells@[k].bbox.bottom,
    ensures
        forall|k: int| 0 <= k < r@.len() ==> table_wf(#[trigger] r@[k]),
        forall|k: int|
            0 <= k < r@.len() ==> table_counts_derived(
                #[trigger] r@[k],
                settings.spec_intersection_y(),
                settings.spec_intersection_x(),
            ),
{
    let n = cells.len();
    // Flood-fill component labels: n marks "unassigned".
    let mut labels: Vec<usize> = Vec::new();
    let mut i: usize = 0;
    while i < n
        invariant
            0 <= i <= n,
            labels@.len() == i,
            forall|t: int| 0 <= t < i ==> (#[trigger] labels@[t]) == n,
        decreases n - i,
    {
        labels.push(n);
        i += 1;
    }
    let mut unassigned: usize = n;
    proof {
        lemma_count_all_marked(labels@, n as int, labels@.len() as int);
    }
    let mut seed: usize = 0;
    while seed < n
        invariant
            n == cells@.len(),
            labels@.len() == n,
            0 <= seed <= n,
            unassigned <= n,
            unassigned == count_unassigned(labels@, n as int, labels@.len() as int),
        decreases n - seed,
    {
        if labels[seed] == n {
            let ghost pre = labels@;
            proof {
                lemma_count_set(pre, n as int, seed as int, pre.len() as int);
            }
            labels.set(seed, seed);
            unassigned = unassigned - 1;
            let mut stack: Vec<usize> = Vec::new();
            stack.push(seed);
            loop
                invariant
                    n == cells@.len(),
                    labels@.len() == n,
                    0 <= seed < n,
                    unassigned <= n,
                    unassigned == count_unassigned(labels@, n as int, labels@.len() as int),
                    forall|t: int| 0 <= t < stack@.len() ==> (#[trigger] stack@[t]) < n,
                decreases unassigned, stack@.len(),
            {
                let top = match stack.pop() {
                    Some(c) => c,
                    None => {
                        break;
                    },
                };
                let ghost loop_unassigned = unassigned as int;
                let ghost popped_len = stack@.len() as int;
                let mut j: usize = 0;
                while j < n
                    invariant
                        n == cells@.len(),
                        labels@.len() == n,
                        0 <= seed < n,
                        0 <= j <= n,
                        top < n,
                        unassigned <= n,
                        unassigned == count_unassigned(labels@, n as int, labels@.len() as int),
                        unassigned <= loop_unassigned,
                        stack@.len() == popped_len + loop_unassigned - unassigned,
                        forall|t: int| 0 <= t < stack@.len() ==> (#[trigger] stack@[t]) < n,
                    decreases n - j,
                {
                    if labels[j] == n && cells_adjacent(&cells[top], &cells[j]) {
                        let ghost pre2 = labels@;
                        proof {
                            lemma_count_set(pre2, n as int, j as int, pre2.len() as int);
                        }
                        labels.set(j, seed);
                        unassigned = unassigned - 1;
                        stack.push(j);
                    }
                    j += 1;
                }
            }
        }
        seed += 1;
    }

    // One table per component seed.
    let mut tables: Vec<Table> = Vec::new();
    let mut s: usize = 0;
    while s < n
        invariant
            n == cells@.len(),
            labels@.len() == n,
            0 <= s <= n,
            forall|k: int|
                0 <= k < cells@.len() ==> (#[trigger] cells@[k]).bbox.x0 <= cells@[k].bbox.x1
                    && cells@[k].bbox.top <= cells@[k].bbox.bottom,
            forall|k: int| 0 <= k < tables@.len() ==> table_wf(#[trigger] tables@[k]),
            forall|k: int|
                0 <= k < tables@.len() ==> table_counts_derived(
                    #[trigger] tables@[k],
                    settings.spec_intersection_y(),
                    settings.spec_intersection_x(),
                ),
        decreases n - s,
    {
        // Gather the members of component `s`.
        let mut members: Vec<usize> = Vec::new();
        let mut m: usize = 0;
        while m < n
            invariant
                n == cells@.len(),
                labels@.len() == n,
                0 <= m <= n,
                forall|t: int| 0 <= t < members@.len() ==> (#[trigger] members@[t]) < n,
            decreases n - m,
        {
            if labels[m] == s {
                members.push(m);
            }
            m += 1;
        }
        if members.len() > 0 {
            tables.push(build_table(cells, chars, &members, settings));
        }
        s += 1;
    }
    tables
}

/// How many labels still carry the "unassigned" mark `n`.
pub open spec fn count_unassigned(labels: Seq<usize>, n: int, upto: int) -> int
    decreases upto,
{
    if upto <= 0 {
        0
    } else {
        count_unassigned(labels, n, upto - 1) + if labels[upto - 1] == n {
            1int
        } else {
            0int
        }
    }
}

/// Assigning one unassigned label lowers the unassigned count by one.
proof fn lemma_count_set(labels: Seq<usize>, n: int, at: int, upto: int)
    requires
        0 <= at < labels.len(),
        labels[at] == n,
        at < upto <= labels.len(),
    ensures
        forall|v: usize|
            v != n ==> count_unassigned(labels.update(at, v), n, upto)
                == count_unassigned(labels, n, upto) - 1,
        count_unassigned(labels, n, upto) >= 1,
    decreases upto,
{
    lemma_count_nonneg(labels, n, at);
    if upto > at + 1 {
        lemma_count_set(labels, n, at, upto - 1);
        assert forall|v: usize| v != n implies count_unassigned(labels.update(at, v), n, upto)
            == count_unassigned(labels, n, upto) - 1 by {
            assert(labels.update(at, v)[upto - 1] == labels[upto - 1]);
        }
    } else {
        assert forall|v: usize| v != n implies count_unassigned(labels.update(at, v), n, upto)
            == count_unassigned(labels, n, upto) - 1 by {
            lemma_count_prefix_same(labels, labels.update(at, v), n, at);
        }
    }
}

/// The unassigned count is never negative.
proof fn lemma_count_nonneg(labels: Seq<usize>, n: int, upto: int)
    ensures
        count_unassigned(labels, n, upto) >= 0,
    decreases upto,
{
    if upto > 0 {
        lemma_count_nonneg(labels, n, upto - 1);
    }
}

/// When every label is the mark, the count is the length.
proof fn lemma_count_all_marked(labels: Seq<usize>, n: int, upto: int)
    requires
        0 <= upto <= labels.len(),
        forall|t: int| 0 <= t < labels.len() ==> (#[trigger] labels[t]) as int == n,
    ensures
        count_unassigned(labels, n, upto) == upto,
    decreases upto,
{
    if upto > 0 {
        lemma_count_all_marked(labels, n, upto - 1);
    }
}

/// Counting stops caring about positions the two label rows agree on.
proof fn lemma_count_prefix_same(a: Seq<usize>, b: Seq<usize>, n: int, upto: int)
    requires
        a.len() == b.len(),
        forall|t: int| 0 <= t < upto ==> a[t] == b[t],
        upto <= a.len(),
    ensures
        count_unassigned(a, n, upto) == count_unassigned(b, n, upto),
    decreases upto,
{
    if upto > 0 {
        lemma_count_prefix_same(a, b, n, upto - 1);
    }
}

/// Assemble one table from a component's member cells.
fn build_table(cells: &Vec<CellRect>, chars: &Vec<Char>, members: &Vec<usize>, settings: &TableSettings) -> (t: Table)
    requires
        members@.len() > 0,
        forall|k: int| 0 <= k < members@.len() ==> (#[trigger] members@[k]) < cells@.len(),
        forall|k: int|
            0 <= k < cells@.len() ==> (#[trigger] cells@[k]).bbox.x0 <= cells@[k].bbox.x1
                && cells@[k].bbox.top <= cells@[k].bbox.bottom,
    ensures
        table_wf(t),
        table_counts_derived(t, settings.spec_intersection_y(), settings.spec_intersection_x()),
{
    let mc = members.len();
    let first = &cells[members[0]];
    let mut bbox = first.bbox;
    let mut tops: Vec<i64> = Vec::new();
    let mut lefts: Vec<i64> = Vec::new();
    let mut k: usize = 0;
    while k < mc
        invariant
            mc == members@.len(),
            0 <= k <= mc,
            tops@.len() == k,
            lefts@.len() == k,
            forall|q: int| 0 <= q < k ==> (#[trigger] tops@[q]) == cells@[members@[q] as int].bbox.top,
            forall|q: int|
                0 <= q < k ==> (#[trigger] lefts@[q]) == cells@[members@[q] as int].bbox.x0,
            forall|q: int| 0 <= q < mc ==> (#[trigger] members@[q]) < cells@.len(),
        decreases mc - k,
    {
        let cell = &cells[members[k]];
        bbox = bbox.union(&cell.bbox);
        tops.push(cell.bbox.top);
        lefts.push(cell.bbox.x0);
        k += 1;
    }
    let row_ys = sorted_dedup(&tops, settings.intersection_y());
    let col_xs = sorted_dedup(&lefts, settings.intersection_x());
    let ghost iy = settings.spec_intersection_y();
    let ghost ix = settings.spec_intersection_x();
    let ghost tops_w = choose|ss: Seq<i64>|
        ss.to_multiset() == tops@.to_multiset() && #[trigger] sorted_i64(ss) && row_ys@
            == spec_dedup(ss, iy);
    let ghost lefts_w = choose|ss: Seq<i64>|
        ss.to_multiset() == lefts@.to_multiset() && #[trigger] sorted_i64(ss) && col_xs@
            == spec_dedup(ss, ix);
    let row_count = row_ys.len();
    let col_count = col_xs.len();

    let mut table_cells: Vec<TableCell> = Vec::new();
    let mut k2: usize = 0;
    while k2 < mc
        invariant
            mc == members@.len(),
            0 <= k2 <= mc,
            row_count == row_ys@.len(),
            col_count == col_xs@.len(),
            row_count > 0,
            col_count > 0,
            iy == settings.spec_intersection_y(),
            ix == settings.spec_intersection_x(),
            tops_w.to_multiset() == tops@.to_multiset(),
            sorted_i64(tops_w),
            row_ys@ == spec_dedup(tops_w, iy),
            lefts_w.to_multiset() == lefts@.to_multiset(),
            sorted_i64(lefts_w),
            col_xs@ == spec_dedup(lefts_w, ix),
            tops@.len() == mc,
            lefts@.len() == mc,
            forall|q: int| 0 <= q < mc ==> (#[trigger] tops@[q]) == cells@[members@[q] as int].bbox.top,
            forall|q: int|
                0 <= q < mc ==> (#[trigger] lefts@[q]) == cells@[members@[q] as int].bbox.x0,
            table_cells@.len() == k2,
            forall|q: int| 0 <= q < mc ==> (#[trigger] members@[q]) < cells@.len(),
            forall|q: int|
                0 <= q < cells@.len() ==> (#[trigger] cells@[q]).bbox.x0 <= cells@[q].bbox.x1
                    && cells@[q].bbox.top <= cells@[q].bbox.bottom,
            forall|q: int|
                0 <= q < table_cells@.len() ==> (#[trigger] table_cells@[q]).row < row_count
                    && table_cells@[q].col < col_count && table_cells@[q].row_span == 1
                    && table_cells@[q].col_span == 1
                    && table_cells@[q].bbox.x0 <= table_cells@[q].bbox.x1
                    && table_cells@[q].bbox.top <= table_cells@[q].bbox.bottom,
            forall|q: int|
                0 <= q < table_cells@.len() ==> (#[trigger] table_cells@[q]).bbox
                    == cells@[members@[q] as int].bbox,
            forall|q: int|
                0 <= q < table_cells@.len() ==> (#[trigger] table_cells@[q]).row as int == (
                if spec_position_from(row_ys@, table_cells@[q].bbox.top, iy, 0) < row_ys@.len() {
                    spec_position_from(row_ys@, table_cells@[q].bbox.top, iy, 0)
                } else {
                    0
                }) && table_cells@[q].col as int == (
                if spec_position_from(col_xs@, table_cells@[q].bbox.x0, ix, 0) < col_xs@.len() {
                    spec_position_from(col_xs@, table_cells@[q].bbox.x0, ix, 0)
                } else {
                    0
                }),
        decreases mc - k2,
    {
        let cell = &cells[members[k2]];
        let row = position_within(&row_ys, cell.bbox.top, settings.intersection_y());
        let col = position_within(&col_xs, cell.bbox.x0, settings.intersection_x());
        let text = extract_cell_text(chars, &cell.bbox, settings);
        table_cells.push(
            TableCell { row, col, row_span: 1, col_span: 1, text, bbox: cell.bbox },
        );
        k2 += 1;
    }
    let t = Table { bbox, cells: table_cells, row_count, col_count };
    proof {
        assert(Seq::new(t.cells@.len(), |k: int| t.cells@[k].bbox.top) =~= tops@);
        assert(Seq::new(t.cells@.len(), |k: int| t.cells@[k].bbox.x0) =~= lefts@);
        assert(table_counts_derived(t, iy, ix));
    }
    t
}

/// The first index whose value lies within `tol` of `v`, or zero.
fn position_within(vals: &Vec<i64>, v: i64, tol: i64) -> (r: usize)
    requires
        vals@.len() > 0,
    ensures
        r < vals@.len(),
        r as int == (if spec_position_from(vals@, v, tol, 0) < vals@.len() {
            spec_position_from(vals@, v, tol, 0)
        } else {
            0
        }),
{
    let mut i: usize = 0;
    while i < vals.len()
        invariant
            0 <= i <= vals@.len(),
            vals@.len() > 0,
            spec_position_from(vals@, v, tol, 0) == spec_position_from(vals@, v, tol, i as int),
        decreases vals@.len() - i,
    {
        let d: i128 = vals[i] as i128 - v as i128;
        if d < tol as i128 && -d < tol as i128 {
            proof {
                assert(spec_position_from(vals@, v, tol, i as int) == i as int);
            }
            return i;
        }
        i += 1;
    }
    0
}

/// The text of the characters whose centres fall inside a cell box, in
/// reading order, with line breaks on vertical jumps, trimmed of leading
/// and trailing whitespace.
pub fn extract_cell_text(chars: &Vec<Char>, cell_bbox: &BBox, settings: &TableSettings) -> (r: String)
    ensures
        r@.len() > 0 ==> !is_unicode_white(r@[0]) && !is_unicode_white(r@.last()),
{
    let mut inside: Vec<Char> = Vec::new();
    let mut i: usize = 0;
    while i < chars.len()
        invariant
            0 <= i <= chars@.len(),
        decreases chars@.len() - i,
    {
        let c = &chars[i];
        let cx = mid_i64(c.x0, c.x1);
        let cy = mid_i64(c.top, c.bottom);
        if cell_bbox.contains_point(cx, cy) {
            inside.push(c.clone());
        }
        i += 1;
    }
    if inside.len() == 0 {
        return String::new();
    }
    let n = inside.len();
    let mut order: Vec<usize> = Vec::new();
    let mut k: usize = 0;
    while k < n
        invariant
            0 <= k <= n,
            n == inside@.len(),
            order@.len() == k,
            forall|p: int| 0 <= p < k ==> (#[trigger] order@[p]) < n,
        decreases n - k,
    {
        order.push(k);
        k += 1;
    }
    crate::words::sort_char_indices(&inside, &mut order);

    let mut text = String::new();
    let mut last_top: i64 = inside[order[0]].top;
    let mut p: usize = 0;
    while p < n
        invariant
            n == inside@.len(),
            n == order@.len(),
            0 <= p <= n,
            forall|t: int| 0 <= t < order@.len() ==> (#[trigger] order@[t]) < n,
        decreases n - p,
    {
        let ch = &inside[order[p]];
        let dy: i128 = ch.top as i128 - last_top as i128;
        if dy > settings.text_y() as i128 || dy < -(settings.text_y() as i128) {
            push_char(&mut text, '\n');
            last_top = ch.top;
        }
        text.append(ch.text.as_str());
        p += 1;
    }
    trim_both_white(text.as_str())
}

/// The midpoint of two coordinates.
fn mid_i64(a: i64, b: i64) -> (r: i64)
    ensures
        r == (a as int + b as int) / 2,
{
    let s: i128 = a as i128 + b as i128;
    let h: i128 = div_floor_i128(s, 2);
    h as i64
}

/// Drop leading and trailing whitespace.
fn trim_both_white(s: &str) -> (r: String)
    ensures
        r@.len() > 0 ==> !is_unicode_white(r@[0]) && !is_unicode_white(r@.last()),
{
    let n = s.unicode_len();
    let mut a: usize = 0;
    loop
        invariant
            n == s@.len(),
            0 <= a <= n,
        ensures
            0 <= a <= n,
            a < n ==> !is_unicode_white(s@[a as int]),
        decreases n - a,
    {
        if a == n {
            break;
        }
        if !crate::trusted::char_is_whitespace(s.get_char(a)) {
            break;
        }
        a += 1;
    }
    let mut b: usize = n;
    loop
        invariant
            n == s@.len(),
            0 <= b <= n,
        ensures
            0 <= b <= n,
            b > 0 ==> !is_unicode_white(s@[b - 1]),
        decreases b,
    {
        if b == 0 {
            break;
        }
        if !crate::trusted::char_is_whitespace(s.get_char(b - 1)) {
            break;
        }
        b -= 1;
    }
    if a >= b {
        return String::new();
    }
    let cut = s.substring_char(a, b);
    let r = String::from_str(cut);
    proof {
        assert(r@ == s@.subrange(a as int, b as int));
        assert(r@[0] == s@[a as int]);
        assert(r@.last() == s@[b - 1]);
    }
    r
}

} // verus!

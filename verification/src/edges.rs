use vstd::prelude::*;
use crate::bbox::BBox;
use crate::fx::{sat64, fx_sub, abs_i64, min_i64, max_i64};
use crate::sort::{SortKey, lex3_le, sort_by_key};

verus! {

/// The orientation of a table-detection edge.
#[derive(Debug, Clone, Copy, PartialEq, Eq, Structural)]
pub enum Orientation {
    Horizontal,
    Vertical,
}

/// An axis-aligned edge used by the table detector, in fixed-point
/// coordinates. A horizontal edge has `top == bottom`; a vertical edge has
/// `x0 == x1`.
#[derive(Debug, Clone, Copy, PartialEq, Eq, Structural)]
pub struct Edge {
    pub x0: i64,
    pub top: i64,
    pub x1: i64,
    pub bottom: i64,
    pub width: i64,
    pub orientation: Orientation,
}

impl Edge {
    pub open spec fn is_h(self) -> bool {
        self.orientation == Orientation::Horizontal
    }

    pub open spec fn is_v(self) -> bool {
        self.orientation == Orientation::Vertical
    }

    /// Classify by the longer extent: flatter than tall is horizontal.
    pub fn new(x0: i64, top: i64, x1: i64, bottom: i64, width: i64) -> (e: Edge)
        ensures
            e.x0 == x0 && e.top == top && e.x1 == x1 && e.bottom == bottom && e.width == width,
            e.orientation == (if sat64_abs(top as int, bottom as int) < sat64_abs(x1 as int, x0 as int) {
                Orientation::Horizontal
            } else {
                Orientation::Vertical
            }),
    {
        let dy = abs_i64(fx_sub(top, bottom));
        let dx = abs_i64(fx_sub(x1, x0));
        proof {
            lemma_sat_abs(top as int, bottom as int);
            lemma_sat_abs(x1 as int, x0 as int);
        }
        let orientation = if dy < dx {
            Orientation::Horizontal
        } else {
            Orientation::Vertical
        };
        Edge { x0, top, x1, bottom, width, orientation }
    }

    pub fn horizontal(x0: i64, x1: i64, y: i64, width: i64) -> (e: Edge)
        ensures
            e == (Edge {
                x0: if x0 <= x1 { x0 } else { x1 },
                top: y,
                x1: if x0 >= x1 { x0 } else { x1 },
                bottom: y,
                width,
                orientation: Orientation::Horizontal,
            }),
    {
        Edge {
            x0: min_i64(x0, x1),
            top: y,
            x1: max_i64(x0, x1),
            bottom: y,
            width,
            orientation: Orientation::Horizontal,
        }
    }

    pub fn vertical(x: i64, top: i64, bottom: i64, width: i64) -> (e: Edge)
        ensures
            e == (Edge {
                x0: x,
                top: if top <= bottom { top } else { bottom },
                x1: x,
                bottom: if top >= bottom { top } else { bottom },
                width,
                orientation: Orientation::Vertical,
            }),
    {
        Edge {
            x0: x,
            top: min_i64(top, bottom),
            x1: x,
            bottom: max_i64(top, bottom),
            width,
            orientation: Orientation::Vertical,
        }
    }

    /// The extent along the edge's own axis.
    pub fn length(&self) -> (r: i64)
        ensures
            self.is_h() ==> r == sat64_abs(self.x1 as int, self.x0 as int),
            self.is_v() ==> r == sat64_abs(self.bottom as int, self.top as int),
    {
        proof {
            lemma_sat_abs(self.x1 as int, self.x0 as int);
            lemma_sat_abs(self.bottom as int, self.top as int);
        }
        match self.orientation {
            Orientation::Horizontal => abs_i64(fx_sub(self.x1, self.x0)),
            Orientation::Vertical => abs_i64(fx_sub(self.bottom, self.top)),
        }
    }

    pub fn bbox(&self) -> (r: BBox)
        ensures
            r == (BBox { x0: self.x0, top: self.top, x1: self.x1, bottom: self.bottom }),
    {
        BBox { x0: self.x0, top: self.top, x1: self.x1, bottom: self.bottom }
    }

    pub fn is_horizontal(&self) -> (r: bool)
        ensures
            r == self.is_h(),
    {
        match self.orientation {
            Orientation::Horizontal => true,
            Orientation::Vertical => false,
        }
    }

    pub fn is_vertical(&self) -> (r: bool)
        ensures
            r == self.is_v(),
    {
        match self.orientation {
            Orientation::Vertical => true,
            Orientation::Horizontal => false,
        }
    }
}

/// |a - b|, saturated into the i64 range.
pub open spec fn sat64_abs(a: int, b: int) -> int {
    if sat64(a - b) < 0 {
        sat64(-sat64(a - b))
    } else {
        sat64(a - b)
    }
}

proof fn lemma_sat_abs(a: int, b: int)
    requires
        i64::MIN <= a <= i64::MAX,
        i64::MIN <= b <= i64::MAX,
    ensures
        sat64_abs(a, b) == if a >= b { sat64(a - b) } else { sat64(b - a) },
        sat64_abs(a, b) >= 0,
        a - b <= i64::MAX && b - a <= i64::MAX ==> sat64_abs(a, b) == if a >= b { a - b } else { b - a },
{
}

/// An edge ordered by (top, x0, x1): the walking order used to snap and
/// merge horizontal edges.
#[derive(Debug, Clone, Copy, PartialEq, Eq, Structural)]
pub struct HKey(pub Edge);

impl SortKey for HKey {
    open spec fn key(self) -> (int, int, int) {
        (self.0.top as int, self.0.x0 as int, self.0.x1 as int)
    }

    fn le_key(&self, other: &Self) -> (r: bool)
        ensures
            r == lex3_le(self.key(), other.key()),
    {
        self.0.top < other.0.top
            || (self.0.top == other.0.top
                && (self.0.x0 < other.0.x0
                    || (self.0.x0 == other.0.x0 && self.0.x1 <= other.0.x1)))
    }
}

/// An edge ordered by (x0, top, bottom): the walking order used to snap and
/// merge vertical edges.
#[derive(Debug, Clone, Copy, PartialEq, Eq, Structural)]
pub struct VKey(pub Edge);

impl SortKey for VKey {
    open spec fn key(self) -> (int, int, int) {
        (self.0.x0 as int, self.0.top as int, self.0.bottom as int)
    }

    fn le_key(&self, other: &Self) -> (r: bool)
        ensures
            r == lex3_le(self.key(), other.key()),
    {
        self.0.x0 < other.0.x0
            || (self.0.x0 == other.0.x0
                && (self.0.top < other.0.top
                    || (self.0.top == other.0.top && self.0.bottom <= other.0.bottom)))
    }
}

/// Sorted by the full horizontal walking key (top, x0, x1).
pub open spec fn sorted_h_key(s: Seq<Edge>) -> bool {
    forall|p: int, q: int|
        0 <= p < q < s.len() ==> lex3_le(HKey(s[p]).key(), HKey(s[q]).key())
}

/// Sorted by the full vertical walking key (x0, top, bottom).
pub open spec fn sorted_v_key(s: Seq<Edge>) -> bool {
    forall|p: int, q: int|
        0 <= p < q < s.len() ==> lex3_le(VKey(s[p]).key(), VKey(s[q]).key())
}

pub open spec fn sorted_by_top(s: Seq<Edge>) -> bool {
    forall|p: int, q: int| 0 <= p < q < s.len() ==> s[p].top <= s[q].top
}

pub open spec fn sorted_by_x0(s: Seq<Edge>) -> bool {
    forall|p: int, q: int| 0 <= p < q < s.len() ==> s[p].x0 <= s[q].x0
}

/// A horizontal edge moved onto the snapped coordinate `a`.
pub open spec fn with_top(e: Edge, a: i64) -> Edge {
    (Edge { top: a, bottom: a, ..e })
}

/// A vertical edge moved onto the snapped coordinate `a`.
pub open spec fn with_x(e: Edge, a: i64) -> Edge {
    (Edge { x0: a, x1: a, ..e })
}

/// Snapping a run of horizontal edges, walking from index `i` with the
/// current anchor coordinate: an edge within `tol` of the anchor is moved
/// onto it; otherwise it becomes the new anchor and stays put.
pub open spec fn snap_h_from(s: Seq<Edge>, tol: int, anchor: i64, i: int) -> Seq<Edge>
    decreases s.len() - i,
{
    if i < 0 || i >= s.len() {
        Seq::empty()
    } else if s[i].top - anchor <= tol {
        seq![with_top(s[i], anchor)] + snap_h_from(s, tol, anchor, i + 1)
    } else {
        seq![s[i]] + snap_h_from(s, tol, s[i].top, i + 1)
    }
}

pub open spec fn spec_snap_h(s: Seq<Edge>, tol: int) -> Seq<Edge> {
    if s.len() == 0 {
        s
    } else {
        seq![s[0]] + snap_h_from(s, tol, s[0].top, 1)
    }
}

/// The vertical counterpart of `snap_h_from`, walking on `x0`.
pub open spec fn snap_v_from(s: Seq<Edge>, tol: int, anchor: i64, i: int) -> Seq<Edge>
    decreases s.len() - i,
{
    if i < 0 || i >= s.len() {
        Seq::empty()
    } else if s[i].x0 - anchor <= tol {
        seq![with_x(s[i], anchor)] + snap_v_from(s, tol, anchor, i + 1)
    } else {
        seq![s[i]] + snap_v_from(s, tol, s[i].x0, i + 1)
    }
}

pub open spec fn spec_snap_v(s: Seq<Edge>, tol: int) -> Seq<Edge> {
    if s.len() == 0 {
        s
    } else {
        seq![s[0]] + snap_v_from(s, tol, s[0].x0, 1)
    }
}

/// All pairs of horizontal edges in `s` have snapped coordinates either
/// equal or more than `tol` apart.
pub open spec fn h_separated(s: Seq<Edge>, tol: int) -> bool {
    forall|p: int, q: int|
        0 <= p < s.len() && 0 <= q < s.len()
            && -tol <= (#[trigger] s[p]).top - (#[trigger] s[q]).top <= tol ==> s[p].top == s[q].top
}

pub open spec fn v_separated(s: Seq<Edge>, tol: int) -> bool {
    forall|p: int, q: int|
        0 <= p < s.len() && 0 <= q < s.len()
            && -tol <= (#[trigger] s[p]).x0 - (#[trigger] s[q]).x0 <= tol ==> s[p].x0 == s[q].x0
}

/// Every horizontal edge is flat: its top and bottom coincide.
pub open spec fn h_flat(s: Seq<Edge>) -> bool {
    forall|p: int| 0 <= p < s.len() ==> (#[trigger] s[p]).top == s[p].bottom
}

/// Every vertical edge is thin: its x0 and x1 coincide.
pub open spec fn v_thin(s: Seq<Edge>) -> bool {
    forall|p: int| 0 <= p < s.len() ==> (#[trigger] s[p]).x0 == s[p].x1
}

proof fn lemma_snap_h_from_props(s: Seq<Edge>, tol: int, anchor: i64, i: int)
    requires
        tol >= 0,
        sorted_by_top(s),
        0 <= i,
        forall|j: int| i <= j < s.len() ==> anchor <= (#[trigger] s[j]).top,
    ensures
        snap_h_from(s, tol, anchor, i).len() == if i <= s.len() { s.len() - i } else { 0 },
        forall|m: int|
            0 <= m < snap_h_from(s, tol, anchor, i).len()
                ==> (#[trigger] snap_h_from(s, tol, anchor, i)[m]).top == anchor
                    || snap_h_from(s, tol, anchor, i)[m].top - anchor > tol,
        h_separated(snap_h_from(s, tol, anchor, i), tol),
    decreases s.len() - i,
{
    let out = snap_h_from(s, tol, anchor, i);
    if i < s.len() {
        if s[i].top - anchor <= tol {
            lemma_snap_h_from_props(s, tol, anchor, i + 1);
        } else {
            lemma_snap_h_from_props(s, tol, s[i].top, i + 1);
            let rest = snap_h_from(s, tol, s[i].top, i + 1);
            assert forall|m: int| 0 <= m < out.len()
                implies (#[trigger] out[m]).top == anchor || out[m].top - anchor > tol by {
                if m > 0 {
                    assert(out[m] == rest[m - 1]);
                }
            }
            assert forall|p: int, q: int|
                0 <= p < out.len() && 0 <= q < out.len()
                    && -tol <= (#[trigger] out[p]).top - (#[trigger] out[q]).top <= tol
                    implies out[p].top == out[q].top by {
                if p > 0 && q > 0 {
                    assert(out[p] == rest[p - 1] && out[q] == rest[q - 1]);
                } else if p == 0 && q > 0 {
                    assert(out[q] == rest[q - 1]);
                    assert(rest[q - 1].top == s[i].top || rest[q - 1].top - s[i].top > tol);
                } else if q == 0 && p > 0 {
                    assert(out[p] == rest[p - 1]);
                    assert(rest[p - 1].top == s[i].top || rest[p - 1].top - s[i].top > tol);
                }
            }
        }
    }
}

/// Snapping leaves every pair of snapped coordinates either equal or
/// separated by more than the tolerance.
pub proof fn lemma_snap_h_separated(s: Seq<Edge>, tol: int)
    requires
        tol >= 0,
        sorted_by_top(s),
    ensures
        spec_snap_h(s, tol).len() == s.len(),
        h_separated(spec_snap_h(s, tol), tol),
    decreases s.len(),
{
    if s.len() > 0 {
        lemma_snap_h_from_props(s, tol, s[0].top, 1);
        let out = spec_snap_h(s, tol);
        let rest = snap_h_from(s, tol, s[0].top, 1);
        assert forall|p: int, q: int|
            0 <= p < out.len() && 0 <= q < out.len()
                && -tol <= (#[trigger] out[p]).top - (#[trigger] out[q]).top <= tol
                implies out[p].top == out[q].top by {
            if p > 0 && q > 0 {
                assert(out[p] == rest[p - 1] && out[q] == rest[q - 1]);
            } else if p == 0 && q > 0 {
                assert(out[q] == rest[q - 1]);
                assert(rest[q - 1].top == s[0].top || rest[q - 1].top - s[0].top > tol);
            } else if q == 0 && p > 0 {
                assert(out[p] == rest[p - 1]);
                assert(rest[p - 1].top == s[0].top || rest[p - 1].top - s[0].top > tol);
            }
        }
    }
}

proof fn lemma_snap_h_from_noop(s: Seq<Edge>, tol: int, anchor: i64, i: int)
    requires
        tol >= 0,
        sorted_by_top(s),
        h_separated(s, tol),
        h_flat(s),
        0 <= i,
        exists|k: int| 0 <= k < i && i <= s.len() && (#[trigger] s[k]).top == anchor,
        forall|j: int| i <= j < s.len() ==> anchor <= (#[trigger] s[j]).top,
    ensures
        snap_h_from(s, tol, anchor, i) =~= s.skip(i),
    decreases s.len() - i,
{
    if i < s.len() {
        if s[i].top - anchor <= tol {
            let k = choose|k: int| 0 <= k < i && (#[trigger] s[k]).top == anchor;
            assert(-tol <= s[i].top - s[k].top <= tol);
            assert(s[i].top == anchor);
            assert(with_top(s[i], anchor) == s[i]);
            lemma_snap_h_from_noop(s, tol, anchor, i + 1);
        } else {
            lemma_snap_h_from_noop(s, tol, s[i].top, i + 1);
        }
        assert(s.skip(i) =~= seq![s[i]] + s.skip(i + 1));
    }
}

/// Snapping an already snapped set of horizontal edges changes nothing:
/// applying the snap with the same tolerance twice gives what one pass gave.
pub proof fn lemma_snap_h_idempotent(s: Seq<Edge>, t: Seq<Edge>, tol: int)
    requires
        tol >= 0,
        sorted_by_top(s),
        h_flat(s),
        sorted_by_top(t),
        t.to_multiset() == spec_snap_h(s, tol).to_multiset(),
    ensures
        spec_snap_h(t, tol) == t,
{
    broadcast use vstd::seq_lib::group_to_multiset_ensures;

    lemma_snap_h_separated(s, tol);
    let out = spec_snap_h(s, tol);
    assert(h_flat(out)) by {
        lemma_snap_h_flat(s, tol);
    }
    assert forall|p: int, q: int|
        0 <= p < t.len() && 0 <= q < t.len()
            && -tol <= (#[trigger] t[p]).top - (#[trigger] t[q]).top <= tol
            implies t[p].top == t[q].top by {
        assert(out.contains(t[p])) by {
            assert(t.to_multiset().count(t[p]) > 0);
        }
        assert(out.contains(t[q])) by {
            assert(t.to_multiset().count(t[q]) > 0);
        }
        let ip = choose|ip: int| 0 <= ip < out.len() && out[ip] == t[p];
        let iq = choose|iq: int| 0 <= iq < out.len() && out[iq] == t[q];
        assert(out[ip].top == out[iq].top);
    }
    assert forall|p: int| 0 <= p < t.len() implies (#[trigger] t[p]).top == t[p].bottom by {
        assert(out.contains(t[p])) by {
            assert(t.to_multiset().count(t[p]) > 0);
        }
        let ip = choose|ip: int| 0 <= ip < out.len() && out[ip] == t[p];
        assert(out[ip].top == out[ip].bottom);
    }
    if t.len() > 0 {
        lemma_snap_h_from_noop(t, tol, t[0].top, 1);
        assert(spec_snap_h(t, tol) =~= seq![t[0]] + t.skip(1));
        assert(spec_snap_h(t, tol) =~= t);
    }
}

proof fn lemma_snap_h_flat_from(s: Seq<Edge>, tol: int, anchor: i64, i: int)
    requires
        h_flat(s),
        0 <= i,
    ensures
        h_flat(snap_h_from(s, tol, anchor, i)),
    decreases s.len() - i,
{
    if i < s.len() {
        if s[i].top - anchor <= tol {
            lemma_snap_h_flat_from(s, tol, anchor, i + 1);
        } else {
            lemma_snap_h_flat_from(s, tol, s[i].top, i + 1);
        }
    }
}

/// Snapping keeps horizontal edges flat.
pub proof fn lemma_snap_h_flat(s: Seq<Edge>, tol: int)
    requires
        h_flat(s),
    ensures
        h_flat(spec_snap_h(s, tol)),
{
    if s.len() > 0 {
        lemma_snap_h_flat_from(s, tol, s[0].top, 1);
        let out = spec_snap_h(s, tol);
        let rest = snap_h_from(s, tol, s[0].top, 1);
        assert forall|p: int| 0 <= p < out.len() implies (#[trigger] out[p]).top == out[p].bottom by {
            if p > 0 {
                assert(out[p] == rest[p - 1]);
            }
        }
    }
}

/// Snap the horizontal edges of `hs` (which must be sorted by top): each
/// edge within `tol` of the current anchor is moved onto it.
fn snap_h_exec(hs: &Vec<Edge>, tol: i64) -> (r: Vec<Edge>)
    requires
        tol >= 0,
        sorted_by_top(hs@),
    ensures
        r@ == spec_snap_h(hs@, tol as int),
{
    let mut out: Vec<Edge> = Vec::new();
    let n = hs.len();
    if n == 0 {
        proof {
            assert(out@ =~= spec_snap_h(hs@, tol as int));
        }
        return out;
    }
    let first = hs[0];
    out.push(first);
    let mut anchor: i64 = first.top;
    let mut i: usize = 1;
    while i < n
        invariant
            n == hs@.len(),
            n > 0,
            tol >= 0,
            sorted_by_top(hs@),
            1 <= i <= n,
            forall|j: int| i <= j < n ==> anchor <= (#[trigger] hs@[j]).top,
            out@ + snap_h_from(hs@, tol as int, anchor, i as int)
                =~= spec_snap_h(hs@, tol as int),
        decreases n - i,
    {
        let e = hs[i];
        let diff: i128 = e.top as i128 - anchor as i128;
        if diff <= tol as i128 {
            out.push(Edge { top: anchor, bottom: anchor, ..e });
        } else {
            out.push(e);
            anchor = e.top;
        }
        i += 1;
    }
    proof {
        assert(out@ + snap_h_from(hs@, tol as int, anchor, n as int) =~= out@);
    }
    out
}

/// The vertical counterpart of `snap_h_exec`, walking on `x0`.
fn snap_v_exec(vs: &Vec<Edge>, tol: i64) -> (r: Vec<Edge>)
    requires
        tol >= 0,
        sorted_by_x0(vs@),
    ensures
        r@ == spec_snap_v(vs@, tol as int),
{
    let mut out: Vec<Edge> = Vec::new();
    let n = vs.len();
    if n == 0 {
        proof {
            assert(out@ =~= spec_snap_v(vs@, tol as int));
        }
        return out;
    }
    let first = vs[0];
    out.push(first);
    let mut anchor: i64 = first.x0;
    let mut i: usize = 1;
    while i < n
        invariant
            n == vs@.len(),
            n > 0,
            tol >= 0,
            sorted_by_x0(vs@),
            1 <= i <= n,
            forall|j: int| i <= j < n ==> anchor <= (#[trigger] vs@[j]).x0,
            out@ + snap_v_from(vs@, tol as int, anchor, i as int)
                =~= spec_snap_v(vs@, tol as int),
        decreases n - i,
    {
        let e = vs[i];
        let diff: i128 = e.x0 as i128 - anchor as i128;
        if diff <= tol as i128 {
            out.push(Edge { x0: anchor, x1: anchor, ..e });
        } else {
            out.push(e);
            anchor = e.x0;
        }
        i += 1;
    }
    proof {
        assert(out@ + snap_v_from(vs@, tol as int, anchor, n as int) =~= out@);
    }
    out
}

proof fn lemma_snap_v_from_props(s: Seq<Edge>, tol: int, anchor: i64, i: int)
    requires
        tol >= 0,
        sorted_by_x0(s),
        0 <= i,
        forall|j: int| i <= j < s.len() ==> anchor <= (#[trigger] s[j]).x0,
    ensures
        snap_v_from(s, tol, anchor, i).len() == if i <= s.len() { s.len() - i } else { 0 },
        forall|m: int|
            0 <= m < snap_v_from(s, tol, anchor, i).len()
                ==> (#[trigger] snap_v_from(s, tol, anchor, i)[m]).x0 == anchor
                    || snap_v_from(s, tol, anchor, i)[m].x0 - anchor > tol,
        v_separated(snap_v_from(s, tol, anchor, i), tol),
    decreases s.len() - i,
{
    let out = snap_v_from(s, tol, anchor, i);
    if i < s.len() {
        if s[i].x0 - anchor <= tol {
            lemma_snap_v_from_props(s, tol, anchor, i + 1);
        } else {
            lemma_snap_v_from_props(s, tol, s[i].x0, i + 1);
            let rest = snap_v_from(s, tol, s[i].x0, i + 1);
            assert forall|m: int| 0 <= m < out.len()
                implies (#[trigger] out[m]).x0 == anchor || out[m].x0 - anchor > tol by {
                if m > 0 {
                    assert(out[m] == rest[m - 1]);
                }
            }
            assert forall|p: int, q: int|
                0 <= p < out.len() && 0 <= q < out.len()
                    && -tol <= (#[trigger] out[p]).x0 - (#[trigger] out[q]).x0 <= tol
                    implies out[p].x0 == out[q].x0 by {
                if p > 0 && q > 0 {
                    assert(out[p] == rest[p - 1] && out[q] == rest[q - 1]);
                } else if p == 0 && q > 0 {
                    assert(out[q] == rest[q - 1]);
                    assert(rest[q - 1].x0 == s[i].x0 || rest[q - 1].x0 - s[i].x0 > tol);
                } else if q == 0 && p > 0 {
                    assert(out[p] == rest[p - 1]);
                    assert(rest[p - 1].x0 == s[i].x0 || rest[p - 1].x0 - s[i].x0 > tol);
                }
            }
        }
    }
}

/// The vertical counterpart of `lemma_snap_h_separated`.
pub proof fn lemma_snap_v_separated(s: Seq<Edge>, tol: int)
    requires
        tol >= 0,
        sorted_by_x0(s),
    ensures
        spec_snap_v(s, tol).len() == s.len(),
        v_separated(spec_snap_v(s, tol), tol),
{
    if s.len() > 0 {
        lemma_snap_v_from_props(s, tol, s[0].x0, 1);
        let out = spec_snap_v(s, tol);
        let rest = snap_v_from(s, tol, s[0].x0, 1);
        assert forall|p: int, q: int|
            0 <= p < out.len() && 0 <= q < out.len()
                && -tol <= (#[trigger] out[p]).x0 - (#[trigger] out[q]).x0 <= tol
                implies out[p].x0 == out[q].x0 by {
            if p > 0 && q > 0 {
                assert(out[p] == rest[p - 1] && out[q] == rest[q - 1]);
            } else if p == 0 && q > 0 {
                assert(out[q] == rest[q - 1]);
                assert(rest[q - 1].x0 == s[0].x0 || rest[q - 1].x0 - s[0].x0 > tol);
            } else if q == 0 && p > 0 {
                assert(out[p] == rest[p - 1]);
                assert(rest[p - 1].x0 == s[0].x0 || rest[p - 1].x0 - s[0].x0 > tol);
            }
        }
    }
}

proof fn lemma_snap_v_from_noop(s: Seq<Edge>, tol: int, anchor: i64, i: int)
    requires
        tol >= 0,
        sorted_by_x0(s),
        v_separated(s, tol),
        v_thin(s),
        0 <= i,
        exists|k: int| 0 <= k < i && i <= s.len() && (#[trigger] s[k]).x0 == anchor,
        forall|j: int| i <= j < s.len() ==> anchor <= (#[trigger] s[j]).x0,
    ensures
        snap_v_from(s, tol, anchor, i) =~= s.skip(i),
    decreases s.len() - i,
{
    if i < s.len() {
        if s[i].x0 - anchor <= tol {
            let k = choose|k: int| 0 <= k < i && (#[trigger] s[k]).x0 == anchor;
            assert(-tol <= s[i].x0 - s[k].x0 <= tol);
            assert(s[i].x0 == anchor);
            assert(with_x(s[i], anchor) == s[i]);
            lemma_snap_v_from_noop(s, tol, anchor, i + 1);
        } else {
            lemma_snap_v_from_noop(s, tol, s[i].x0, i + 1);
        }
        assert(s.skip(i) =~= seq![s[i]] + s.skip(i + 1));
    }
}

proof fn lemma_snap_v_thin_from(s: Seq<Edge>, tol: int, anchor: i64, i: int)
    requires
        v_thin(s),
        0 <= i,
    ensures
        v_thin(snap_v_from(s, tol, anchor, i)),
    decreases s.len() - i,
{
    if i < s.len() {
        if s[i].x0 - anchor <= tol {
            lemma_snap_v_thin_from(s, tol, anchor, i + 1);
        } else {
            lemma_snap_v_thin_from(s, tol, s[i].x0, i + 1);
        }
    }
}

/// Snapping keeps vertical edges thin.
pub proof fn lemma_snap_v_thin(s: Seq<Edge>, tol: int)
    requires
        v_thin(s),
    ensures
        v_thin(spec_snap_v(s, tol)),
{
    if s.len() > 0 {
        lemma_snap_v_thin_from(s, tol, s[0].x0, 1);
        let out = spec_snap_v(s, tol);
        let rest = snap_v_from(s, tol, s[0].x0, 1);
        assert forall|p: int| 0 <= p < out.len() implies (#[trigger] out[p]).x0 == out[p].x1 by {
            if p > 0 {
                assert(out[p] == rest[p - 1]);
            }
        }
    }
}

/// The vertical counterpart of `lemma_snap_h_idempotent`: snapping an
/// already snapped set of vertical edges changes nothing.
pub proof fn lemma_snap_v_idempotent(s: Seq<Edge>, t: Seq<Edge>, tol: int)
    requires
        tol >= 0,
        sorted_by_x0(s),
        v_thin(s),
        sorted_by_x0(t),
        t.to_multiset() == spec_snap_v(s, tol).to_multiset(),
    ensures
        spec_snap_v(t, tol) == t,
{
    broadcast use vstd::seq_lib::group_to_multiset_ensures;

    lemma_snap_v_separated(s, tol);
    let out = spec_snap_v(s, tol);
    assert(v_thin(out)) by {
        lemma_snap_v_thin(s, tol);
    }
    assert forall|p: int, q: int|
        0 <= p < t.len() && 0 <= q < t.len()
            && -tol <= (#[trigger] t[p]).x0 - (#[trigger] t[q]).x0 <= tol
            implies t[p].x0 == t[q].x0 by {
        assert(out.contains(t[p])) by {
            assert(t.to_multiset().count(t[p]) > 0);
        }
        assert(out.contains(t[q])) by {
            assert(t.to_multiset().count(t[q]) > 0);
        }
        let ip = choose|ip: int| 0 <= ip < out.len() && out[ip] == t[p];
        let iq = choose|iq: int| 0 <= iq < out.len() && out[iq] == t[q];
        assert(out[ip].x0 == out[iq].x0);
    }
    assert forall|p: int| 0 <= p < t.len() implies (#[trigger] t[p]).x0 == t[p].x1 by {
        assert(out.contains(t[p])) by {
            assert(t.to_multiset().count(t[p]) > 0);
        }
        let ip = choose|ip: int| 0 <= ip < out.len() && out[ip] == t[p];
        assert(out[ip].x0 == out[ip].x1);
    }
    if t.len() > 0 {
        lemma_snap_v_from_noop(t, tol, t[0].x0, 1);
        assert(spec_snap_v(t, tol) =~= seq![t[0]] + t.skip(1));
        assert(spec_snap_v(t, tol) =~= t);
    }
}

/// Two horizontal edges on the same line merged: the span and width grow.
pub open spec fn h_merge2(cur: Edge, e: Edge) -> Edge {
    (Edge {
        x1: if cur.x1 >= e.x1 { cur.x1 } else { e.x1 },
        width: if cur.width >= e.width { cur.width } else { e.width },
        ..cur
    })
}

/// Two vertical edges on the same line merged.
pub open spec fn v_merge2(cur: Edge, e: Edge) -> Edge {
    (Edge {
        bottom: if cur.bottom >= e.bottom { cur.bottom } else { e.bottom },
        width: if cur.width >= e.width { cur.width } else { e.width },
        ..cur
    })
}

/// Merging a run of horizontal edges, walking from index `i` with the
/// accumulated edge `cur`: a collinear (within `tol`) edge whose span
/// overlaps or touches `cur` is absorbed; otherwise `cur` is emitted.
pub open spec fn merge_h_from(s: Seq<Edge>, tol: int, cur: Edge, i: int) -> Seq<Edge>
    decreases s.len() - i,
{
    if i < 0 || i >= s.len() {
        seq![cur]
    } else if -tol <= cur.top - s[i].top <= tol && s[i].x0 <= cur.x1 + tol {
        merge_h_from(s, tol, h_merge2(cur, s[i]), i + 1)
    } else {
        seq![cur] + merge_h_from(s, tol, s[i], i + 1)
    }
}

pub open spec fn spec_merge_h(s: Seq<Edge>, tol: int) -> Seq<Edge> {
    if s.len() == 0 {
        s
    } else {
        merge_h_from(s, tol, s[0], 1)
    }
}

/// The vertical counterpart of `merge_h_from`.
pub open spec fn merge_v_from(s: Seq<Edge>, tol: int, cur: Edge, i: int) -> Seq<Edge>
    decreases s.len() - i,
{
    if i < 0 || i >= s.len() {
        seq![cur]
    } else if -tol <= cur.x0 - s[i].x0 <= tol && s[i].top <= cur.bottom + tol {
        merge_v_from(s, tol, v_merge2(cur, s[i]), i + 1)
    } else {
        seq![cur] + merge_v_from(s, tol, s[i], i + 1)
    }
}

pub open spec fn spec_merge_v(s: Seq<Edge>, tol: int) -> Seq<Edge> {
    if s.len() == 0 {
        s
    } else {
        merge_v_from(s, tol, s[0], 1)
    }
}

fn merge_h_exec(hs: &Vec<Edge>, tol: i64) -> (r: Vec<Edge>)
    ensures
        r@ == spec_merge_h(hs@, tol as int),
{
    let mut out: Vec<Edge> = Vec::new();
    let n = hs.len();
    if n == 0 {
        proof {
            assert(out@ =~= spec_merge_h(hs@, tol as int));
        }
        return out;
    }
    let mut cur = hs[0];
    let mut i: usize = 1;
    while i < n
        invariant
            n == hs@.len(),
            n > 0,
            1 <= i <= n,
            out@ + merge_h_from(hs@, tol as int, cur, i as int)
                =~= spec_merge_h(hs@, tol as int),
        decreases n - i,
    {
        let e = hs[i];
        let dt: i128 = cur.top as i128 - e.top as i128;
        let reach: i128 = cur.x1 as i128 + tol as i128;
        if -(tol as i128) <= dt && dt <= tol as i128 && (e.x0 as i128) <= reach {
            cur = Edge {
                x1: max_i64(cur.x1, e.x1),
                width: max_i64(cur.width, e.width),
                ..cur
            };
        } else {
            out.push(cur);
            cur = e;
        }
        i += 1;
    }
    out.push(cur);
    proof {
        assert(out@ =~= spec_merge_h(hs@, tol as int));
    }
    out
}

fn merge_v_exec(vs: &Vec<Edge>, tol: i64) -> (r: Vec<Edge>)
    ensures
        r@ == spec_merge_v(vs@, tol as int),
{
    let mut out: Vec<Edge> = Vec::new();
    let n = vs.len();
    if n == 0 {
        proof {
            assert(out@ =~= spec_merge_v(vs@, tol as int));
        }
        return out;
    }
    let mut cur = vs[0];
    let mut i: usize = 1;
    while i < n
        invariant
            n == vs@.len(),
            n > 0,
            1 <= i <= n,
            out@ + merge_v_from(vs@, tol as int, cur, i as int)
                =~= spec_merge_v(vs@, tol as int),
        decreases n - i,
    {
        let e = vs[i];
        let dx: i128 = cur.x0 as i128 - e.x0 as i128;
        let reach: i128 = cur.bottom as i128 + tol as i128;
        if -(tol as i128) <= dx && dx <= tol as i128 && (e.top as i128) <= reach {
            cur = Edge {
                bottom: max_i64(cur.bottom, e.bottom),
                width: max_i64(cur.width, e.width),
                ..cur
            };
        } else {
            out.push(cur);
            cur = e;
        }
        i += 1;
    }
    out.push(cur);
    proof {
        assert(out@ =~= spec_merge_v(vs@, tol as int));
    }
    out
}

/// Merge overlapping or touching collinear edges of the same orientation,
/// horizontals first.
pub fn merge_edges(edges: &Vec<Edge>, tolerance: i64) -> (r: Vec<Edge>)
    ensures
        exists|hs: Seq<Edge>, vs: Seq<Edge>|
            {
                &&& hs.to_multiset() == edges@.filter(|e: Edge| e.is_h()).to_multiset()
                &&& #[trigger] sorted_by_top(hs)
                &&& sorted_h_key(hs)
                &&& vs.to_multiset() == edges@.filter(|e: Edge| e.is_v()).to_multiset()
                &&& #[trigger] sorted_by_x0(vs)
                &&& sorted_v_key(vs)
                &&& r@ == spec_merge_h(hs, tolerance as int) + spec_merge_v(vs, tolerance as int)
            },
{
    let (hs0, vs0) = split_by_orientation(edges);
    let mut hkeys: Vec<HKey> = wrap_h(&hs0);
    let ghost hmid0 = hkeys@;
    sort_by_key(&mut hkeys);
    let ghost hmid1 = hkeys@;
    let hs = unwrap_h(&hkeys);
    let mut vkeys: Vec<VKey> = wrap_v(&vs0);
    let ghost vmid0 = vkeys@;
    sort_by_key(&mut vkeys);
    let ghost vmid1 = vkeys@;
    let vs = unwrap_v(&vkeys);
    proof {
        lemma_wrap_multiset_h(hs0@, hs@, hmid0, hmid1);
        lemma_wrap_multiset_v(vs0@, vs@, vmid0, vmid1);
    }
    let mut out = merge_h_exec(&hs, tolerance);
    let mut vout = merge_v_exec(&vs, tolerance);
    let ghost hs_seq = hs@;
    let ghost vs_seq = vs@;
    out.append(&mut vout);
    proof {
        assert(sorted_by_top(hs_seq));
        assert(sorted_by_x0(vs_seq));
        assert(out@ == spec_merge_h(hs_seq, tolerance as int)
            + spec_merge_v(vs_seq, tolerance as int));
    }
    out
}

/// Whether a horizontal and a vertical edge cross, within the tolerances.
pub open spec fn crosses(h: Edge, v: Edge, x_tol: int, y_tol: int) -> bool {
    &&& v.top - y_tol <= h.top <= v.bottom + y_tol
    &&& h.x0 - x_tol <= v.x0 <= h.x1 + x_tol
}

impl SortKey for (i64, i64) {
    open spec fn key(self) -> (int, int, int) {
        (self.1 as int, self.0 as int, 0)
    }

    fn le_key(&self, other: &Self) -> (r: bool)
        ensures
            r == lex3_le(self.key(), other.key()),
    {
        self.1 < other.1 || (self.1 == other.1 && self.0 <= other.0)
    }
}

/// Whether `pt` is the crossing point of some horizontal x vertical edge
/// pair of `es`, within the tolerances.
pub open spec fn crossing_point(es: Seq<Edge>, pt: (i64, i64), x_tol: int, y_tol: int) -> bool {
    exists|i: int, j: int|
        0 <= i < es.len() && 0 <= j < es.len() && (#[trigger] es[i]).is_h()
            && (#[trigger] es[j]).is_v() && crosses(es[i], es[j], x_tol, y_tol)
            && pt == (es[j].x0, es[i].top)
}

/// Whether the two points lie within the tolerances of each other.
pub open spec fn near_point(p: (i64, i64), q: (i64, i64), x_tol: int, y_tol: int) -> bool {
    -x_tol <= p.0 - q.0 <= x_tol && -y_tol <= p.1 - q.1 <= y_tol
}

/// Whether some member of `kept` lies within the tolerances of `p`.
pub open spec fn point_covered(kept: Seq<(i64, i64)>, p: (i64, i64), x_tol: int, y_tol: int) -> bool {
    exists|k: int| 0 <= k < kept.len() && near_point(p, #[trigger] kept[k], x_tol, y_tol)
}

/// Collect the raw crossing points of horizontal x vertical edge pairs.
fn collect_crossings(edges: &Vec<Edge>, x_tol: i64, y_tol: i64) -> (pts: Vec<(i64, i64)>)
    requires
        x_tol >= 0,
        y_tol >= 0,
    ensures
        forall|m: int|
            0 <= m < pts@.len() ==> crossing_point(edges@, #[trigger] pts@[m], x_tol as int, y_tol as int),
        forall|i: int, j: int|
            0 <= i < edges@.len() && 0 <= j < edges@.len() && (#[trigger] edges@[i]).is_h()
                && (#[trigger] edges@[j]).is_v()
                && crosses(edges@[i], edges@[j], x_tol as int, y_tol as int)
                ==> pts@.contains((edges@[j].x0, edges@[i].top)),
{
    let n = edges.len();
    let mut pts: Vec<(i64, i64)> = Vec::new();
    let mut a: usize = 0;
    while a < n
        invariant
            n == edges@.len(),
            0 <= a <= n,
            x_tol >= 0 && y_tol >= 0,
            forall|m: int|
                0 <= m < pts@.len() ==> crossing_point(edges@, #[trigger] pts@[m], x_tol as int, y_tol as int),
            forall|i: int, j: int|
                0 <= i < a && 0 <= j < n && (#[trigger] edges@[i]).is_h()
                    && (#[trigger] edges@[j]).is_v()
                    && crosses(edges@[i], edges@[j], x_tol as int, y_tol as int)
                    ==> pts@.contains((edges@[j].x0, edges@[i].top)),
        decreases n - a,
    {
        let h = edges[a];
        if h.is_horizontal() {
            let mut b: usize = 0;
            while b < n
                invariant
                    n == edges@.len(),
                    0 <= a < n,
                    0 <= b <= n,
                    x_tol >= 0 && y_tol >= 0,
                    h == edges@[a as int],
                    h.is_h(),
                    forall|m: int|
                        0 <= m < pts@.len() ==> crossing_point(edges@, #[trigger] pts@[m], x_tol as int, y_tol as int),
                    forall|i: int, j: int|
                        0 <= i < a && 0 <= j < n && (#[trigger] edges@[i]).is_h()
                            && (#[trigger] edges@[j]).is_v()
                            && crosses(edges@[i], edges@[j], x_tol as int, y_tol as int)
                            ==> pts@.contains((edges@[j].x0, edges@[i].top)),
                    forall|j: int|
                        0 <= j < b && (#[trigger] edges@[j]).is_v()
                            && crosses(edges@[a as int], edges@[j], x_tol as int, y_tol as int)
                            ==> pts@.contains((edges@[j].x0, edges@[a as int].top)),
                decreases n - b,
            {
                let v = edges[b];
                if v.is_vertical() {
                    let y_lo: i128 = v.top as i128 - y_tol as i128;
                    let y_hi: i128 = v.bottom as i128 + y_tol as i128;
                    let x_lo: i128 = h.x0 as i128 - x_tol as i128;
                    let x_hi: i128 = h.x1 as i128 + x_tol as i128;
                    if y_lo <= h.top as i128 && (h.top as i128) <= y_hi
                        && x_lo <= v.x0 as i128 && (v.x0 as i128) <= x_hi {
                        let ghost pre = pts@;
                        pts.push((v.x0, h.top));
                        proof {
                            assert(crosses(edges@[a as int], edges@[b as int], x_tol as int, y_tol as int));
                            assert forall|m: int| 0 <= m < pts@.len()
                                implies crossing_point(edges@, #[trigger] pts@[m], x_tol as int, y_tol as int) by {
                                if m < pre.len() {
                                    assert(pts@[m] == pre[m]);
                                    assert(crossing_point(edges@, pre[m], x_tol as int, y_tol as int));
                                } else {
                                    assert(pts@[m] == (edges@[b as int].x0, edges@[a as int].top));
                                }
                            }
                            assert forall|x: (i64, i64)| pre.contains(x) implies pts@.contains(x) by {
                                let m = choose|m: int| 0 <= m < pre.len() && pre[m] == x;
                                assert(pts@[m] == x);
                            }
                            assert(pts@[pre.len() as int] == (edges@[b as int].x0, edges@[a as int].top));
                            assert(pts@.contains((edges@[b as int].x0, edges@[a as int].top)));
                        }
                    }
                }
                b += 1;
            }
        }
        proof {
            assert forall|i: int, j: int|
                0 <= i < a + 1 && 0 <= j < n && (#[trigger] edges@[i]).is_h()
                    && (#[trigger] edges@[j]).is_v()
                    && crosses(edges@[i], edges@[j], x_tol as int, y_tol as int)
                    implies pts@.contains((edges@[j].x0, edges@[i].top)) by {
                if i == a {
                    assert(edges@[a as int].is_h());
                }
            }
        }
        a += 1;
    }
    pts
}

/// Drop points that sit within both tolerances of the previously kept
/// point. Every kept point is one of the inputs; every input point has a
/// kept point within the tolerances.
fn dedup_points(pts: &Vec<(i64, i64)>, x_tol: i64, y_tol: i64) -> (kept: Vec<(i64, i64)>)
    requires
        x_tol >= 0,
        y_tol >= 0,
    ensures
        forall|k: int| 0 <= k < kept@.len() ==> pts@.contains(#[trigger] kept@[k]),
        forall|p: int|
            0 <= p < pts@.len() ==> point_covered(kept@, #[trigger] pts@[p], x_tol as int, y_tol as int),
{
    let mut kept: Vec<(i64, i64)> = Vec::new();
    let mut m: usize = 0;
    while m < pts.len()
        invariant
            0 <= m <= pts@.len(),
            x_tol >= 0 && y_tol >= 0,
            m > 0 ==> kept@.len() > 0,
            forall|k: int| 0 <= k < kept@.len() ==> pts@.contains(#[trigger] kept@[k]),
            forall|p: int|
                0 <= p < m ==> point_covered(kept@, #[trigger] pts@[p], x_tol as int, y_tol as int),
        decreases pts@.len() - m,
    {
        let p = pts[m];
        let push_it: bool = if kept.len() == 0 {
            true
        } else {
            let last = kept[kept.len() - 1];
            let dx: i128 = p.0 as i128 - last.0 as i128;
            let dy: i128 = p.1 as i128 - last.1 as i128;
            dx > x_tol as i128 || dx < -(x_tol as i128) || dy > y_tol as i128 || dy < -(y_tol as i128)
        };
        let ghost pre = kept@;
        if push_it {
            kept.push(p);
        }
        proof {
            assert forall|k: int| 0 <= k < kept@.len() implies pts@.contains(#[trigger] kept@[k]) by {
                if k < pre.len() {
                    assert(kept@[k] == pre[k]);
                } else {
                    assert(kept@[k] == pts@[m as int]);
                    assert(pts@.contains(pts@[m as int]));
                }
            }
            assert forall|pp: int| 0 <= pp < m + 1
                implies point_covered(kept@, #[trigger] pts@[pp], x_tol as int, y_tol as int) by {
                if pp < m {
                    assert(point_covered(pre, pts@[pp], x_tol as int, y_tol as int));
                    let k = choose|k: int|
                        0 <= k < pre.len() && near_point(pts@[pp], #[trigger] pre[k], x_tol as int, y_tol as int);
                    assert(kept@[k] == pre[k]);
                    assert(near_point(pts@[pp], kept@[k], x_tol as int, y_tol as int));
                } else {
                    if push_it {
                        let k = kept@.len() - 1;
                        assert(kept@[k] == pts@[m as int]);
                        assert(near_point(pts@[pp], kept@[k], x_tol as int, y_tol as int));
                    } else {
                        let k = pre.len() - 1;
                        assert(kept@[k] == pre[k]);
                        assert(near_point(pts@[pp], kept@[k], x_tol as int, y_tol as int));
                    }
                }
            }
        }
        m += 1;
    }
    kept
}

/// Find the crossing points of horizontal and vertical edges: every
/// returned point is a genuine crossing, and every crossing is represented
/// by a returned point within the tolerances. Points are walked in (y, x)
/// order and deduplicated within the tolerances.
pub fn find_intersections(edges: &Vec<Edge>, x_tol: i64, y_tol: i64) -> (r: Vec<(i64, i64)>)
    requires
        x_tol >= 0,
        y_tol >= 0,
    ensures
        forall|m: int|
            0 <= m < r@.len() ==> crossing_point(edges@, #[trigger] r@[m], x_tol as int, y_tol as int),
        forall|i: int, j: int|
            0 <= i < edges@.len() && 0 <= j < edges@.len() && (#[trigger] edges@[i]).is_h()
                && (#[trigger] edges@[j]).is_v()
                && crosses(edges@[i], edges@[j], x_tol as int, y_tol as int)
                ==> point_covered(r@, (edges@[j].x0, edges@[i].top), x_tol as int, y_tol as int),
{
    broadcast use vstd::seq_lib::group_to_multiset_ensures;

    let mut pts = collect_crossings(edges, x_tol, y_tol);
    let ghost pts0 = pts@;
    sort_by_key(&mut pts);
    proof {
        assert forall|m: int| 0 <= m < pts@.len()
            implies crossing_point(edges@, #[trigger] pts@[m], x_tol as int, y_tol as int) by {
            assert(pts0.contains(pts@[m])) by {
                assert(pts@.to_multiset().count(pts@[m]) > 0);
            }
            let m0 = choose|m0: int| 0 <= m0 < pts0.len() && pts0[m0] == pts@[m];
            assert(crossing_point(edges@, pts0[m0], x_tol as int, y_tol as int));
        }
        assert forall|i: int, j: int|
            0 <= i < edges@.len() && 0 <= j < edges@.len() && (#[trigger] edges@[i]).is_h()
                && (#[trigger] edges@[j]).is_v()
                && crosses(edges@[i], edges@[j], x_tol as int, y_tol as int)
                implies pts@.contains((edges@[j].x0, edges@[i].top)) by {
            assert(pts0.contains((edges@[j].x0, edges@[i].top)));
            assert(pts@.to_multiset().count((edges@[j].x0, edges@[i].top)) > 0);
        }
    }
    let kept = dedup_points(&pts, x_tol, y_tol);
    proof {
        assert forall|mm: int| 0 <= mm < kept@.len()
            implies crossing_point(edges@, #[trigger] kept@[mm], x_tol as int, y_tol as int) by {
            assert(pts@.contains(kept@[mm]));
            let m0 = choose|m0: int| 0 <= m0 < pts@.len() && pts@[m0] == kept@[mm];
            assert(crossing_point(edges@, pts@[m0], x_tol as int, y_tol as int));
        }
        assert forall|i: int, j: int|
            0 <= i < edges@.len() && 0 <= j < edges@.len() && (#[trigger] edges@[i]).is_h()
                && (#[trigger] edges@[j]).is_v()
                && crosses(edges@[i], edges@[j], x_tol as int, y_tol as int)
                implies point_covered(kept@, (edges@[j].x0, edges@[i].top), x_tol as int, y_tol as int) by {
            let pt = (edges@[j].x0, edges@[i].top);
            assert(pts@.contains(pt));
            let p0 = choose|p0: int| 0 <= p0 < pts@.len() && pts@[p0] == pt;
            assert(point_covered(kept@, pts@[p0], x_tol as int, y_tol as int));
        }
    }
    kept
}

/// Split edges by orientation, preserving relative order.
pub fn split_by_orientation(edges: &Vec<Edge>) -> (r: (Vec<Edge>, Vec<Edge>))
    ensures
        r.0@ == edges@.filter(|e: Edge| e.is_h()),
        r.1@ == edges@.filter(|e: Edge| e.is_v()),
        forall|k: int| 0 <= k < r.0@.len() ==> (#[trigger] r.0@[k]).is_h(),
        forall|k: int| 0 <= k < r.1@.len() ==> (#[trigger] r.1@[k]).is_v(),
{
    broadcast use vstd::seq_lib::group_filter_ensures;

    let mut hs: Vec<Edge> = Vec::new();
    let mut vs: Vec<Edge> = Vec::new();
    let mut i: usize = 0;
    while i < edges.len()
        invariant
            0 <= i <= edges@.len(),
            hs@ =~= edges@.take(i as int).filter(|e: Edge| e.is_h()),
            vs@ =~= edges@.take(i as int).filter(|e: Edge| e.is_v()),
        decreases edges@.len() - i,
    {
        let e = edges[i];
        if e.is_horizontal() {
            hs.push(e);
        } else {
            vs.push(e);
        }
        proof {
            reveal_with_fuel(Seq::<Edge>::filter, 1);
            let f_h = |e: Edge| e.is_h();
            let f_v = |e: Edge| e.is_v();
            let t1 = edges@.take(i as int + 1);
            assert(t1.drop_last() =~= edges@.take(i as int));
            assert(t1.last() == e);
            assert(t1.filter(f_h) == if f_h(e) {
                t1.drop_last().filter(f_h).push(e)
            } else {
                t1.drop_last().filter(f_h)
            });
            assert(t1.filter(f_v) == if f_v(e) {
                t1.drop_last().filter(f_v).push(e)
            } else {
                t1.drop_last().filter(f_v)
            });
        }
        i += 1;
    }
    proof {
        assert(edges@.take(edges@.len() as int) =~= edges@);
    }
    (hs, vs)
}

/// Snap edges whose snapped coordinates lie within tolerance onto a shared
/// anchor: horizontal edges by top (tolerance `y_tol`), vertical edges by
/// x (tolerance `x_tol`). The result lists the snapped horizontals first.
pub fn snap_edges(edges: &Vec<Edge>, x_tol: i64, y_tol: i64) -> (r: Vec<Edge>)
    requires
        x_tol >= 0,
        y_tol >= 0,
    ensures
        exists|hs: Seq<Edge>, vs: Seq<Edge>|
            {
                &&& hs.to_multiset() == edges@.filter(|e: Edge| e.is_h()).to_multiset()
                &&& #[trigger] sorted_by_top(hs)
                &&& sorted_h_key(hs)
                &&& vs.to_multiset() == edges@.filter(|e: Edge| e.is_v()).to_multiset()
                &&& #[trigger] sorted_by_x0(vs)
                &&& sorted_v_key(vs)
                &&& r@ == spec_snap_h(hs, y_tol as int) + spec_snap_v(vs, x_tol as int)
            },
{
    let (hs0, vs0) = split_by_orientation(edges);
    let mut hkeys: Vec<HKey> = wrap_h(&hs0);
    let ghost hmid0 = hkeys@;
    sort_by_key(&mut hkeys);
    let ghost hmid1 = hkeys@;
    let hs = unwrap_h(&hkeys);
    let mut vkeys: Vec<VKey> = wrap_v(&vs0);
    let ghost vmid0 = vkeys@;
    sort_by_key(&mut vkeys);
    let ghost vmid1 = vkeys@;
    let vs = unwrap_v(&vkeys);
    proof {
        lemma_wrap_multiset_h(hs0@, hs@, hmid0, hmid1);
        lemma_wrap_multiset_v(vs0@, vs@, vmid0, vmid1);
    }
    let mut out = snap_h_exec(&hs, y_tol);
    let mut vout = snap_v_exec(&vs, x_tol);
    let ghost hs_snap = hs@;
    let ghost vs_snap = vs@;
    out.append(&mut vout);
    proof {
        assert(sorted_by_top(hs_snap));
        assert(sorted_by_x0(vs_snap));
        assert(out@ == spec_snap_h(hs_snap, y_tol as int) + spec_snap_v(vs_snap, x_tol as int));
    }
    out
}

fn wrap_h(v: &Vec<Edge>) -> (r: Vec<HKey>)
    ensures
        r@.len() == v@.len(),
        forall|k: int| 0 <= k < v@.len() ==> (#[trigger] r@[k]).0 == v@[k],
{
    let mut r: Vec<HKey> = Vec::new();
    let mut i: usize = 0;
    while i < v.len()
        invariant
            0 <= i <= v@.len(),
            r@.len() == i,
            forall|k: int| 0 <= k < i ==> (#[trigger] r@[k]).0 == v@[k],
        decreases v@.len() - i,
    {
        r.push(HKey(v[i]));
        i += 1;
    }
    r
}

fn unwrap_h(v: &Vec<HKey>) -> (r: Vec<Edge>)
    ensures
        r@.len() == v@.len(),
        forall|k: int| 0 <= k < v@.len() ==> (#[trigger] r@[k]) == v@[k].0,
{
    let mut r: Vec<Edge> = Vec::new();
    let mut i: usize = 0;
    while i < v.len()
        invariant
            0 <= i <= v@.len(),
            r@.len() == i,
            forall|k: int| 0 <= k < i ==> (#[trigger] r@[k]) == v@[k].0,
        decreases v@.len() - i,
    {
        r.push(v[i].0);
        i += 1;
    }
    r
}

fn wrap_v(v: &Vec<Edge>) -> (r: Vec<VKey>)
    ensures
        r@.len() == v@.len(),
        forall|k: int| 0 <= k < v@.len() ==> (#[trigger] r@[k]).0 == v@[k],
{
    let mut r: Vec<VKey> = Vec::new();
    let mut i: usize = 0;
    while i < v.len()
        invariant
            0 <= i <= v@.len(),
            r@.len() == i,
            forall|k: int| 0 <= k < i ==> (#[trigger] r@[k]).0 == v@[k],
        decreases v@.len() - i,
    {
        r.push(VKey(v[i]));
        i += 1;
    }
    r
}

fn unwrap_v(v: &Vec<VKey>) -> (r: Vec<Edge>)
    ensures
        r@.len() == v@.len(),
        forall|k: int| 0 <= k < v@.len() ==> (#[trigger] r@[k]) == v@[k].0,
{
    let mut r: Vec<Edge> = Vec::new();
    let mut i: usize = 0;
    while i < v.len()
        invariant
            0 <= i <= v@.len(),
            r@.len() == i,
            forall|k: int| 0 <= k < i ==> (#[trigger] r@[k]) == v@[k].0,
        decreases v@.len() - i,
    {
        r.push(v[i].0);
        i += 1;
    }
    r
}

proof fn lemma_wrap_multiset_h(orig: Seq<Edge>, got: Seq<Edge>, mid0: Seq<HKey>, mid1: Seq<HKey>)
    requires
        mid0.len() == orig.len(),
        forall|k: int| 0 <= k < orig.len() ==> (#[trigger] mid0[k]).0 == orig[k],
        mid1.to_multiset() == mid0.to_multiset(),
        mid1.len() == got.len(),
        forall|k: int| 0 <= k < got.len() ==> (#[trigger] mid1[k]).0 == got[k],
        forall|p: int, q: int| 0 <= p < q < mid1.len() ==> lex3_le(mid1[p].key(), mid1[q].key()),
    ensures
        got.to_multiset() == orig.to_multiset(),
        sorted_by_top(got),
        sorted_h_key(got),
{
    broadcast use vstd::seq_lib::group_to_multiset_ensures;

    assert(mid0 =~= orig.map_values(|e: Edge| HKey(e)));
    assert(mid1 =~= got.map_values(|e: Edge| HKey(e)));
    lemma_map_hkey_multiset(orig, got, mid0, mid1);
    assert forall|p: int, q: int| 0 <= p < q < got.len() implies got[p].top <= got[q].top by {
        assert(lex3_le(mid1[p].key(), mid1[q].key()));
    }
    assert forall|p: int, q: int|
        0 <= p < q < got.len() implies lex3_le(HKey(got[p]).key(), HKey(got[q]).key()) by {
        assert(mid1[p] == HKey(got[p]) && mid1[q] == HKey(got[q]));
        assert(lex3_le(mid1[p].key(), mid1[q].key()));
    }
}

proof fn lemma_map_hkey_multiset(orig: Seq<Edge>, got: Seq<Edge>, mid0: Seq<HKey>, mid1: Seq<HKey>)
    requires
        mid0 == orig.map_values(|e: Edge| HKey(e)),
        mid1 == got.map_values(|e: Edge| HKey(e)),
        mid1.to_multiset() == mid0.to_multiset(),
    ensures
        got.to_multiset() == orig.to_multiset(),
    decreases orig.len(),
{
    broadcast use vstd::seq_lib::group_to_multiset_ensures;
    broadcast use vstd::multiset::group_multiset_axioms;

    if orig.len() == 0 {
        assert(mid0 =~= Seq::<HKey>::empty());
        assert(mid1.to_multiset().len() == 0);
        assert(mid1.len() == 0);
        assert(got =~= Seq::<Edge>::empty());
        assert(got.to_multiset() =~= orig.to_multiset());
    } else {
        let e = orig.last();
        let k = HKey(e);
        assert(mid0.last() == k);
        assert(mid0.to_multiset().count(k) > 0);
        assert(mid1.to_multiset().count(k) > 0);
        assert(mid1.contains(k));
        let j = choose|j: int| 0 <= j < mid1.len() && mid1[j] == k;
        assert(got[j] == e);
        let orig2 = orig.drop_last();
        let got2 = got.remove(j);
        let mid02 = mid0.drop_last();
        let mid12 = mid1.remove(j);
        assert(mid02 =~= orig2.map_values(|e: Edge| HKey(e)));
        assert(mid12 =~= got2.map_values(|e: Edge| HKey(e)));
        assert(mid0 =~= mid02.push(k));
        vstd::seq_lib::to_multiset_remove(mid1, j);
        assert(mid12.to_multiset() =~= mid02.to_multiset());
        lemma_map_hkey_multiset(orig2, got2, mid02, mid12);
        vstd::seq_lib::to_multiset_remove(got, j);
        assert(orig =~= orig2.push(e));
        assert(got.to_multiset() =~= orig.to_multiset());
    }
}

proof fn lemma_wrap_multiset_v(orig: Seq<Edge>, got: Seq<Edge>, mid0: Seq<VKey>, mid1: Seq<VKey>)
    requires
        mid0.len() == orig.len(),
        forall|k: int| 0 <= k < orig.len() ==> (#[trigger] mid0[k]).0 == orig[k],
        mid1.to_multiset() == mid0.to_multiset(),
        mid1.len() == got.len(),
        forall|k: int| 0 <= k < got.len() ==> (#[trigger] mid1[k]).0 == got[k],
        forall|p: int, q: int| 0 <= p < q < mid1.len() ==> lex3_le(mid1[p].key(), mid1[q].key()),
    ensures
        got.to_multiset() == orig.to_multiset(),
        sorted_by_x0(got),
        sorted_v_key(got),
{
    broadcast use vstd::seq_lib::group_to_multiset_ensures;

    assert(mid0 =~= orig.map_values(|e: Edge| VKey(e)));
    assert(mid1 =~= got.map_values(|e: Edge| VKey(e)));
    lemma_map_vkey_multiset(orig, got, mid0, mid1);
    assert forall|p: int, q: int| 0 <= p < q < got.len() implies got[p].x0 <= got[q].x0 by {
        assert(lex3_le(mid1[p].key(), mid1[q].key()));
    }
    assert forall|p: int, q: int|
        0 <= p < q < got.len() implies lex3_le(VKey(got[p]).key(), VKey(got[q]).key()) by {
        assert(mid1[p] == VKey(got[p]) && mid1[q] == VKey(got[q]));
        assert(lex3_le(mid1[p].key(), mid1[q].key()));
    }
}

proof fn lemma_map_vkey_multiset(orig: Seq<Edge>, got: Seq<Edge>, mid0: Seq<VKey>, mid1: Seq<VKey>)
    requires
        mid0 == orig.map_values(|e: Edge| VKey(e)),
        mid1 == got.map_values(|e: Edge| VKey(e)),
        mid1.to_multiset() == mid0.to_multiset(),
    ensures
        got.to_multiset() == orig.to_multiset(),
    decreases orig.len(),
{
    broadcast use vstd::seq_lib::group_to_multiset_ensures;
    broadcast use vstd::multiset::group_multiset_axioms;

    if orig.len() == 0 {
        assert(mid0 =~= Seq::<VKey>::empty());
        assert(mid1.to_multiset().len() == 0);
        assert(mid1.len() == 0);
        assert(got =~= Seq::<Edge>::empty());
        assert(got.to_multiset() =~= orig.to_multiset());
    } else {
        let e = orig.last();
        let k = VKey(e);
        assert(mid0.last() == k);
        assert(mid0.to_multiset().count(k) > 0);
        assert(mid1.to_multiset().count(k) > 0);
        assert(mid1.contains(k));
        let j = choose|j: int| 0 <= j < mid1.len() && mid1[j] == k;
        assert(got[j] == e);
        let orig2 = orig.drop_last();
        let got2 = got.remove(j);
        let mid02 = mid0.drop_last();
        let mid12 = mid1.remove(j);
        assert(mid02 =~= orig2.map_values(|e: Edge| VKey(e)));
        assert(mid12 =~= got2.map_values(|e: Edge| VKey(e)));
        assert(mid0 =~= mid02.push(k));
        vstd::seq_lib::to_multiset_remove(mid1, j);
        assert(mid12.to_multiset() =~= mid02.to_multiset());
        lemma_map_vkey_multiset(orig2, got2, mid02, mid12);
        vstd::seq_lib::to_multiset_remove(got, j);
        assert(orig =~= orig2.push(e));
        assert(got.to_multiset() =~= orig.to_multiset());
    }
}

} // verus!

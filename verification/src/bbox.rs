use vstd::prelude::*;
use crate::fx::{fx_add, fx_sub, sat64, min_i64, max_i64, div_floor_i128, clamp64};

verus! {

/// Bounding box in top-left page coordinates (y grows downward), in
/// fixed-point units. A well-formed box has `x0 <= x1` and `top <= bottom`.
#[derive(Debug, Clone, Copy, PartialEq, Eq, Structural)]
pub struct BBox {
    pub x0: i64,
    pub top: i64,
    pub x1: i64,
    pub bottom: i64,
}

impl BBox {
    /// The well-formedness invariant: sides are ordered.
    pub open spec fn wf(self) -> bool {
        self.x0 <= self.x1 && self.top <= self.bottom
    }

    pub fn new(x0: i64, top: i64, x1: i64, bottom: i64) -> (b: BBox)
        ensures
            b == (BBox { x0, top, x1, bottom }),
    {
        BBox { x0, top, x1, bottom }
    }

    pub fn width(&self) -> (r: i64)
        ensures
            r == sat64(self.x1 as int - self.x0 as int),
    {
        fx_sub(self.x1, self.x0)
    }

    pub fn height(&self) -> (r: i64)
        ensures
            r == sat64(self.bottom as int - self.top as int),
    {
        fx_sub(self.bottom, self.top)
    }

    /// The area, clamped into the i64 range.
    pub fn area(&self) -> (r: i64)
        ensures
            r == sat64(sat64(self.x1 as int - self.x0 as int)
                * sat64(self.bottom as int - self.top as int)),
    {
        let w = self.width();
        let h = self.height();
        proof {
            crate::fx::lemma_i64_product_bounds(w as int, h as int);
        }
        clamp64((w as i128) * (h as i128))
    }

    pub fn center_x(&self) -> (r: i64)
        ensures
            r == (self.x0 as int + self.x1 as int) / 2,
    {
        let s: i128 = self.x0 as i128 + self.x1 as i128;
        let h: i128 = div_floor_i128(s, 2);
        h as i64
    }

    pub fn center_y(&self) -> (r: i64)
        ensures
            r == (self.top as int + self.bottom as int) / 2,
    {
        let s: i128 = self.top as i128 + self.bottom as i128;
        let h: i128 = div_floor_i128(s, 2);
        h as i64
    }

    /// Whether the box contains the point (x, y), borders included.
    pub fn contains_point(&self, x: i64, y: i64) -> (r: bool)
        ensures
            r == (self.x0 <= x && x <= self.x1 && self.top <= y && y <= self.bottom),
    {
        x >= self.x0 && x <= self.x1 && y >= self.top && y <= self.bottom
    }

    /// Whether the interiors of the two boxes overlap.
    pub fn intersects(&self, other: &BBox) -> (r: bool)
        ensures
            r == (self.x0 < other.x1 && self.x1 > other.x0
                && self.top < other.bottom && self.bottom > other.top),
    {
        self.x0 < other.x1 && self.x1 > other.x0 && self.top < other.bottom
            && self.bottom > other.top
    }

    /// Whether this box fully contains the other.
    pub fn contains_bbox(&self, other: &BBox) -> (r: bool)
        ensures
            r == (self.x0 <= other.x0 && self.x1 >= other.x1
                && self.top <= other.top && self.bottom >= other.bottom),
    {
        self.x0 <= other.x0 && self.x1 >= other.x1 && self.top <= other.top
            && self.bottom >= other.bottom
    }

    /// The overlap of two boxes, if their interiors meet.
    pub fn intersection(&self, other: &BBox) -> (r: Option<BBox>)
        ensures
            ({
                let x0 = if self.x0 >= other.x0 { self.x0 } else { other.x0 };
                let top = if self.top >= other.top { self.top } else { other.top };
                let x1 = if self.x1 <= other.x1 { self.x1 } else { other.x1 };
                let bottom = if self.bottom <= other.bottom { self.bottom } else { other.bottom };
                if x0 < x1 && top < bottom {
                    r == Some(BBox { x0, top, x1, bottom })
                } else {
                    r is None
                }
            }),
    {
        let x0 = max_i64(self.x0, other.x0);
        let top = max_i64(self.top, other.top);
        let x1 = min_i64(self.x1, other.x1);
        let bottom = min_i64(self.bottom, other.bottom);
        if x0 < x1 && top < bottom {
            Some(BBox { x0, top, x1, bottom })
        } else {
            None
        }
    }

    /// The smallest box containing both.
    pub open spec fn spec_union(self, other: BBox) -> BBox {
        (BBox {
            x0: if self.x0 <= other.x0 { self.x0 } else { other.x0 },
            top: if self.top <= other.top { self.top } else { other.top },
            x1: if self.x1 >= other.x1 { self.x1 } else { other.x1 },
            bottom: if self.bottom >= other.bottom { self.bottom } else { other.bottom },
        })
    }

    pub fn union(&self, other: &BBox) -> (r: BBox)
        ensures
            r == self.spec_union(*other),
    {
        BBox {
            x0: min_i64(self.x0, other.x0),
            top: min_i64(self.top, other.top),
            x1: max_i64(self.x1, other.x1),
            bottom: max_i64(self.bottom, other.bottom),
        }
    }

    /// Grow the box by a margin on all four sides (saturating).
    pub fn expand(&self, margin: i64) -> (r: BBox)
        ensures
            r.x0 == sat64(self.x0 as int - margin as int),
            r.top == sat64(self.top as int - margin as int),
            r.x1 == sat64(self.x1 as int + margin as int),
            r.bottom == sat64(self.bottom as int + margin as int),
    {
        BBox {
            x0: fx_sub(self.x0, margin),
            top: fx_sub(self.top, margin),
            x1: fx_add(self.x1, margin),
            bottom: fx_add(self.bottom, margin),
        }
    }

    /// Build a box from two corners given in native bottom-left coordinates,
    /// flipping the y axis about the page height.
    pub fn from_pdf_coords(x0: i64, y0: i64, x1: i64, y1: i64, page_height: i64) -> (r: BBox)
        ensures
            r.x0 == if x0 <= x1 { x0 } else { x1 },
            r.x1 == if x0 >= x1 { x0 } else { x1 },
            r.top == sat64(page_height as int - (if y0 >= y1 { y0 } else { y1 }) as int),
            r.bottom == sat64(page_height as int - (if y0 <= y1 { y0 } else { y1 }) as int),
            r.wf(),
    {
        let y_hi = max_i64(y0, y1);
        let y_lo = min_i64(y0, y1);
        let r = BBox {
            x0: min_i64(x0, x1),
            top: fx_sub(page_height, y_hi),
            x1: max_i64(x0, x1),
            bottom: fx_sub(page_height, y_lo),
        };
        r
    }
}

impl Default for BBox {
    fn default() -> (b: Self)
        ensures
            b == (BBox { x0: 0i64, top: 0i64, x1: 0i64, bottom: 0i64 }),
    {
        BBox { x0: 0, top: 0, x1: 0, bottom: 0 }
    }
}

} // verus!

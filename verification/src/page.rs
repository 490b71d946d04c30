use vstd::prelude::*;
use crate::bbox::BBox;
use crate::objects::{Char, Line, Rect, Curve, Word};
use crate::table::Table;
use crate::settings::TableSettings;
use crate::textextract::{TextExtractOptions, extract_text};
use crate::words::{group_chars_to_words, spec_blank, chars_boxes_wf};
use crate::trusted::is_unicode_white;
use crate::detect::{detect_tables, table_wf, table_counts_derived};

verus! {

/// A page extracted from a document: its dimensions, its cumulative
/// offset from the document top, and its positioned primitives.
#[derive(Debug)]
pub struct Page {
    /// 1-indexed page number.
    pub page_number: usize,
    pub width: i64,
    pub height: i64,
    /// Sum of the heights of all earlier pages.
    pub doctop_offset: i64,
    pub chars: Vec<Char>,
    pub lines: Vec<Line>,
    pub rects: Vec<Rect>,
    pub curves: Vec<Curve>,
}

/// Whether a character's box overlaps the crop box.
pub open spec fn crop_keeps_char(c: Char, b: BBox) -> bool {
    b.x0 < c.x1 && b.x1 > c.x0 && b.top < c.bottom && b.bottom > c.top
}

/// Whether a line's hull overlaps the box.
pub open spec fn crop_keeps_line(l: Line, b: BBox) -> bool {
    ({
        let lb = l.spec_bbox();
        b.x0 < lb.x1 && b.x1 > lb.x0 && b.top < lb.bottom && b.bottom > lb.top
    })
}

/// Whether a rectangle's hull overlaps the box.
pub open spec fn crop_keeps_rect(r: Rect, b: BBox) -> bool {
    ({
        let rb = r.spec_bbox();
        b.x0 < rb.x1 && b.x1 > rb.x0 && b.top < rb.bottom && b.bottom > rb.top
    })
}

/// Whether a curve's hull overlaps the box.
pub open spec fn crop_keeps_curve(cv: Curve, b: BBox) -> bool {
    ({
        let cb = crate::objects::spec_curve_bbox(cv.points@);
        b.x0 < cb.x1 && b.x1 > cb.x0 && b.top < cb.bottom && b.bottom > cb.top
    })
}

/// Whether a curve's hull lies fully inside the box.
pub open spec fn within_keeps_curve(cv: Curve, b: BBox) -> bool {
    ({
        let cb = crate::objects::spec_curve_bbox(cv.points@);
        b.x0 <= cb.x0 && b.x1 >= cb.x1 && b.top <= cb.top && b.bottom >= cb.bottom
    })
}

/// Whether a character's box lies fully inside the box.
pub open spec fn within_keeps_char(c: Char, b: BBox) -> bool {
    b.x0 <= c.x0 && b.x1 >= c.x1 && b.top <= c.top && b.bottom >= c.bottom
}

/// Whether a line's hull lies fully inside the box.
pub open spec fn within_keeps_line(l: Line, b: BBox) -> bool {
    ({
        let lb = l.spec_bbox();
        b.x0 <= lb.x0 && b.x1 >= lb.x1 && b.top <= lb.top && b.bottom >= lb.bottom
    })
}

/// Whether a rectangle lies fully inside the box.
pub open spec fn within_keeps_rect(r: Rect, b: BBox) -> bool {
    ({
        let rb = r.spec_bbox();
        b.x0 <= rb.x0 && b.x1 >= rb.x1 && b.top <= rb.top && b.bottom >= rb.bottom
    })
}

impl Page {
    /// An empty page of the given number, size and document offset.
    pub fn new(page_number: usize, width: i64, height: i64, doctop_offset: i64) -> (r: Page)
        ensures
            r.page_number == page_number,
            r.width == width,
            r.height == height,
            r.doctop_offset == doctop_offset,
            r.chars@.len() == 0 && r.lines@.len() == 0 && r.rects@.len() == 0
                && r.curves@.len() == 0,
    {
        Page {
            page_number,
            width,
            height,
            doctop_offset,
            chars: Vec::new(),
            lines: Vec::new(),
            rects: Vec::new(),
            curves: Vec::new(),
        }
    }

    /// The page's own bounding box.
    pub fn bbox(&self) -> (r: BBox)
        ensures
            r == (BBox { x0: 0i64, top: 0i64, x1: self.width, bottom: self.height }),
    {
        BBox { x0: 0, top: 0, x1: self.width, bottom: self.height }
    }

    /// All drawn lines plus the four decomposed sides of every rectangle:
    /// the input of table detection.
    pub fn edges(&self) -> (r: Vec<Line>)
        ensures
            r@.len() == self.lines@.len() + 4 * self.rects@.len(),
            forall|k: int| 0 <= k < self.lines@.len() ==> (#[trigger] r@[k]) == self.lines@[k],
    {
        let mut r: Vec<Line> = Vec::new();
        let mut i: usize = 0;
        while i < self.lines.len()
            invariant
                0 <= i <= self.lines@.len(),
                r@.len() == i,
                forall|k: int| 0 <= k < i ==> (#[trigger] r@[k]) == self.lines@[k],
            decreases self.lines@.len() - i,
        {
            r.push(self.lines[i].clone());
            i += 1;
        }
        let nl = self.lines.len();
        let mut j: usize = 0;
        while j < self.rects.len()
            invariant
                0 <= j <= self.rects@.len(),
                nl == self.lines@.len(),
                r@.len() == nl + 4 * j,
                forall|k: int| 0 <= k < nl ==> (#[trigger] r@[k]) == self.lines@[k],
            decreases self.rects@.len() - j,
        {
            let mut sides = self.rects[j].to_edges();
            r.append(&mut sides);
            j += 1;
        }
        r
    }

    /// Group this page's characters into words.
    pub fn words(&self, x_tolerance: i64, y_tolerance: i64) -> (r: Vec<Word>)
        ensures
            self.chars@.len() == 0 ==> r@.len() == 0,
            r@.len() <= self.chars@.len(),
            forall|k: int| 0 <= k < r@.len() ==> !spec_blank((#[trigger] r@[k]).text@),
            chars_boxes_wf(self.chars@) ==> forall|k: int|
                0 <= k < r@.len() ==> (#[trigger] r@[k]).x0 <= r@[k].x1 && r@[k].top
                    <= r@[k].bottom,
    {
        group_chars_to_words(&self.chars, x_tolerance, y_tolerance)
    }

    /// Extract the page's text.
    pub fn extract_text(&self, options: &TextExtractOptions) -> (r: String)
        ensures
            self.chars@.len() == 0 ==> r@ == Seq::<char>::empty(),
            r@.len() > 0 ==> !is_unicode_white(r@.last()),
    {
        extract_text(&self.chars, self.width, self.height, options)
    }

    /// Detect tables on this page.
    pub fn find_tables(&self, settings: &TableSettings) -> (r: Vec<Table>)
        requires
            self.chars@.len() < 0x4000_0000_0000_0000,
        ensures
            forall|k: int| 0 <= k < r@.len() ==> table_wf(#[trigger] r@[k]),
            forall|k: int|
                0 <= k < r@.len() ==> table_counts_derived(
                    #[trigger] r@[k],
                    settings.spec_intersection_y(),
                    settings.spec_intersection_x(),
                ),
    {
        detect_tables(&self.lines, &self.rects, &self.chars, self.width, self.height, settings)
    }

    /// Detect tables on this page, with their cell text.
    pub fn extract_tables(&self, settings: &TableSettings) -> (r: Vec<Table>)
        requires
            self.chars@.len() < 0x4000_0000_0000_0000,
        ensures
            forall|k: int| 0 <= k < r@.len() ==> table_wf(#[trigger] r@[k]),
            forall|k: int|
                0 <= k < r@.len() ==> table_counts_derived(
                    #[trigger] r@[k],
                    settings.spec_intersection_y(),
                    settings.spec_intersection_x(),
                ),
    {
        detect_tables(&self.lines, &self.rects, &self.chars, self.width, self.height, settings)
    }

    /// Detect tables and project each onto its grid of optional strings.
    pub fn extract_table_grids(&self, settings: &TableSettings) -> (r: Vec<Vec<Vec<Option<String>>>>)
        requires
            self.chars@.len() < 0x4000_0000_0000_0000,
    {
        let tables = self.extract_tables(settings);
        let mut grids: Vec<Vec<Vec<Option<String>>>> = Vec::new();
        let mut i: usize = 0;
        while i < tables.len()
            invariant
                0 <= i <= tables@.len(),
            decreases tables@.len() - i,
        {
            grids.push(tables[i].to_grid());
            i += 1;
        }
        grids
    }

    /// A derived page holding the primitives that touch the box: a
    /// character stays when a corner lies inside, the others when their
    /// hulls overlap it.
    pub fn crop(&self, bbox: BBox) -> (r: Page)
        ensures
            r.page_number == self.page_number,
            r.doctop_offset == self.doctop_offset,
            r.width == crate::fx::sat64(bbox.x1 as int - bbox.x0 as int),
            r.height == crate::fx::sat64(bbox.bottom as int - bbox.top as int),
            r.chars@ == self.chars@.filter(|c: Char| crop_keeps_char(c, bbox)),
            r.lines@ == self.lines@.filter(|l: Line| crop_keeps_line(l, bbox)),
            r.rects@ == self.rects@.filter(|rc: Rect| crop_keeps_rect(rc, bbox)),
            r.curves@.len() == self.curves@.filter(|cv: Curve| crop_keeps_curve(cv, bbox)).len(),
            forall|k: int|
                0 <= k < r.curves@.len() ==> (#[trigger] r.curves@[k]).points@
                    == self.curves@.filter(|cv: Curve| crop_keeps_curve(cv, bbox))[k].points@
                    && r.curves@[k].width
                        == self.curves@.filter(|cv: Curve| crop_keeps_curve(cv, bbox))[k].width,
    {
        let mut page = Page::new(
            self.page_number,
            bbox.width(),
            bbox.height(),
            self.doctop_offset,
        );

        let mut i: usize = 0;
        while i < self.chars.len()
            invariant
                0 <= i <= self.chars@.len(),
                page.page_number == self.page_number,
                page.doctop_offset == self.doctop_offset,
                page.width == crate::fx::sat64(bbox.x1 as int - bbox.x0 as int),
                page.height == crate::fx::sat64(bbox.bottom as int - bbox.top as int),
                page.lines@.len() == 0 && page.rects@.len() == 0 && page.curves@.len() == 0,
                page.chars@ =~= self.chars@.take(i as int).filter(|c: Char| crop_keeps_char(c, bbox)),
            decreases self.chars@.len() - i,
        {
            let c = &self.chars[i];
            let cb = c.bbox();
            if bbox.intersects(&cb) {
                page.chars.push(c.clone());
            }
            proof {
                reveal_with_fuel(Seq::<Char>::filter, 1);
                let f = |c: Char| crop_keeps_char(c, bbox);
                let t1 = self.chars@.take(i as int + 1);
                assert(t1.drop_last() =~= self.chars@.take(i as int));
                assert(t1.last() == self.chars@[i as int]);
                assert(t1.filter(f) == if f(t1.last()) {
                    t1.drop_last().filter(f).push(t1.last())
                } else {
                    t1.drop_last().filter(f)
                });
            }
            i += 1;
        }
        proof {
            assert(self.chars@.take(self.chars@.len() as int) =~= self.chars@);
        }

        let mut j: usize = 0;
        while j < self.lines.len()
            invariant
                0 <= j <= self.lines@.len(),
                page.page_number == self.page_number,
                page.doctop_offset == self.doctop_offset,
                page.width == crate::fx::sat64(bbox.x1 as int - bbox.x0 as int),
                page.height == crate::fx::sat64(bbox.bottom as int - bbox.top as int),
                page.rects@.len() == 0 && page.curves@.len() == 0,
                page.chars@ == self.chars@.filter(|c: Char| crop_keeps_char(c, bbox)),
                page.lines@ =~= self.lines@.take(j as int).filter(|l: Line| crop_keeps_line(l, bbox)),
            decreases self.lines@.len() - j,
        {
            let l = &self.lines[j];
            let lb = l.bbox();
            if bbox.intersects(&lb) {
                page.lines.push(l.clone());
            }
            proof {
                reveal_with_fuel(Seq::<Line>::filter, 1);
                let f = |l: Line| crop_keeps_line(l, bbox);
                let t1 = self.lines@.take(j as int + 1);
                assert(t1.drop_last() =~= self.lines@.take(j as int));
                assert(t1.last() == self.lines@[j as int]);
                assert(t1.filter(f) == if f(t1.last()) {
                    t1.drop_last().filter(f).push(t1.last())
                } else {
                    t1.drop_last().filter(f)
                });
            }
            j += 1;
        }
        proof {
            assert(self.lines@.take(self.lines@.len() as int) =~= self.lines@);
        }

        let mut k: usize = 0;
        while k < self.rects.len()
            invariant
                0 <= k <= self.rects@.len(),
                page.page_number == self.page_number,
                page.doctop_offset == self.doctop_offset,
                page.width == crate::fx::sat64(bbox.x1 as int - bbox.x0 as int),
                page.height == crate::fx::sat64(bbox.bottom as int - bbox.top as int),
                page.curves@.len() == 0,
                page.chars@ == self.chars@.filter(|c: Char| crop_keeps_char(c, bbox)),
                page.lines@ == self.lines@.filter(|l: Line| crop_keeps_line(l, bbox)),
                page.rects@ =~= self.rects@.take(k as int).filter(|rc: Rect| crop_keeps_rect(rc, bbox)),
            decreases self.rects@.len() - k,
        {
            let rc = &self.rects[k];
            let rb = rc.bbox();
            if bbox.intersects(&rb) {
                page.rects.push(rc.clone());
            }
            proof {
                reveal_with_fuel(Seq::<Rect>::filter, 1);
                let f = |rc: Rect| crop_keeps_rect(rc, bbox);
                let t1 = self.rects@.take(k as int + 1);
                assert(t1.drop_last() =~= self.rects@.take(k as int));
                assert(t1.last() == self.rects@[k as int]);
                assert(t1.filter(f) == if f(t1.last()) {
                    t1.drop_last().filter(f).push(t1.last())
                } else {
                    t1.drop_last().filter(f)
                });
            }
            k += 1;
        }
        proof {
            assert(self.rects@.take(self.rects@.len() as int) =~= self.rects@);
        }

        let mut m: usize = 0;
        while m < self.curves.len()
            invariant
                0 <= m <= self.curves@.len(),
                page.page_number == self.page_number,
                page.doctop_offset == self.doctop_offset,
                page.width == crate::fx::sat64(bbox.x1 as int - bbox.x0 as int),
                page.height == crate::fx::sat64(bbox.bottom as int - bbox.top as int),
                page.chars@ == self.chars@.filter(|c: Char| crop_keeps_char(c, bbox)),
                page.lines@ == self.lines@.filter(|l: Line| crop_keeps_line(l, bbox)),
                page.rects@ == self.rects@.filter(|rc: Rect| crop_keeps_rect(rc, bbox)),
                page.curves@.len() == self.curves@.take(m as int).filter(
                    |cv: Curve| crop_keeps_curve(cv, bbox),
                ).len(),
                forall|k: int|
                    0 <= k < page.curves@.len() ==> (#[trigger] page.curves@[k]).points@
                        == self.curves@.take(m as int).filter(
                        |cv: Curve| crop_keeps_curve(cv, bbox),
                    )[k].points@ && page.curves@[k].width == self.curves@.take(m as int).filter(
                        |cv: Curve| crop_keeps_curve(cv, bbox),
                    )[k].width,
            decreases self.curves@.len() - m,
        {
            let cv = &self.curves[m];
            let cb = cv.bbox();
            let ghost pre = page.curves@;
            if bbox.intersects(&cb) {
                page.curves.push(cv.clone());
            }
            proof {
                reveal_with_fuel(Seq::<Curve>::filter, 1);
                let f = |cv: Curve| crop_keeps_curve(cv, bbox);
                let t1 = self.curves@.take(m as int + 1);
                assert(t1.drop_last() =~= self.curves@.take(m as int));
                assert(t1.last() == self.curves@[m as int]);
                assert(t1.filter(f) == if f(t1.last()) {
                    t1.drop_last().filter(f).push(t1.last())
                } else {
                    t1.drop_last().filter(f)
                });
            }
            m += 1;
        }
        proof {
            assert(self.curves@.take(self.curves@.len() as int) =~= self.curves@);
        }
        page
    }

    /// Like `crop`, but keeping only primitives that lie fully inside the
    /// box.
    pub fn within_bbox(&self, bbox: BBox) -> (r: Page)
        ensures
            r.page_number == self.page_number,
            r.doctop_offset == self.doctop_offset,
            r.width == crate::fx::sat64(bbox.x1 as int - bbox.x0 as int),
            r.height == crate::fx::sat64(bbox.bottom as int - bbox.top as int),
            r.chars@ == self.chars@.filter(|c: Char| within_keeps_char(c, bbox)),
            r.lines@ == self.lines@.filter(|l: Line| within_keeps_line(l, bbox)),
            r.rects@ == self.rects@.filter(|rc: Rect| within_keeps_rect(rc, bbox)),
            r.curves@.len() == self.curves@.filter(|cv: Curve| within_keeps_curve(cv, bbox)).len(),
            forall|k: int|
                0 <= k < r.curves@.len() ==> (#[trigger] r.curves@[k]).points@
                    == self.curves@.filter(|cv: Curve| within_keeps_curve(cv, bbox))[k].points@
                    && r.curves@[k].width
                        == self.curves@.filter(|cv: Curve| within_keeps_curve(cv, bbox))[k].width,
    {
        let mut page = Page::new(
            self.page_number,
            bbox.width(),
            bbox.height(),
            self.doctop_offset,
        );

        let mut i: usize = 0;
        while i < self.chars.len()
            invariant
                0 <= i <= self.chars@.len(),
                page.page_number == self.page_number,
                page.doctop_offset == self.doctop_offset,
                page.width == crate::fx::sat64(bbox.x1 as int - bbox.x0 as int),
                page.height == crate::fx::sat64(bbox.bottom as int - bbox.top as int),
                page.lines@.len() == 0 && page.rects@.len() == 0 && page.curves@.len() == 0,
                page.chars@ =~= self.chars@.take(i as int).filter(|c: Char| within_keeps_char(c, bbox)),
            decreases self.chars@.len() - i,
        {
            let c = &self.chars[i];
            let cb = c.bbox();
            if bbox.contains_bbox(&cb) {
                page.chars.push(c.clone());
            }
            proof {
                reveal_with_fuel(Seq::<Char>::filter, 1);
                let f = |c: Char| within_keeps_char(c, bbox);
                let t1 = self.chars@.take(i as int + 1);
                assert(t1.drop_last() =~= self.chars@.take(i as int));
                assert(t1.last() == self.chars@[i as int]);
                assert(t1.filter(f) == if f(t1.last()) {
                    t1.drop_last().filter(f).push(t1.last())
                } else {
                    t1.drop_last().filter(f)
                });
            }
            i += 1;
        }
        proof {
            assert(self.chars@.take(self.chars@.len() as int) =~= self.chars@);
        }

        let mut j: usize = 0;
        while j < self.lines.len()
            invariant
                0 <= j <= self.lines@.len(),
                page.page_number == self.page_number,
                page.doctop_offset == self.doctop_offset,
                page.width == crate::fx::sat64(bbox.x1 as int - bbox.x0 as int),
                page.height == crate::fx::sat64(bbox.bottom as int - bbox.top as int),
                page.rects@.len() == 0 && page.curves@.len() == 0,
                page.chars@ == self.chars@.filter(|c: Char| within_keeps_char(c, bbox)),
                page.lines@ =~= self.lines@.take(j as int).filter(|l: Line| within_keeps_line(l, bbox)),
            decreases self.lines@.len() - j,
        {
            let l = &self.lines[j];
            let lb = l.bbox();
            if bbox.contains_bbox(&lb) {
                page.lines.push(l.clone());
            }
            proof {
                reveal_with_fuel(Seq::<Line>::filter, 1);
                let f = |l: Line| within_keeps_line(l, bbox);
                let t1 = self.lines@.take(j as int + 1);
                assert(t1.drop_last() =~= self.lines@.take(j as int));
                assert(t1.last() == self.lines@[j as int]);
                assert(t1.filter(f) == if f(t1.last()) {
                    t1.drop_last().filter(f).push(t1.last())
                } else {
                    t1.drop_last().filter(f)
                });
            }
            j += 1;
        }
        proof {
            assert(self.lines@.take(self.lines@.len() as int) =~= self.lines@);
        }

        let mut k: usize = 0;
        while k < self.rects.len()
            invariant
                0 <= k <= self.rects@.len(),
                page.page_number == self.page_number,
                page.doctop_offset == self.doctop_offset,
                page.width == crate::fx::sat64(bbox.x1 as int - bbox.x0 as int),
                page.height == crate::fx::sat64(bbox.bottom as int - bbox.top as int),
                page.curves@.len() == 0,
                page.chars@ == self.chars@.filter(|c: Char| within_keeps_char(c, bbox)),
                page.lines@ == self.lines@.filter(|l: Line| within_keeps_line(l, bbox)),
                page.rects@ =~= self.rects@.take(k as int).filter(|rc: Rect| within_keeps_rect(rc, bbox)),
            decreases self.rects@.len() - k,
        {
            let rc = &self.rects[k];
            let rb = rc.bbox();
            if bbox.contains_bbox(&rb) {
                page.rects.push(rc.clone());
            }
            proof {
                reveal_with_fuel(Seq::<Rect>::filter, 1);
                let f = |rc: Rect| within_keeps_rect(rc, bbox);
                let t1 = self.rects@.take(k as int + 1);
                assert(t1.drop_last() =~= self.rects@.take(k as int));
                assert(t1.last() == self.rects@[k as int]);
                assert(t1.filter(f) == if f(t1.last()) {
                    t1.drop_last().filter(f).push(t1.last())
                } else {
                    t1.drop_last().filter(f)
                });
            }
            k += 1;
        }
        proof {
            assert(self.rects@.take(self.rects@.len() as int) =~= self.rects@);
        }

        let mut m: usize = 0;
        while m < self.curves.len()
            invariant
                0 <= m <= self.curves@.len(),
                page.page_number == self.page_number,
                page.doctop_offset == self.doctop_offset,
                page.width == crate::fx::sat64(bbox.x1 as int - bbox.x0 as int),
                page.height == crate::fx::sat64(bbox.bottom as int - bbox.top as int),
                page.chars@ == self.chars@.filter(|c: Char| within_keeps_char(c, bbox)),
                page.lines@ == self.lines@.filter(|l: Line| within_keeps_line(l, bbox)),
                page.rects@ == self.rects@.filter(|rc: Rect| within_keeps_rect(rc, bbox)),
                page.curves@.len() == self.curves@.take(m as int).filter(
                    |cv: Curve| within_keeps_curve(cv, bbox),
                ).len(),
                forall|k: int|
                    0 <= k < page.curves@.len() ==> (#[trigger] page.curves@[k]).points@
                        == self.curves@.take(m as int).filter(
                        |cv: Curve| within_keeps_curve(cv, bbox),
                    )[k].points@ && page.curves@[k].width == self.curves@.take(m as int).filter(
                        |cv: Curve| within_keeps_curve(cv, bbox),
                    )[k].width,
            decreases self.curves@.len() - m,
        {
            let cv = &self.curves[m];
            let cb = cv.bbox();
            let ghost pre = page.curves@;
            if bbox.contains_bbox(&cb) {
                page.curves.push(cv.clone());
            }
            proof {
                reveal_with_fuel(Seq::<Curve>::filter, 1);
                let f = |cv: Curve| within_keeps_curve(cv, bbox);
                let t1 = self.curves@.take(m as int + 1);
                assert(t1.drop_last() =~= self.curves@.take(m as int));
                assert(t1.last() == self.curves@[m as int]);
                assert(t1.filter(f) == if f(t1.last()) {
                    t1.drop_last().filter(f).push(t1.last())
                } else {
                    t1.drop_last().filter(f)
                });
            }
            m += 1;
        }
        proof {
            assert(self.curves@.take(self.curves@.len() as int) =~= self.curves@);
        }
        page
    }
}

} // verus!

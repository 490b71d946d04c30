use vstd::prelude::*;
use vstd::string::StringExecFns;
use crate::bbox::BBox;
use crate::matrix::Matrix;
use crate::fx::isqrt_u128;

verus! {

/// A color value carried by primitives. Components are fixed-point
/// fractions (`fx::SCALE` = 1.0).
#[derive(Debug, Clone, Copy, PartialEq, Eq, Structural)]
pub enum Color {
    Gray(i64),
    RGB(i64, i64, i64),
    CMYK(i64, i64, i64, i64),
}

/// A single positioned character with full positioning information.
#[derive(Debug)]
pub struct Char {
    pub text: String,
    pub fontname: String,
    pub size: i64,
    pub x0: i64,
    pub x1: i64,
    pub top: i64,
    pub bottom: i64,
    /// Distance from the top of the document (cumulative page heights).
    pub doctop: i64,
    /// The text rendering matrix at the moment the glyph was drawn.
    pub matrix: Matrix,
    /// Whether the text is upright (not rotated).
    pub upright: bool,
    pub stroking_color: Option<Color>,
    pub non_stroking_color: Option<Color>,
    /// The advance width consumed by this character.
    pub adv: i64,
}

impl Clone for Char {
    fn clone(&self) -> (r: Self)
        ensures
            r == *self,
    {
        Char {
            text: self.text.clone(),
            fontname: self.fontname.clone(),
            size: self.size,
            x0: self.x0,
            x1: self.x1,
            top: self.top,
            bottom: self.bottom,
            doctop: self.doctop,
            matrix: self.matrix,
            upright: self.upright,
            stroking_color: self.stroking_color,
            non_stroking_color: self.non_stroking_color,
            adv: self.adv,
        }
    }
}

impl Char {
    pub open spec fn spec_bbox(self) -> BBox {
        (BBox { x0: self.x0, top: self.top, x1: self.x1, bottom: self.bottom })
    }

    pub fn bbox(&self) -> (r: BBox)
        ensures
            r == self.spec_bbox(),
    {
        BBox { x0: self.x0, top: self.top, x1: self.x1, bottom: self.bottom }
    }
}

/// A line segment on the page.
#[derive(Debug)]
pub struct Line {
    pub x0: i64,
    pub y0: i64,
    pub x1: i64,
    pub y1: i64,
    pub top: i64,
    pub bottom: i64,
    pub width: i64,
    pub stroking_color: Option<Color>,
    pub non_stroking_color: Option<Color>,
}

impl Clone for Line {
    fn clone(&self) -> (r: Self)
        ensures
            r == *self,
    {
        Line {
            x0: self.x0,
            y0: self.y0,
            x1: self.x1,
            y1: self.y1,
            top: self.top,
            bottom: self.bottom,
            width: self.width,
            stroking_color: self.stroking_color,
            non_stroking_color: self.non_stroking_color,
        }
    }
}

impl Line {
    pub open spec fn spec_bbox(self) -> BBox {
        (BBox {
            x0: if self.x0 <= self.x1 { self.x0 } else { self.x1 },
            top: self.top,
            x1: if self.x0 >= self.x1 { self.x0 } else { self.x1 },
            bottom: self.bottom,
        })
    }

    pub fn bbox(&self) -> (r: BBox)
        ensures
            r == self.spec_bbox(),
    {
        BBox {
            x0: crate::fx::min_i64(self.x0, self.x1),
            top: self.top,
            x1: crate::fx::max_i64(self.x0, self.x1),
            bottom: self.bottom,
        }
    }

    pub fn is_horizontal(&self) -> (r: bool)
        ensures
            r == (self.y0 == self.y1),
    {
        self.y0 == self.y1
    }

    pub fn is_vertical(&self) -> (r: bool)
        ensures
            r == (self.x0 == self.x1),
    {
        self.x0 == self.x1
    }

    /// The Euclidean length, floor(sqrt(dx^2 + dy^2)) over the saturated
    /// coordinate differences, saturated into i64.
    pub fn length(&self) -> (r: i64)
        ensures
            r >= 0,
            ({
                let dx = crate::fx::sat64(self.x1 as int - self.x0 as int);
                let dy = crate::fx::sat64(self.y1 as int - self.y0 as int);
                (r as int) * (r as int) <= dx * dx + dy * dy
                    && (r < i64::MAX ==> dx * dx + dy * dy < (r as int + 1) * (r as int + 1))
            }),
    {
        let dx: i64 = crate::fx::fx_sub(self.x1, self.x0);
        let dy: i64 = crate::fx::fx_sub(self.y1, self.y0);
        proof {
            crate::fx::lemma_i64_product_bounds(dx as int, dx as int);
            crate::fx::lemma_i64_product_bounds(dy as int, dy as int);
            assert((dx as int) * (dx as int) >= 0) by (nonlinear_arith);
            assert((dy as int) * (dy as int) >= 0) by (nonlinear_arith);
        }
        let xx: i128 = (dx as i128) * (dx as i128);
        let yy: i128 = (dy as i128) * (dy as i128);
        let sq: u128 = (xx as u128) + (yy as u128);
        let root = isqrt_u128(sq);
        let r: i64 = if root > i64::MAX as u64 { i64::MAX } else { root as i64 };
        proof {
            assert((r as int) * (r as int) <= (root as int) * (root as int)) by (nonlinear_arith)
                requires 0 <= r <= root;
        }
        r
    }
}

/// An axis-aligned rectangle on the page.
#[derive(Debug)]
pub struct Rect {
    pub x0: i64,
    pub top: i64,
    pub x1: i64,
    pub bottom: i64,
    pub width: i64,
    pub height: i64,
    pub linewidth: i64,
    pub stroking_color: Option<Color>,
    pub non_stroking_color: Option<Color>,
}

impl Clone for Rect {
    fn clone(&self) -> (r: Self)
        ensures
            r == *self,
    {
        Rect {
            x0: self.x0,
            top: self.top,
            x1: self.x1,
            bottom: self.bottom,
            width: self.width,
            height: self.height,
            linewidth: self.linewidth,
            stroking_color: self.stroking_color,
            non_stroking_color: self.non_stroking_color,
        }
    }
}

impl Rect {
    pub open spec fn spec_bbox(self) -> BBox {
        (BBox { x0: self.x0, top: self.top, x1: self.x1, bottom: self.bottom })
    }

    pub fn bbox(&self) -> (r: BBox)
        ensures
            r == self.spec_bbox(),
    {
        BBox { x0: self.x0, top: self.top, x1: self.x1, bottom: self.bottom }
    }

    /// The four sides of the rectangle, as `to_edges` emits them: top,
    /// bottom, left, right.
    pub open spec fn spec_edges(self) -> Seq<Line> {
        seq![
            (Line {
                x0: self.x0, y0: self.top, x1: self.x1, y1: self.top,
                top: self.top, bottom: self.top, width: self.linewidth,
                stroking_color: self.stroking_color,
                non_stroking_color: self.non_stroking_color,
            }),
            (Line {
                x0: self.x0, y0: self.bottom, x1: self.x1, y1: self.bottom,
                top: self.bottom, bottom: self.bottom, width: self.linewidth,
                stroking_color: self.stroking_color,
                non_stroking_color: self.non_stroking_color,
            }),
            (Line {
                x0: self.x0, y0: self.top, x1: self.x0, y1: self.bottom,
                top: self.top, bottom: self.bottom, width: self.linewidth,
                stroking_color: self.stroking_color,
                non_stroking_color: self.non_stroking_color,
            }),
            (Line {
                x0: self.x1, y0: self.top, x1: self.x1, y1: self.bottom,
                top: self.top, bottom: self.bottom, width: self.linewidth,
                stroking_color: self.stroking_color,
                non_stroking_color: self.non_stroking_color,
            }),
        ]
    }

    /// Decompose the rectangle into its four sides.
    pub fn to_edges(&self) -> (r: Vec<Line>)
        ensures
            r@ == self.spec_edges(),
    {
        let mut r: Vec<Line> = Vec::new();
        r.push(Line {
            x0: self.x0, y0: self.top, x1: self.x1, y1: self.top,
            top: self.top, bottom: self.top, width: self.linewidth,
            stroking_color: self.stroking_color,
            non_stroking_color: self.non_stroking_color,
        });
        r.push(Line {
            x0: self.x0, y0: self.bottom, x1: self.x1, y1: self.bottom,
            top: self.bottom, bottom: self.bottom, width: self.linewidth,
            stroking_color: self.stroking_color,
            non_stroking_color: self.non_stroking_color,
        });
        r.push(Line {
            x0: self.x0, y0: self.top, x1: self.x0, y1: self.bottom,
            top: self.top, bottom: self.bottom, width: self.linewidth,
            stroking_color: self.stroking_color,
            non_stroking_color: self.non_stroking_color,
        });
        r.push(Line {
            x0: self.x1, y0: self.top, x1: self.x1, y1: self.bottom,
            top: self.top, bottom: self.bottom, width: self.linewidth,
            stroking_color: self.stroking_color,
            non_stroking_color: self.non_stroking_color,
        });
        proof {
            assert(r@ =~= self.spec_edges());
        }
        r
    }
}

/// The four edges of a well-formed rectangle are axis-aligned, and the
/// union of their bounding boxes is exactly the rectangle's bounding box.
pub proof fn lemma_rect_edges_cover(r: Rect)
    requires
        r.x0 <= r.x1,
        r.top <= r.bottom,
    ensures
        r.spec_edges().len() == 4,
        forall|k: int|
            0 <= k < 4 ==> (#[trigger] r.spec_edges()[k]).y0 == r.spec_edges()[k].y1
                || r.spec_edges()[k].x0 == r.spec_edges()[k].x1,
        r.spec_edges()[0].spec_bbox().spec_union(r.spec_edges()[1].spec_bbox()).spec_union(
            r.spec_edges()[2].spec_bbox(),
        ).spec_union(r.spec_edges()[3].spec_bbox()) == r.spec_bbox(),
{
}

/// A cubic curve on the page, stored by its control points in top-left
/// coordinates.
#[derive(Debug)]
pub struct Curve {
    pub points: Vec<(i64, i64)>,
    pub width: i64,
    pub stroking_color: Option<Color>,
    pub non_stroking_color: Option<Color>,
}

impl Clone for Curve {
    fn clone(&self) -> (r: Self)
        ensures
            r.points@ == self.points@,
            r.width == self.width,
            r.stroking_color == self.stroking_color,
            r.non_stroking_color == self.non_stroking_color,
    {
        let mut points: Vec<(i64, i64)> = Vec::new();
        let mut i: usize = 0;
        while i < self.points.len()
            invariant
                i <= self.points@.len(),
                points@ =~= self.points@.take(i as int),
            decreases self.points@.len() - i,
        {
            points.push(self.points[i]);
            i += 1;
        }
        proof {
            assert(points@ =~= self.points@);
        }
        Curve {
            points,
            width: self.width,
            stroking_color: self.stroking_color,
            non_stroking_color: self.non_stroking_color,
        }
    }
}

/// The running hull of a curve's control points from index `i` on.
pub open spec fn curve_hull_from(points: Seq<(i64, i64)>, i: int, acc: BBox) -> BBox
    decreases points.len() - i,
{
    if i < 0 || i >= points.len() {
        acc
    } else {
        curve_hull_from(
            points,
            i + 1,
            BBox {
                x0: if points[i].0 < acc.x0 { points[i].0 } else { acc.x0 },
                top: if points[i].1 < acc.top { points[i].1 } else { acc.top },
                x1: if points[i].0 > acc.x1 { points[i].0 } else { acc.x1 },
                bottom: if points[i].1 > acc.bottom { points[i].1 } else { acc.bottom },
            },
        )
    }
}

/// The axis-aligned hull of a curve's control points; the zero box for an
/// empty curve.
pub open spec fn spec_curve_bbox(points: Seq<(i64, i64)>) -> BBox {
    if points.len() == 0 {
        (BBox { x0: 0i64, top: 0i64, x1: 0i64, bottom: 0i64 })
    } else {
        curve_hull_from(
            points,
            1,
            (BBox { x0: points[0].0, top: points[0].1, x1: points[0].0, bottom: points[0].1 }),
        )
    }
}

impl Curve {
    /// The axis-aligned hull of the control points; the zero box when the
    /// curve has none.
    pub fn bbox(&self) -> (r: BBox)
        ensures
            r == spec_curve_bbox(self.points@),
            self.points@.len() > 0 ==> {
                &&& forall|k: int|
                    0 <= k < self.points@.len()
                        ==> r.x0 <= (#[trigger] self.points@[k]).0 <= r.x1
                            && r.top <= self.points@[k].1 <= r.bottom
                &&& exists|k: int| 0 <= k < self.points@.len() && (#[trigger] self.points@[k]).0 == r.x0
                &&& exists|k: int| 0 <= k < self.points@.len() && (#[trigger] self.points@[k]).0 == r.x1
                &&& exists|k: int| 0 <= k < self.points@.len() && (#[trigger] self.points@[k]).1 == r.top
                &&& exists|k: int| 0 <= k < self.points@.len() && (#[trigger] self.points@[k]).1 == r.bottom
            },
    {
        if self.points.len() == 0 {
            return BBox { x0: 0, top: 0, x1: 0, bottom: 0 };
        }
        let p0 = self.points[0];
        let mut x0 = p0.0;
        let mut x1 = p0.0;
        let mut top = p0.1;
        let mut bottom = p0.1;
        let mut i: usize = 1;
        while i < self.points.len()
            invariant
                1 <= i <= self.points@.len(),
                spec_curve_bbox(self.points@) == curve_hull_from(
                    self.points@,
                    i as int,
                    BBox { x0, top, x1, bottom },
                ),
                forall|k: int|
                    0 <= k < i ==> x0 <= (#[trigger] self.points@[k]).0 <= x1
                        && top <= self.points@[k].1 <= bottom,
                exists|k: int| 0 <= k < i && (#[trigger] self.points@[k]).0 == x0,
                exists|k: int| 0 <= k < i && (#[trigger] self.points@[k]).0 == x1,
                exists|k: int| 0 <= k < i && (#[trigger] self.points@[k]).1 == top,
                exists|k: int| 0 <= k < i && (#[trigger] self.points@[k]).1 == bottom,
            decreases self.points@.len() - i,
        {
            let p = self.points[i];
            if p.0 < x0 {
                x0 = p.0;
            }
            if p.0 > x1 {
                x1 = p.0;
            }
            if p.1 < top {
                top = p.1;
            }
            if p.1 > bottom {
                bottom = p.1;
            }
            i += 1;
        }
        BBox { x0, top, x1, bottom }
    }
}

/// A word: a maximal run of adjacent characters, with its hull.
#[derive(Debug)]
pub struct Word {
    pub text: String,
    pub x0: i64,
    pub x1: i64,
    pub top: i64,
    pub bottom: i64,
    pub doctop: i64,
    pub upright: bool,
    pub fontname: String,
    pub size: i64,
}

impl Clone for Word {
    fn clone(&self) -> (r: Self)
        ensures
            r == *self,
    {
        Word {
            text: self.text.clone(),
            x0: self.x0,
            x1: self.x1,
            top: self.top,
            bottom: self.bottom,
            doctop: self.doctop,
            upright: self.upright,
            fontname: self.fontname.clone(),
            size: self.size,
        }
    }
}

impl Word {
    pub open spec fn spec_bbox(self) -> BBox {
        (BBox { x0: self.x0, top: self.top, x1: self.x1, bottom: self.bottom })
    }

    pub fn bbox(&self) -> (r: BBox)
        ensures
            r == self.spec_bbox(),
    {
        BBox { x0: self.x0, top: self.top, x1: self.x1, bottom: self.bottom }
    }
}

/// Graphics state tracked while a content stream runs.
#[derive(Debug)]
pub struct GraphicsState {
    pub ctm: Matrix,
    pub line_width: i64,
    pub line_cap: i32,
    pub line_join: i32,
    pub miter_limit: i64,
    pub dash_pattern: Vec<i64>,
    pub dash_phase: i64,
    pub stroking_color: Option<Color>,
    pub non_stroking_color: Option<Color>,
    pub stroking_colorspace: String,
    pub non_stroking_colorspace: String,
}

impl Clone for GraphicsState {
    fn clone(&self) -> (r: Self)
        ensures
            r.ctm == self.ctm,
            r.line_width == self.line_width,
            r.line_cap == self.line_cap,
            r.line_join == self.line_join,
            r.miter_limit == self.miter_limit,
            r.dash_pattern@ == self.dash_pattern@,
            r.dash_phase == self.dash_phase,
            r.stroking_color == self.stroking_color,
            r.non_stroking_color == self.non_stroking_color,
            r.stroking_colorspace == self.stroking_colorspace,
            r.non_stroking_colorspace == self.non_stroking_colorspace,
    {
        let mut dash_pattern: Vec<i64> = Vec::new();
        let mut i: usize = 0;
        while i < self.dash_pattern.len()
            invariant
                i <= self.dash_pattern@.len(),
                dash_pattern@ =~= self.dash_pattern@.take(i as int),
            decreases self.dash_pattern@.len() - i,
        {
            dash_pattern.push(self.dash_pattern[i]);
            i += 1;
        }
        proof {
            assert(dash_pattern@ =~= self.dash_pattern@);
        }
        GraphicsState {
            ctm: self.ctm,
            line_width: self.line_width,
            line_cap: self.line_cap,
            line_join: self.line_join,
            miter_limit: self.miter_limit,
            dash_pattern,
            dash_phase: self.dash_phase,
            stroking_color: self.stroking_color,
            non_stroking_color: self.non_stroking_color,
            stroking_colorspace: self.stroking_colorspace.clone(),
            non_stroking_colorspace: self.non_stroking_colorspace.clone(),
        }
    }
}

impl Default for GraphicsState {
    fn default() -> (r: Self)
        ensures
            r.ctm == Matrix::spec_identity(),
            r.line_width == crate::fx::SCALE,
            r.dash_pattern@.len() == 0,
            r.dash_phase == 0,
    {
        GraphicsState::initial()
    }
}

impl GraphicsState {
    /// The initial graphics state: identity transform, unit line width,
    /// black in the gray colorspace on both color slots.
    pub fn initial() -> (r: GraphicsState)
        ensures
            r.ctm == Matrix::spec_identity(),
            r.line_width == crate::fx::SCALE,
            r.line_cap == 0 && r.line_join == 0,
            r.miter_limit == 10 * crate::fx::SCALE,
            r.dash_pattern@.len() == 0 && r.dash_phase == 0,
            r.stroking_color == Some(Color::Gray(0i64)),
            r.non_stroking_color == Some(Color::Gray(0i64)),
            r.stroking_colorspace@ == "DeviceGray"@,
            r.non_stroking_colorspace@ == "DeviceGray"@,
    {
        GraphicsState {
            ctm: Matrix::identity(),
            line_width: crate::fx::SCALE,
            line_cap: 0,
            line_join: 0,
            miter_limit: 10 * crate::fx::SCALE,
            dash_pattern: Vec::new(),
            dash_phase: 0,
            stroking_color: Some(Color::Gray(0)),
            non_stroking_color: Some(Color::Gray(0)),
            stroking_colorspace: String::from_str("DeviceGray"),
            non_stroking_colorspace: String::from_str("DeviceGray"),
        }
    }
}

/// Text state tracked while a content stream runs.
#[derive(Debug)]
pub struct TextState {
    pub font_name: String,
    pub font_size: i64,
    pub char_spacing: i64,
    pub word_spacing: i64,
    /// Horizontal scaling in percent (100 * SCALE is 100%).
    pub horizontal_scaling: i64,
    pub leading: i64,
    pub rise: i64,
    pub render_mode: i32,
    /// The text matrix (Tm).
    pub text_matrix: Matrix,
    /// The text line matrix, saved at the beginning of each line.
    pub text_line_matrix: Matrix,
}

impl Clone for TextState {
    fn clone(&self) -> (r: Self)
        ensures
            r == *self,
    {
        TextState {
            font_name: self.font_name.clone(),
            font_size: self.font_size,
            char_spacing: self.char_spacing,
            word_spacing: self.word_spacing,
            horizontal_scaling: self.horizontal_scaling,
            leading: self.leading,
            rise: self.rise,
            render_mode: self.render_mode,
            text_matrix: self.text_matrix,
            text_line_matrix: self.text_line_matrix,
        }
    }
}

impl Default for TextState {
    fn default() -> (r: Self)
        ensures
            r.horizontal_scaling == 100 * crate::fx::SCALE,
            r.text_matrix == Matrix::spec_identity(),
            r.text_line_matrix == Matrix::spec_identity(),
    {
        TextState::initial()
    }
}

impl TextState {
    /// The initial text state: no font, 100% horizontal scaling, identity
    /// text matrices.
    pub fn initial() -> (r: TextState)
        ensures
            r.font_name@ == Seq::<char>::empty(),
            r.font_size == 0 && r.char_spacing == 0 && r.word_spacing == 0,
            r.horizontal_scaling == 100 * crate::fx::SCALE,
            r.leading == 0 && r.rise == 0 && r.render_mode == 0,
            r.text_matrix == Matrix::spec_identity(),
            r.text_line_matrix == Matrix::spec_identity(),
    {
        TextState {
            font_name: String::new(),
            font_size: 0,
            char_spacing: 0,
            word_spacing: 0,
            horizontal_scaling: 100 * crate::fx::SCALE,
            leading: 0,
            rise: 0,
            render_mode: 0,
            text_matrix: Matrix::identity(),
            text_line_matrix: Matrix::identity(),
        }
    }
}

} // verus!

use vstd::prelude::*;
use vstd::string::StringSliceAdditionalSpecFns;
use crate::matrix::Matrix;
use crate::fx::{fx_add, fx_sub, fx_mul, fx_neg, min_i64, max_i64, sat64, div_floor_i128, clamp64, SCALE};
use crate::objects::{Char, Line, Rect, Curve, Color, GraphicsState, TextState};
use crate::ops::{Op, Arg, TjItem, Resources, FormXObject};
use crate::fonts::{FontInfo, resolve_font, bytes_to_text};
use crate::encoding::{bytes_eq, str_eq};

verus! {

/// A recorded path construction step, in fixed-point user-space
/// coordinates.
#[derive(Debug, Clone, Copy)]
pub enum PathSeg {
    MoveTo(i64, i64),
    LineTo(i64, i64),
    CurveTo(i64, i64, i64, i64, i64, i64),
    ClosePath,
    Rectangle(i64, i64, i64, i64),
}

/// The content-stream interpreter: a stack machine over drawing operators
/// that emits positioned primitives in top-left page coordinates.
#[derive(Debug)]
pub struct ContentStreamInterpreter {
    pub page_height: i64,
    /// Sum of the heights of all earlier pages.
    pub doctop_offset: i64,
    pub fonts: Vec<(String, FontInfo)>,
    pub gs: GraphicsState,
    pub stack: Vec<GraphicsState>,
    pub ts: TextState,
    pub in_text: bool,
    pub path: Vec<PathSeg>,
    pub current_point: Option<(i64, i64)>,
    pub chars: Vec<Char>,
    pub lines: Vec<Line>,
    pub rects: Vec<Rect>,
    pub curves: Vec<Curve>,
}

/// The shape every emitted primitive keeps: ordered sides, nonnegative
/// character size, and the document offset law
/// `doctop = top + doctop_offset`.
pub open spec fn prims_wf(it: ContentStreamInterpreter) -> bool {
    &&& forall|k: int|
        0 <= k < it.chars@.len() ==> {
            let c = #[trigger] it.chars@[k];
            c.top <= c.bottom && c.size >= 0 && c.doctop == sat64(c.top + it.doctop_offset)
                && c.bottom == sat64(it.page_height - c.matrix.f) && c.x0 == c.matrix.e
                && c.top == sat64(c.bottom - c.size)
                && c.upright == (c.matrix.b == 0 && c.matrix.c == 0)
        }
    &&& forall|k: int|
        0 <= k < it.lines@.len() ==> (#[trigger] it.lines@[k]).top <= it.lines@[k].bottom
            && it.lines@[k].x0 <= it.lines@[k].x1
    &&& forall|k: int|
        0 <= k < it.rects@.len() ==> (#[trigger] it.rects@[k]).x0 <= it.rects@[k].x1
            && it.rects@[k].top <= it.rects@[k].bottom
}

/// How one operator changes the graphics-state stack depth: `q` pushes,
/// `Q` pops unless the stack is empty, everything else leaves it alone
/// (a form runs inside its own balanced save/restore).
pub open spec fn spec_stack_after(n: nat, name: Seq<u8>) -> nat {
    if name == "q".spec_bytes() {
        n + 1
    } else if name == "Q".spec_bytes() {
        if n > 0 {
            (n - 1) as nat
        } else {
            0
        }
    } else {
        n
    }
}

/// The running q/Q balance of the first `i` operators.
pub open spec fn qq_balance(ops: Seq<Op>, i: int) -> int
    decreases i,
{
    if i <= 0 {
        0
    } else {
        let d: int = if ops[i - 1].name@ == "q".spec_bytes() {
            1
        } else if ops[i - 1].name@ == "Q".spec_bytes() {
            -1
        } else {
            0
        };
        qq_balance(ops, i - 1) + d
    }
}

/// A well-formed stream: no prefix closes more states than it opened, and
/// the whole stream closes every one it opens.
pub open spec fn qq_balanced(ops: Seq<Op>) -> bool {
    &&& forall|i: int| 0 <= i <= ops.len() ==> qq_balance(ops, i) >= 0
    &&& qq_balance(ops, ops.len() as int) == 0
}

/// Whether every cached font reports only nonnegative widths.
pub open spec fn fonts_nonneg(fonts: Seq<(String, FontInfo)>) -> bool {
    forall|k: int|
        0 <= k < fonts.len() ==> (#[trigger] fonts[k]).1.default_width >= 0 && (forall|c: u32|
            fonts[k].1.widths@.dom().contains(c) ==> (#[trigger] fonts[k].1.widths@[c]) >= 0)
}

/// Whether no operator of the stream invokes an XObject.
pub open spec fn no_forms(ops: Seq<Op>) -> bool {
    forall|i: int| 0 <= i < ops.len() ==> (#[trigger] ops[i].name@) != "Do".spec_bytes()
}

/// The numeric value of operand `i`, or zero when it is missing or not a
/// number.
pub open spec fn spec_argn(args: Seq<Arg>, i: int) -> i64 {
    if 0 <= i < args.len() {
        match args[i] {
            Arg::Num(v) => v,
            _ => 0,
        }
    } else {
        0
    }
}

/// Read operand `i` as a number, defaulting to zero.
pub fn argn(args: &Vec<Arg>, i: usize) -> (r: i64)
    ensures
        r == spec_argn(args@, i as int),
{
    if i < args.len() {
        match &args[i] {
            Arg::Num(v) => *v,
            _ => 0,
        }
    } else {
        0
    }
}

/// The color a color-setting operator's operands select, given the active
/// colorspace: known colorspaces read their component count, unknown ones
/// fall back on the operand count.
pub open spec fn spec_parse_color(args: Seq<Arg>, cs: Seq<char>) -> Option<Color> {
    if (cs == "DeviceGray"@ || cs == "CalGray"@) && args.len() >= 1 {
        Some(Color::Gray(spec_argn(args, 0)))
    } else if (cs == "DeviceRGB"@ || cs == "CalRGB"@) && args.len() >= 3 {
        Some(Color::RGB(spec_argn(args, 0), spec_argn(args, 1), spec_argn(args, 2)))
    } else if cs == "DeviceCMYK"@ && args.len() >= 4 {
        Some(Color::CMYK(spec_argn(args, 0), spec_argn(args, 1), spec_argn(args, 2), spec_argn(args, 3)))
    } else if args.len() == 1 {
        Some(Color::Gray(spec_argn(args, 0)))
    } else if args.len() == 3 {
        Some(Color::RGB(spec_argn(args, 0), spec_argn(args, 1), spec_argn(args, 2)))
    } else if args.len() == 4 {
        Some(Color::CMYK(spec_argn(args, 0), spec_argn(args, 1), spec_argn(args, 2), spec_argn(args, 3)))
    } else {
        None
    }
}

/// Parse a color from operands under the active colorspace.
pub fn parse_color(args: &Vec<Arg>, colorspace: &str) -> (r: Option<Color>)
    ensures
        r == spec_parse_color(args@, colorspace@),
{
    let n = args.len();
    if (str_eq(colorspace, "DeviceGray") || str_eq(colorspace, "CalGray")) && n >= 1 {
        Some(Color::Gray(argn(args, 0)))
    } else if (str_eq(colorspace, "DeviceRGB") || str_eq(colorspace, "CalRGB")) && n >= 3 {
        Some(Color::RGB(argn(args, 0), argn(args, 1), argn(args, 2)))
    } else if str_eq(colorspace, "DeviceCMYK") && n >= 4 {
        Some(Color::CMYK(argn(args, 0), argn(args, 1), argn(args, 2), argn(args, 3)))
    } else if n == 1 {
        Some(Color::Gray(argn(args, 0)))
    } else if n == 3 {
        Some(Color::RGB(argn(args, 0), argn(args, 1), argn(args, 2)))
    } else if n == 4 {
        Some(Color::CMYK(argn(args, 0), argn(args, 1), argn(args, 2), argn(args, 3)))
    } else {
        None
    }
}

/// Read a matrix from six numeric operands.
fn args_matrix(args: &Vec<Arg>) -> (m: Matrix)
    ensures
        m == (Matrix {
            a: spec_argn(args@, 0),
            b: spec_argn(args@, 1),
            c: spec_argn(args@, 2),
            d: spec_argn(args@, 3),
            e: spec_argn(args@, 4),
            f: spec_argn(args@, 5),
        }),
{
    Matrix {
        a: argn(args, 0),
        b: argn(args, 1),
        c: argn(args, 2),
        d: argn(args, 3),
        e: argn(args, 4),
        f: argn(args, 5),
    }
}

/// The first cached font under the given name, scanning from entry `i`.
pub open spec fn spec_find_font_from(fonts: Seq<(String, FontInfo)>, name: Seq<char>, i: int) -> Option<FontInfo>
    decreases fonts.len() - i,
{
    if i < 0 || i >= fonts.len() {
        None
    } else if fonts[i].0@ == name {
        Some(fonts[i].1)
    } else {
        spec_find_font_from(fonts, name, i + 1)
    }
}

/// The first cached font under the given name.
pub open spec fn spec_find_font(fonts: Seq<(String, FontInfo)>, name: Seq<char>) -> Option<FontInfo> {
    spec_find_font_from(fonts, name, 0)
}

/// The horizontal scale factor: the percentage divided by one hundred.
pub open spec fn spec_h_scale(hs: i64) -> i64 {
    (hs as int / 100) as i64
}

/// Whether the selected font reads two-byte codes; the fallback reads one.
pub open spec fn spec_two_byte(font: Option<FontInfo>) -> bool {
    match font {
        Some(f) => f.is_cid || f.bytes_per_char == 2,
        None => false,
    }
}

/// The width a code draws with: the font's table, or a full em for the
/// fallback.
pub open spec fn spec_width_of(font: Option<FontInfo>, code: u32) -> i64 {
    match font {
        Some(f) => f.spec_char_width(code),
        None => (1000 * SCALE) as i64,
    }
}

/// What the missing-font fallback decodes a code to: the standard table,
/// raw ASCII below 128, else the replacement character.
pub open spec fn spec_fallback_text(code: u32) -> Seq<char> {
    match crate::encoding::spec_standard(code) {
        Some(c) => seq![c],
        None => if code < 128 {
            seq![crate::trusted::char_of(code)]
        } else {
            seq!['\u{FFFD}']
        },
    }
}

/// The replacement text a code decodes to under the selected font.
pub open spec fn spec_text_of(font: Option<FontInfo>, code: u32) -> Seq<char> {
    match font {
        Some(f) => f.spec_decode_char(code),
        None => spec_fallback_text(code),
    }
}

/// A width-table entry rescaled to a text-space fraction.
pub open spec fn spec_w0f(w0: i64) -> i64 {
    (w0 as int / 1000) as i64
}

/// How far one glyph advances the text matrix:
/// (w0 * size + char_spacing) * h, plus word_spacing * h for a space.
pub open spec fn spec_glyph_adv(font: Option<FontInfo>, code: u32, ts0: TextState, h: i64) -> i64 {
    ({
        let w0f = spec_w0f(spec_width_of(font, code));
        let base = crate::fx::fx_mul_spec(
            sat64(crate::fx::fx_mul_spec(w0f as int, ts0.font_size as int) + ts0.char_spacing as int),
            h as int,
        );
        if spec_text_of(font, code) == " "@ {
            sat64(base + crate::fx::fx_mul_spec(ts0.word_spacing as int, h as int)) as i64
        } else {
            sat64(base) as i64
        }
    })
}

/// The glyph-space matrix a text state mounts before Tm and the CTM.
pub open spec fn spec_font_matrix(ts0: TextState, h: i64) -> Matrix {
    (Matrix {
        a: crate::fx::fx_mul_spec(ts0.font_size as int, h as int) as i64,
        b: 0,
        c: 0,
        d: ts0.font_size,
        e: 0,
        f: ts0.rise,
    })
}

/// The text matrix after the first `k` glyphs of a shown string have
/// advanced it.
pub open spec fn spec_tm_at(font: Option<FontInfo>, ts0: TextState, h: i64, codes: Seq<u32>, k: int) -> Matrix
    decreases k,
{
    if k <= 0 {
        ts0.text_matrix
    } else {
        Matrix::spec_translate(spec_glyph_adv(font, codes[k - 1], ts0, h), 0i64).spec_mul(
            spec_tm_at(font, ts0, h, codes, k - 1),
        )
    }
}

/// The text rendering matrix of glyph `k`: FontMatrix . Tm . CTM.
pub open spec fn spec_trm_at(font: Option<FontInfo>, ts0: TextState, ctm: Matrix, h: i64, codes: Seq<u32>, k: int) -> Matrix {
    spec_font_matrix(ts0, h).spec_mul(spec_tm_at(font, ts0, h, codes, k)).spec_mul(ctm)
}

/// Everything the emitted glyph `k` of a shown string must satisfy: its
/// text is the decoded replacement, its matrix is the rendering matrix at
/// that position, its box and advance follow the layout formulas, and it
/// carries the live colors.
pub open spec fn glyph_emitted(
    c: Char,
    font: Option<FontInfo>,
    ts0: TextState,
    gs0: GraphicsState,
    page_height: i64,
    doctop_offset: i64,
    h: i64,
    codes: Seq<u32>,
    k: int,
) -> bool {
    ({
        let code = codes[k];
        let trm = spec_trm_at(font, ts0, gs0.ctm, h, codes, k);
        &&& c.text@ == spec_text_of(font, code)
        &&& c.matrix == trm
        &&& c.x0 == trm.e
        &&& c.bottom == sat64(page_height as int - trm.f as int)
        &&& c.top == sat64(c.bottom as int - c.size as int)
        &&& c.doctop == sat64(c.top as int + doctop_offset as int)
        &&& c.size >= 0
        &&& (c.size as int) * (c.size as int) <= (trm.b as int) * (trm.b as int) + (trm.d as int)
            * (trm.d as int)
        &&& (c.size < i64::MAX ==> (trm.b as int) * (trm.b as int) + (trm.d as int) * (trm.d as int)
            < (c.size as int + 1) * (c.size as int + 1))
        &&& c.x1 == sat64(
            c.x0 as int + crate::fx::fx_mul_spec(
                crate::fx::fx_mul_spec(spec_w0f(spec_width_of(font, code)) as int, c.size as int),
                h as int,
            ),
        )
        &&& c.adv == spec_glyph_adv(font, code, ts0, h)
        &&& c.upright == (trm.b == 0 && trm.c == 0)
        &&& c.fontname@ == (match font {
            Some(f) => f.base_font@,
            None => Seq::<char>::empty(),
        })
        &&& c.stroking_color == gs0.stroking_color
        &&& c.non_stroking_color == gs0.non_stroking_color
    })
}

/// An emitted glyph whose rendering matrix keeps a nonzero y-basis has a
/// positive size; only a collapsed y-basis (both of `Trm.b` and `Trm.d`
/// zero, as a zero font size forces) can yield size zero.
pub proof fn lemma_char_size_positive(
    c: Char,
    font: Option<FontInfo>,
    ts0: TextState,
    gs0: GraphicsState,
    page_height: i64,
    doctop_offset: i64,
    h: i64,
    codes: Seq<u32>,
    k: int,
)
    requires
        0 <= k < codes.len(),
        glyph_emitted(c, font, ts0, gs0, page_height, doctop_offset, h, codes, k),
        spec_trm_at(font, ts0, gs0.ctm, h, codes, k).b != 0 || spec_trm_at(
            font,
            ts0,
            gs0.ctm,
            h,
            codes,
            k,
        ).d != 0,
    ensures
        c.size > 0,
{
    let trm = spec_trm_at(font, ts0, gs0.ctm, h, codes, k);
    let b = trm.b as int;
    let d = trm.d as int;
    if c.size == 0 {
        assert(b * b + d * d < 1);
        assert(b != 0 ==> b * b >= 1) by (nonlinear_arith);
        assert(d != 0 ==> d * d >= 1) by (nonlinear_arith);
        assert(false);
    }
}

/// What `scale_to_i32` computes: the fixed-point value divided down to an
/// integer and clamped.
pub open spec fn spec_scale_i32(v: i64) -> int {
    ({
        let scaled = v as int / (SCALE as int);
        if scaled > i32::MAX as int {
            i32::MAX as int
        } else if scaled < i32::MIN as int {
            i32::MIN as int
        } else {
            scaled
        }
    })
}

/// The exact effect of the graphics-state operators, in dispatch order:
/// `q` saves, `Q` restores, `cm` pre-concatenates, the rest set their
/// parameter. An unmatched `Q` and a malformed operand list change
/// nothing.
#[verifier::opaque]
pub open spec fn op_state_effect(
    pre: ContentStreamInterpreter,
    post: ContentStreamInterpreter,
    name: Seq<u8>,
    args: Seq<Arg>,
) -> bool {
    if name == "q".spec_bytes() {
        post.stack@.len() == pre.stack@.len() + 1 && post.stack@.subrange(
            0,
            pre.stack@.len() as int,
        ) == pre.stack@ && gs_eq(post.stack@.last(), pre.gs) && post.gs == pre.gs
    } else if name == "Q".spec_bytes() {
        if pre.stack@.len() > 0 {
            post.gs == pre.stack@.last() && post.stack@ == pre.stack@.drop_last()
        } else {
            post.gs == pre.gs && post.stack@ == pre.stack@
        }
    } else if name == "cm".spec_bytes() {
        if args.len() >= 6 {
            post.gs == (GraphicsState {
                ctm: (Matrix {
                    a: spec_argn(args, 0),
                    b: spec_argn(args, 1),
                    c: spec_argn(args, 2),
                    d: spec_argn(args, 3),
                    e: spec_argn(args, 4),
                    f: spec_argn(args, 5),
                }).spec_mul(pre.gs.ctm),
                ..pre.gs
            }) && post.stack == pre.stack
        } else {
            post == pre
        }
    } else if name == "w".spec_bytes() {
        if args.len() >= 1 {
            post.gs == (GraphicsState { line_width: spec_argn(args, 0), ..pre.gs })
                && post.stack == pre.stack
        } else {
            post == pre
        }
    } else if name == "J".spec_bytes() {
        if args.len() >= 1 {
            post.gs.line_cap as int == spec_scale_i32(spec_argn(args, 0)) && post.gs.ctm
                == pre.gs.ctm && post.stack == pre.stack
        } else {
            post == pre
        }
    } else if name == "j".spec_bytes() {
        if args.len() >= 1 {
            post.gs.line_join as int == spec_scale_i32(spec_argn(args, 0)) && post.gs.ctm
                == pre.gs.ctm && post.stack == pre.stack
        } else {
            post == pre
        }
    } else if name == "M".spec_bytes() {
        if args.len() >= 1 {
            post.gs == (GraphicsState { miter_limit: spec_argn(args, 0), ..pre.gs })
                && post.stack == pre.stack
        } else {
            post == pre
        }
    } else if name == "d".spec_bytes() {
        if args.len() >= 2 {
            post.gs.dash_phase == spec_argn(args, 1) && post.gs.ctm == pre.gs.ctm
                && (args[0] is NumArr ==> post.gs.dash_pattern@ == args[0]->NumArr_0@)
                && (!(args[0] is NumArr) ==> post.gs.dash_pattern@ == pre.gs.dash_pattern@)
                && post.stack == pre.stack
        } else {
            post == pre
        }
    } else {
        true
    }
}

/// The exact effect of the color operators, in dispatch order: the
/// colorspace selectors, the colorspace-directed setters, and the
/// one-shot gray/RGB/CMYK setters.
#[verifier::opaque]
pub open spec fn op_color_effect(
    pre: ContentStreamInterpreter,
    post: ContentStreamInterpreter,
    name: Seq<u8>,
    args: Seq<Arg>,
) -> bool {
    if name == "CS".spec_bytes() || name == "cs".spec_bytes() {
        true
    } else if name == "SC".spec_bytes() || name == "SCN".spec_bytes() {
        post.gs == (GraphicsState {
            stroking_color: spec_parse_color(args, pre.gs.stroking_colorspace@),
            ..pre.gs
        })
    } else if name == "sc".spec_bytes() || name == "scn".spec_bytes() {
        post.gs == (GraphicsState {
            non_stroking_color: spec_parse_color(args, pre.gs.non_stroking_colorspace@),
            ..pre.gs
        })
    } else if name == "G".spec_bytes() {
        if args.len() >= 1 {
            post.gs.stroking_color == Some(Color::Gray(spec_argn(args, 0)))
                && post.gs.stroking_colorspace@ == "DeviceGray"@ && post.gs.ctm == pre.gs.ctm
                && post.gs.non_stroking_color == pre.gs.non_stroking_color
        } else {
            post == pre
        }
    } else if name == "g".spec_bytes() {
        if args.len() >= 1 {
            post.gs.non_stroking_color == Some(Color::Gray(spec_argn(args, 0)))
                && post.gs.non_stroking_colorspace@ == "DeviceGray"@ && post.gs.ctm == pre.gs.ctm
                && post.gs.stroking_color == pre.gs.stroking_color
        } else {
            post == pre
        }
    } else if name == "RG".spec_bytes() {
        if args.len() >= 3 {
            post.gs.stroking_color == Some(
                Color::RGB(spec_argn(args, 0), spec_argn(args, 1), spec_argn(args, 2)),
            ) && post.gs.stroking_colorspace@ == "DeviceRGB"@ && post.gs.ctm == pre.gs.ctm
        } else {
            post == pre
        }
    } else if name == "rg".spec_bytes() {
        if args.len() >= 3 {
            post.gs.non_stroking_color == Some(
                Color::RGB(spec_argn(args, 0), spec_argn(args, 1), spec_argn(args, 2)),
            ) && post.gs.non_stroking_colorspace@ == "DeviceRGB"@ && post.gs.ctm == pre.gs.ctm
        } else {
            post == pre
        }
    } else if name == "K".spec_bytes() {
        if args.len() >= 4 {
            post.gs.stroking_color == Some(
                Color::CMYK(
                    spec_argn(args, 0),
                    spec_argn(args, 1),
                    spec_argn(args, 2),
                    spec_argn(args, 3),
                ),
            ) && post.gs.stroking_colorspace@ == "DeviceCMYK"@ && post.gs.ctm == pre.gs.ctm
        } else {
            post == pre
        }
    } else if name == "k".spec_bytes() {
        if args.len() >= 4 {
            post.gs.non_stroking_color == Some(
                Color::CMYK(
                    spec_argn(args, 0),
                    spec_argn(args, 1),
                    spec_argn(args, 2),
                    spec_argn(args, 3),
                ),
            ) && post.gs.non_stroking_colorspace@ == "DeviceCMYK"@ && post.gs.ctm == pre.gs.ctm
        } else {
            post == pre
        }
    } else {
        true
    }
}

/// A point pushed through an affine matrix, as `transform_point` computes
/// it.
pub open spec fn spec_transform(m: Matrix, x: i64, y: i64) -> (i64, i64) {
    (
        sat64(
            crate::matrix::sat_sum(
                crate::fx::fx_mul_spec(m.a as int, x as int),
                crate::fx::fx_mul_spec(m.c as int, y as int),
            ) + m.e as int,
        ) as i64,
        sat64(
            crate::matrix::sat_sum(
                crate::fx::fx_mul_spec(m.b as int, x as int),
                crate::fx::fx_mul_spec(m.d as int, y as int),
            ) + m.f as int,
        ) as i64,
    )
}

/// The line a stroked segment emits, flipped into top-left coordinates,
/// its endpoints ordered left to right.
pub open spec fn spec_line_of(p0: (i64, i64), p1: (i64, i64), ph: i64, lw: i64, sc: Option<Color>, nsc: Option<Color>) -> Line {
    ({
        let q0 = if p0.0 <= p1.0 { p0 } else { p1 };
        let q1 = if p0.0 <= p1.0 { p1 } else { p0 };
        let py0 = sat64(ph as int - q0.1 as int) as i64;
        let py1 = sat64(ph as int - q1.1 as int) as i64;
        (Line {
            x0: q0.0,
            y0: py0,
            x1: q1.0,
            y1: py1,
            top: if py0 <= py1 { py0 } else { py1 },
            bottom: if py0 >= py1 { py0 } else { py1 },
            width: lw,
            stroking_color: sc,
            non_stroking_color: nsc,
        })
    })
}

/// The rectangle a rectangle subpath emits: the axis-aligned hull of its
/// two transformed corners, flipped into top-left coordinates.
pub open spec fn spec_rect_of(ctm: Matrix, x: i64, y: i64, w: i64, h: i64, ph: i64, lw: i64, sc: Option<Color>, nsc: Option<Color>, stroke: bool, fill: bool) -> Rect {
    ({
        let p0 = spec_transform(ctm, x, y);
        let p1 = spec_transform(ctm, sat64(x as int + w as int) as i64, sat64(y as int + h as int) as i64);
        let left = if p0.0 <= p1.0 { p0.0 } else { p1.0 };
        let right = if p0.0 >= p1.0 { p0.0 } else { p1.0 };
        let y_hi = if p0.1 >= p1.1 { p0.1 } else { p1.1 };
        let y_lo = if p0.1 <= p1.1 { p0.1 } else { p1.1 };
        let top = sat64(ph as int - y_hi as int) as i64;
        let bottom = sat64(ph as int - y_lo as int) as i64;
        (Rect {
            x0: left,
            top,
            x1: right,
            bottom,
            width: sat64(right as int - left as int) as i64,
            height: sat64(bottom as int - top as int) as i64,
            linewidth: lw,
            stroking_color: if stroke { sc } else { None },
            non_stroking_color: if fill { nsc } else { None },
        })
    })
}

/// The point the replay stands at after segment `i` runs.
pub open spec fn replay_next(seg: PathSeg, ctm: Matrix, cur: (i64, i64), start: (i64, i64)) -> ((i64, i64), (i64, i64)) {
    match seg {
        PathSeg::MoveTo(x, y) => ({
            let p = spec_transform(ctm, x, y);
            (p, p)
        }),
        PathSeg::LineTo(x, y) => (spec_transform(ctm, x, y), start),
        PathSeg::CurveTo(x1, y1, x2, y2, x3, y3) => (spec_transform(ctm, x3, y3), start),
        PathSeg::ClosePath => (start, start),
        PathSeg::Rectangle(x, y, w, h) => (cur, start),
    }
}

/// The lines replaying the path from segment `i` emits: one per stroked
/// straight segment, plus the closing segment when it is not degenerate.
pub open spec fn spec_replay_lines(segs: Seq<PathSeg>, i: int, cur: (i64, i64), start: (i64, i64), ctm: Matrix, ph: i64, lw: i64, sc: Option<Color>, nsc: Option<Color>, stroke: bool) -> Seq<Line>
    decreases segs.len() - i,
{
    if i < 0 || i >= segs.len() {
        Seq::empty()
    } else {
        ({
            let nxt = replay_next(segs[i], ctm, cur, start);
            let rest = spec_replay_lines(segs, i + 1, nxt.0, nxt.1, ctm, ph, lw, sc, nsc, stroke);
            match segs[i] {
                PathSeg::LineTo(x, y) => if stroke {
                    seq![spec_line_of(cur, spec_transform(ctm, x, y), ph, lw, sc, nsc)] + rest
                } else {
                    rest
                },
                PathSeg::ClosePath => if stroke && (cur.0 != start.0 || cur.1 != start.1) {
                    seq![spec_line_of(cur, start, ph, lw, sc, nsc)] + rest
                } else {
                    rest
                },
                _ => rest,
            }
        })
    }
}

/// The rectangles replaying the path from segment `i` emits.
pub open spec fn spec_replay_rects(segs: Seq<PathSeg>, i: int, cur: (i64, i64), start: (i64, i64), ctm: Matrix, ph: i64, lw: i64, sc: Option<Color>, nsc: Option<Color>, stroke: bool, fill: bool) -> Seq<Rect>
    decreases segs.len() - i,
{
    if i < 0 || i >= segs.len() {
        Seq::empty()
    } else {
        ({
            let nxt = replay_next(segs[i], ctm, cur, start);
            let rest = spec_replay_rects(segs, i + 1, nxt.0, nxt.1, ctm, ph, lw, sc, nsc, stroke, fill);
            match segs[i] {
                PathSeg::Rectangle(x, y, w, h) => seq![
                    spec_rect_of(ctm, x, y, w, h, ph, lw, sc, nsc, stroke, fill),
                ] + rest,
                _ => rest,
            }
        })
    }
}

/// The control-point lists of the curves replaying the path emits, in
/// top-left coordinates.
pub open spec fn spec_replay_curves(segs: Seq<PathSeg>, i: int, cur: (i64, i64), start: (i64, i64), ctm: Matrix, ph: i64) -> Seq<Seq<(i64, i64)>>
    decreases segs.len() - i,
{
    if i < 0 || i >= segs.len() {
        Seq::empty()
    } else {
        ({
            let nxt = replay_next(segs[i], ctm, cur, start);
            let rest = spec_replay_curves(segs, i + 1, nxt.0, nxt.1, ctm, ph);
            match segs[i] {
                PathSeg::CurveTo(x1, y1, x2, y2, x3, y3) => ({
                    let p1 = spec_transform(ctm, x1, y1);
                    let p2 = spec_transform(ctm, x2, y2);
                    let p3 = spec_transform(ctm, x3, y3);
                    seq![
                        seq![
                            (cur.0, sat64(ph as int - cur.1 as int) as i64),
                            (p1.0, sat64(ph as int - p1.1 as int) as i64),
                            (p2.0, sat64(ph as int - p2.1 as int) as i64),
                            (p3.0, sat64(ph as int - p3.1 as int) as i64),
                        ],
                    ] + rest
                }),
                _ => rest,
            }
        })
    }
}

/// The operator names are plain one- or two-byte ASCII tokens: their
/// byte views are these concrete sequences, so distinct names never
/// collide.
pub proof fn lemma_operator_names()
    ensures
        "q".spec_bytes() =~= seq![113u8],
        "Q".spec_bytes() =~= seq![81u8],
        "cm".spec_bytes() =~= seq![99u8, 109u8],
        "w".spec_bytes() =~= seq![119u8],
        "J".spec_bytes() =~= seq![74u8],
        "j".spec_bytes() =~= seq![106u8],
        "M".spec_bytes() =~= seq![77u8],
        "d".spec_bytes() =~= seq![100u8],
        "gs".spec_bytes() =~= seq![103u8, 115u8],
        "CS".spec_bytes() =~= seq![67u8, 83u8],
        "cs".spec_bytes() =~= seq![99u8, 115u8],
        "SC".spec_bytes() =~= seq![83u8, 67u8],
        "SCN".spec_bytes() =~= seq![83u8, 67u8, 78u8],
        "sc".spec_bytes() =~= seq![115u8, 99u8],
        "scn".spec_bytes() =~= seq![115u8, 99u8, 110u8],
        "G".spec_bytes() =~= seq![71u8],
        "g".spec_bytes() =~= seq![103u8],
        "RG".spec_bytes() =~= seq![82u8, 71u8],
        "rg".spec_bytes() =~= seq![114u8, 103u8],
        "K".spec_bytes() =~= seq![75u8],
        "k".spec_bytes() =~= seq![107u8],
        "BT".spec_bytes() =~= seq![66u8, 84u8],
        "ET".spec_bytes() =~= seq![69u8, 84u8],
        "Tf".spec_bytes() =~= seq![84u8, 102u8],
        "Tc".spec_bytes() =~= seq![84u8, 99u8],
        "Tw".spec_bytes() =~= seq![84u8, 119u8],
        "Tz".spec_bytes() =~= seq![84u8, 122u8],
        "TL".spec_bytes() =~= seq![84u8, 76u8],
        "Tr".spec_bytes() =~= seq![84u8, 114u8],
        "Ts".spec_bytes() =~= seq![84u8, 115u8],
        "Td".spec_bytes() =~= seq![84u8, 100u8],
        "TD".spec_bytes() =~= seq![84u8, 68u8],
        "Tm".spec_bytes() =~= seq![84u8, 109u8],
        "T*".spec_bytes() =~= seq![84u8, 42u8],
        "Tj".spec_bytes() =~= seq![84u8, 106u8],
        "TJ".spec_bytes() =~= seq![84u8, 74u8],
        "'".spec_bytes() =~= seq![39u8],
        "\u{22}".spec_bytes() =~= seq![34u8],
        "Do".spec_bytes() =~= seq![68u8, 111u8],
{
    broadcast use vstd::string::is_ascii_spec_bytes;

    reveal_strlit("q");
    reveal_strlit("Q");
    reveal_strlit("cm");
    reveal_strlit("w");
    reveal_strlit("J");
    reveal_strlit("j");
    reveal_strlit("M");
    reveal_strlit("d");
    reveal_strlit("gs");
    reveal_strlit("CS");
    reveal_strlit("cs");
    reveal_strlit("SC");
    reveal_strlit("SCN");
    reveal_strlit("sc");
    reveal_strlit("scn");
    reveal_strlit("G");
    reveal_strlit("g");
    reveal_strlit("RG");
    reveal_strlit("rg");
    reveal_strlit("K");
    reveal_strlit("k");
    reveal_strlit("BT");
    reveal_strlit("ET");
    reveal_strlit("Tf");
    reveal_strlit("Tc");
    reveal_strlit("Tw");
    reveal_strlit("Tz");
    reveal_strlit("TL");
    reveal_strlit("Tr");
    reveal_strlit("Ts");
    reveal_strlit("Td");
    reveal_strlit("TD");
    reveal_strlit("Tm");
    reveal_strlit("T*");
    reveal_strlit("Tj");
    reveal_strlit("TJ");
    reveal_strlit("'");
    reveal_strlit("\u{22}");
    reveal_strlit("Do");
    assert("q".is_ascii());
    assert("Q".is_ascii());
    assert("cm".is_ascii());
    assert("w".is_ascii());
    assert("J".is_ascii());
    assert("j".is_ascii());
    assert("M".is_ascii());
    assert("d".is_ascii());
    assert("gs".is_ascii());
    assert("CS".is_ascii());
    assert("cs".is_ascii());
    assert("SC".is_ascii());
    assert("SCN".is_ascii());
    assert("sc".is_ascii());
    assert("scn".is_ascii());
    assert("G".is_ascii());
    assert("g".is_ascii());
    assert("RG".is_ascii());
    assert("rg".is_ascii());
    assert("K".is_ascii());
    assert("k".is_ascii());
    assert("BT".is_ascii());
    assert("ET".is_ascii());
    assert("Tf".is_ascii());
    assert("Tc".is_ascii());
    assert("Tw".is_ascii());
    assert("Tz".is_ascii());
    assert("TL".is_ascii());
    assert("Tr".is_ascii());
    assert("Ts".is_ascii());
    assert("Td".is_ascii());
    assert("TD".is_ascii());
    assert("Tm".is_ascii());
    assert("T*".is_ascii());
    assert("Tj".is_ascii());
    assert("TJ".is_ascii());
    assert("'".is_ascii());
    assert("\u{22}".is_ascii());
    assert("Do".is_ascii());
}

/// The control-point lists of the curves from index `from` on.
pub open spec fn curve_points_from(cs: Seq<Curve>, from: int) -> Seq<Seq<(i64, i64)>> {
    Seq::new((cs.len() - from) as nat, |k: int| cs[from + k].points@)
}

/// Whether two graphics states carry the same drawing parameters (the
/// dash pattern compared by contents).
pub open spec fn gs_eq(a: GraphicsState, b: GraphicsState) -> bool {
    &&& a.ctm == b.ctm
    &&& a.line_width == b.line_width
    &&& a.line_cap == b.line_cap
    &&& a.line_join == b.line_join
    &&& a.miter_limit == b.miter_limit
    &&& a.dash_pattern@ == b.dash_pattern@
    &&& a.dash_phase == b.dash_phase
    &&& a.stroking_color == b.stroking_color
    &&& a.non_stroking_color == b.non_stroking_color
    &&& a.stroking_colorspace == b.stroking_colorspace
    &&& a.non_stroking_colorspace == b.non_stroking_colorspace
}

/// The text state after a line move: both text matrices translated down
/// by the leading.
pub open spec fn spec_next_line_ts(ts: TextState) -> TextState {
    ({
        let t = Matrix::spec_translate(0i64, sat64(-(ts.leading as int)) as i64).spec_mul(
            ts.text_line_matrix,
        );
        (TextState { text_matrix: t, text_line_matrix: t, ..ts })
    })
}

/// What showing a byte string from text state `ts0` does: one glyph per
/// code, each satisfying the emission law, and the text matrix advanced
/// past them. Everything else stays.
pub open spec fn spec_render_post(
    pre: ContentStreamInterpreter,
    post: ContentStreamInterpreter,
    ts0: TextState,
    bytes: Seq<u8>,
) -> bool {
    ({
        let font = spec_find_font(pre.fonts@, ts0.font_name@);
        let h = spec_h_scale(ts0.horizontal_scaling);
        let codes = FontInfo::spec_codes(bytes, spec_two_byte(font));
        &&& post.chars@.len() == pre.chars@.len() + codes.len()
        &&& post.chars@.subrange(0, pre.chars@.len() as int) == pre.chars@
        &&& forall|k: int|
            0 <= k < codes.len() ==> glyph_emitted(
                #[trigger] post.chars@[pre.chars@.len() + k],
                font,
                ts0,
                pre.gs,
                pre.page_height,
                pre.doctop_offset,
                h,
                codes,
                k,
            )
        &&& post.ts == (TextState {
            text_matrix: spec_tm_at(font, ts0, h, codes, codes.len() as int),
            ..ts0
        })
        &&& post.gs == pre.gs
        &&& post.stack == pre.stack
        &&& post.fonts == pre.fonts
        &&& post.lines == pre.lines
        &&& post.rects == pre.rects
        &&& post.curves == pre.curves
        &&& post.path == pre.path
        &&& post.current_point == pre.current_point
        &&& post.in_text == pre.in_text
    })
}

/// What a TJ array does from text state `ts0`: strings render their
/// glyphs, numbers kern the running text matrix.
pub open spec fn spec_tj_post(
    pre: ContentStreamInterpreter,
    post: ContentStreamInterpreter,
    items: Seq<TjItem>,
) -> bool {
    ({
        let font = spec_find_font(pre.fonts@, pre.ts.font_name@);
        let h = spec_h_scale(pre.ts.horizontal_scaling);
        &&& post.chars@.len() == pre.chars@.len() + spec_tj_count(font, items, items.len() as int)
        &&& post.chars@.subrange(0, pre.chars@.len() as int) == pre.chars@
        &&& forall|k: int, j: int|
            0 <= k < items.len() && items[k] is Text && 0 <= j < FontInfo::spec_codes(
                items[k]->Text_0@,
                spec_two_byte(font),
            ).len() ==> glyph_emitted(
                #[trigger] post.chars@[pre.chars@.len() + spec_tj_count(font, items, k) + j],
                font,
                (TextState { text_matrix: spec_tj_tm(font, pre.ts, h, items, k), ..pre.ts }),
                pre.gs,
                pre.page_height,
                pre.doctop_offset,
                h,
                FontInfo::spec_codes(items[k]->Text_0@, spec_two_byte(font)),
                j,
            )
        &&& post.ts == (TextState {
            text_matrix: spec_tj_tm(font, pre.ts, h, items, items.len() as int),
            ..pre.ts
        })
        &&& post.gs == pre.gs
        &&& post.stack == pre.stack
        &&& post.fonts == pre.fonts
        &&& post.lines == pre.lines
        &&& post.rects == pre.rects
        &&& post.curves == pre.curves
        &&& post.path == pre.path
        &&& post.current_point == pre.current_point
        &&& post.in_text == pre.in_text
    })
}

/// The first form XObject under the given name, scanning from entry `i`.
pub open spec fn spec_find_form_from(forms: Seq<(Vec<u8>, FormXObject)>, name: Seq<u8>, i: int) -> Option<int>
    decreases forms.len() - i,
{
    if i < 0 || i >= forms.len() {
        None
    } else if forms[i].0@ == name {
        Some(i)
    } else {
        spec_find_form_from(forms, name, i + 1)
    }
}

/// Whether a name is none of the text operators.
pub open spec fn text_ops_miss(name: Seq<u8>) -> bool {
    &&& name != "BT".spec_bytes()
    &&& name != "ET".spec_bytes()
    &&& name != "Tf".spec_bytes()
    &&& name != "Tc".spec_bytes()
    &&& name != "Tw".spec_bytes()
    &&& name != "Tz".spec_bytes()
    &&& name != "TL".spec_bytes()
    &&& name != "Tr".spec_bytes()
    &&& name != "Ts".spec_bytes()
    &&& name != "Td".spec_bytes()
    &&& name != "TD".spec_bytes()
    &&& name != "Tm".spec_bytes()
    &&& name != "T*".spec_bytes()
    &&& name != "Tj".spec_bytes()
    &&& name != "TJ".spec_bytes()
    &&& name != "'".spec_bytes()
    &&& name != "\u{22}".spec_bytes()
}

/// Whether a name is none of the graphics-state operators.
pub open spec fn state_ops_miss(name: Seq<u8>) -> bool {
    &&& name != "q".spec_bytes()
    &&& name != "Q".spec_bytes()
    &&& name != "cm".spec_bytes()
    &&& name != "w".spec_bytes()
    &&& name != "J".spec_bytes()
    &&& name != "j".spec_bytes()
    &&& name != "M".spec_bytes()
    &&& name != "d".spec_bytes()
    &&& name != "gs".spec_bytes()
}

/// Whether a name is none of the color operators.
pub open spec fn color_ops_miss(name: Seq<u8>) -> bool {
    &&& name != "CS".spec_bytes()
    &&& name != "cs".spec_bytes()
    &&& name != "SC".spec_bytes()
    &&& name != "SCN".spec_bytes()
    &&& name != "sc".spec_bytes()
    &&& name != "scn".spec_bytes()
    &&& name != "G".spec_bytes()
    &&& name != "g".spec_bytes()
    &&& name != "RG".spec_bytes()
    &&& name != "rg".spec_bytes()
    &&& name != "K".spec_bytes()
    &&& name != "k".spec_bytes()
}

/// The exact effect of the text operators, in dispatch order: BT/ET
/// toggle the text object, the setters set one parameter, the positioning
/// operators move the text matrices, and the showing operators render.
#[verifier::opaque]
pub open spec fn op_text_effect(
    pre: ContentStreamInterpreter,
    post: ContentStreamInterpreter,
    name: Seq<u8>,
    args: Seq<Arg>,
) -> bool {
    if name == "BT".spec_bytes() {
        post == (ContentStreamInterpreter {
            in_text: true,
            ts: (TextState {
                text_matrix: Matrix::spec_identity(),
                text_line_matrix: Matrix::spec_identity(),
                ..pre.ts
            }),
            ..pre
        })
    } else if name == "ET".spec_bytes() {
        post == (ContentStreamInterpreter { in_text: false, ..pre })
    } else if name == "Tf".spec_bytes() {
        if args.len() >= 2 && args[0] is Name {
            post.ts.font_name@ == crate::fonts::spec_name_text(args[0]->Name_0@)
                && post.ts.font_size == spec_argn(args, 1) && post.ts.char_spacing == pre.ts.char_spacing
                && post.ts.word_spacing == pre.ts.word_spacing && post.ts.horizontal_scaling
                == pre.ts.horizontal_scaling && post.ts.leading == pre.ts.leading && post.ts.rise
                == pre.ts.rise && post.ts.render_mode == pre.ts.render_mode && post.ts.text_matrix
                == pre.ts.text_matrix && post.ts.text_line_matrix == pre.ts.text_line_matrix
                && post.chars == pre.chars && post.gs == pre.gs
        } else {
            post == pre
        }
    } else if name == "Tc".spec_bytes() {
        if args.len() >= 1 {
            post == (ContentStreamInterpreter {
                ts: (TextState { char_spacing: spec_argn(args, 0), ..pre.ts }),
                ..pre
            })
        } else {
            post == pre
        }
    } else if name == "Tw".spec_bytes() {
        if args.len() >= 1 {
            post == (ContentStreamInterpreter {
                ts: (TextState { word_spacing: spec_argn(args, 0), ..pre.ts }),
                ..pre
            })
        } else {
            post == pre
        }
    } else if name == "Tz".spec_bytes() {
        if args.len() >= 1 {
            post == (ContentStreamInterpreter {
                ts: (TextState { horizontal_scaling: spec_argn(args, 0), ..pre.ts }),
                ..pre
            })
        } else {
            post == pre
        }
    } else if name == "TL".spec_bytes() {
        if args.len() >= 1 {
            post == (ContentStreamInterpreter {
                ts: (TextState { leading: spec_argn(args, 0), ..pre.ts }),
                ..pre
            })
        } else {
            post == pre
        }
    } else if name == "Tr".spec_bytes() {
        if args.len() >= 1 {
            post.ts.render_mode as int == spec_scale_i32(spec_argn(args, 0)) && post.ts.text_matrix
                == pre.ts.text_matrix && post.ts.text_line_matrix == pre.ts.text_line_matrix
                && post.chars == pre.chars && post.gs == pre.gs
        } else {
            post == pre
        }
    } else if name == "Ts".spec_bytes() {
        if args.len() >= 1 {
            post == (ContentStreamInterpreter {
                ts: (TextState { rise: spec_argn(args, 0), ..pre.ts }),
                ..pre
            })
        } else {
            post == pre
        }
    } else if name == "Td".spec_bytes() {
        if args.len() >= 2 {
            ({
                let t = Matrix::spec_translate(spec_argn(args, 0), spec_argn(args, 1)).spec_mul(
                    pre.ts.text_line_matrix,
                );
                post == (ContentStreamInterpreter {
                    ts: (TextState { text_matrix: t, text_line_matrix: t, ..pre.ts }),
                    ..pre
                })
            })
        } else {
            post == pre
        }
    } else if name == "TD".spec_bytes() {
        if args.len() >= 2 {
            ({
                let lead = sat64(-(spec_argn(args, 1) as int)) as i64;
                let t = Matrix::spec_translate(spec_argn(args, 0), spec_argn(args, 1)).spec_mul(
                    pre.ts.text_line_matrix,
                );
                post == (ContentStreamInterpreter {
                    ts: (TextState {
                        text_matrix: t,
                        text_line_matrix: t,
                        leading: lead,
                        ..pre.ts
                    }),
                    ..pre
                })
            })
        } else {
            post == pre
        }
    } else if name == "Tm".spec_bytes() {
        if args.len() >= 6 {
            ({
                let m = (Matrix {
                    a: spec_argn(args, 0),
                    b: spec_argn(args, 1),
                    c: spec_argn(args, 2),
                    d: spec_argn(args, 3),
                    e: spec_argn(args, 4),
                    f: spec_argn(args, 5),
                });
                post == (ContentStreamInterpreter {
                    ts: (TextState { text_matrix: m, text_line_matrix: m, ..pre.ts }),
                    ..pre
                })
            })
        } else {
            post == pre
        }
    } else if name == "T*".spec_bytes() {
        post == (ContentStreamInterpreter { ts: spec_next_line_ts(pre.ts), ..pre })
    } else if name == "Tj".spec_bytes() {
        if args.len() >= 1 && args[0] is Str {
            spec_render_post(pre, post, pre.ts, args[0]->Str_0@)
        } else {
            post == pre
        }
    } else if name == "TJ".spec_bytes() {
        if args.len() >= 1 && args[0] is TjArr {
            spec_tj_post(pre, post, args[0]->TjArr_0@)
        } else {
            post == pre
        }
    } else if name == "'".spec_bytes() {
        ({
            let mid = (ContentStreamInterpreter { ts: spec_next_line_ts(pre.ts), ..pre });
            if args.len() >= 1 && args[0] is Str {
                spec_render_post(mid, post, mid.ts, args[0]->Str_0@)
            } else {
                post == mid
            }
        })
    } else if name == "\u{22}".spec_bytes() {
        if args.len() >= 3 {
            ({
                let ts2 = spec_next_line_ts(
                    (TextState {
                        word_spacing: spec_argn(args, 0),
                        char_spacing: spec_argn(args, 1),
                        ..pre.ts
                    }),
                );
                let mid = (ContentStreamInterpreter { ts: ts2, ..pre });
                if args[2] is Str {
                    spec_render_post(mid, post, ts2, args[2]->Str_0@)
                } else {
                    post == mid
                }
            })
        } else {
            post == pre
        }
    } else {
        true
    }
}

/// The kerning move a numeric TJ item applies:
/// -(n/1000) * font_size * h.
pub open spec fn spec_tj_adjust(adj: i64, ts0: TextState, h: i64) -> i64 {
    sat64(
        -crate::fx::fx_mul_spec(
            crate::fx::fx_mul_spec((adj as int / 1000) as i64 as int, ts0.font_size as int),
            h as int,
        ),
    ) as i64
}

/// The text matrix after the first `k` TJ items: strings advance it glyph
/// by glyph, numbers kern it.
pub open spec fn spec_tj_tm(font: Option<FontInfo>, ts0: TextState, h: i64, items: Seq<TjItem>, k: int) -> Matrix
    decreases k,
{
    if k <= 0 {
        ts0.text_matrix
    } else {
        ({
            let prev = spec_tj_tm(font, ts0, h, items, k - 1);
            match items[k - 1] {
                TjItem::Offset(adj) => Matrix::spec_translate(
                    spec_tj_adjust(adj, ts0, h),
                    0i64,
                ).spec_mul(prev),
                TjItem::Text(bytes) => ({
                    let codes = FontInfo::spec_codes(bytes@, spec_two_byte(font));
                    spec_tm_at(
                        font,
                        (TextState { text_matrix: prev, ..ts0 }),
                        h,
                        codes,
                        codes.len() as int,
                    )
                }),
            }
        })
    }
}

/// Glyph counts only grow as more TJ items are taken in.
pub proof fn lemma_tj_count_mono(font: Option<FontInfo>, items: Seq<TjItem>, a: int, b: int)
    requires
        a <= b,
    ensures
        spec_tj_count(font, items, a) <= spec_tj_count(font, items, b),
    decreases b - a,
{
    if a < b {
        lemma_tj_count_mono(font, items, a, b - 1);
    }
}

/// How many glyphs the first `k` TJ items emit.
pub open spec fn spec_tj_count(font: Option<FontInfo>, items: Seq<TjItem>, k: int) -> nat
    decreases k,
{
    if k <= 0 {
        0
    } else {
        spec_tj_count(font, items, k - 1) + (match items[k - 1] {
            TjItem::Offset(_) => 0nat,
            TjItem::Text(bytes) => FontInfo::spec_codes(bytes@, spec_two_byte(font)).len(),
        })
    }
}

impl ContentStreamInterpreter {
    /// A fresh interpreter over a page of the given height and cumulative
    /// document offset.
    pub fn new(page_height: i64, doctop_offset: i64) -> (r: ContentStreamInterpreter)
        ensures
            r.page_height == page_height,
            r.doctop_offset == doctop_offset,
            r.stack@.len() == 0,
            r.chars@.len() == 0 && r.lines@.len() == 0 && r.rects@.len() == 0
                && r.curves@.len() == 0,
            prims_wf(r),
            !r.in_text,
            r.gs.ctm == Matrix::spec_identity(),
    {
        ContentStreamInterpreter {
            page_height,
            doctop_offset,
            fonts: Vec::new(),
            gs: GraphicsState::initial(),
            stack: Vec::new(),
            ts: TextState::initial(),
            in_text: false,
            path: Vec::new(),
            current_point: None,
            chars: Vec::new(),
            lines: Vec::new(),
            rects: Vec::new(),
            curves: Vec::new(),
        }
    }

    /// Resolve and cache every font of a resource dictionary that is not
    /// cached yet.
    #[verifier::rlimit(100)]
    #[verifier::spinoff_prover]
    pub fn load_fonts(&mut self, res: &Resources)
        ensures
            final(self).page_height == old(self).page_height,
            final(self).doctop_offset == old(self).doctop_offset,
            final(self).gs == old(self).gs,
            final(self).stack == old(self).stack,
            final(self).ts == old(self).ts,
            final(self).in_text == old(self).in_text,
            final(self).path == old(self).path,
            final(self).current_point == old(self).current_point,
            final(self).chars == old(self).chars,
            final(self).lines == old(self).lines,
            final(self).rects == old(self).rects,
            final(self).curves == old(self).curves,
            final(self).fonts@.len() >= old(self).fonts@.len(),
            final(self).fonts@.subrange(0, old(self).fonts@.len() as int) == old(self).fonts@,
            forall|j1: int, j2: int|
                0 <= j1 < j2 < final(self).fonts@.len() && old(self).fonts@.len() <= j2 ==> (
                #[trigger] final(self).fonts@[j1]).0@ != (#[trigger] final(self).fonts@[j2]).0@,
    {
        let n = res.fonts.len();
        let mut i: usize = 0;
        while i < n
            invariant
                n == res.fonts@.len(),
                0 <= i <= n,
                self.page_height == old(self).page_height,
                self.doctop_offset == old(self).doctop_offset,
                self.gs == old(self).gs,
                self.stack == old(self).stack,
                self.ts == old(self).ts,
                self.in_text == old(self).in_text,
                self.path == old(self).path,
                self.current_point == old(self).current_point,
                self.chars == old(self).chars,
                self.lines == old(self).lines,
                self.rects == old(self).rects,
                self.curves == old(self).curves,
                self.fonts@.len() >= old(self).fonts@.len(),
                self.fonts@.subrange(0, old(self).fonts@.len() as int) == old(self).fonts@,
                forall|j1: int, j2: int|
                    0 <= j1 < j2 < self.fonts@.len() && old(self).fonts@.len() <= j2 ==> (
                    #[trigger] self.fonts@[j1]).0@ != (#[trigger] self.fonts@[j2]).0@,
            decreases n - i,
        {
            let name = &res.fonts[i].0;
            let cached = self.has_font(name.as_str());
            let ghost pre_fonts = self.fonts@;
            if !cached {
                let info = resolve_font(name.as_str(), &res.fonts[i].1);
                self.fonts.push((name.clone(), info));
            }
            proof {
                let fi = pre_fonts.len() as int;
                assert(self.fonts@.subrange(0, old(self).fonts@.len() as int) =~= pre_fonts.subrange(
                    0,
                    old(self).fonts@.len() as int,
                ));
                if !cached {
                    assert(self.fonts@[fi].0@ == res.fonts@[i as int].0@);
                    assert forall|j1: int| 0 <= j1 < fi implies (#[trigger] self.fonts@[j1]).0@
                        != self.fonts@[fi].0@ by {
                        assert(self.fonts@[j1] == pre_fonts[j1]);
                    }
                }
            }
            i += 1;
        }
    }

    /// Whether a font of this name is already cached.
    fn has_font(&self, name: &str) -> (r: bool)
        ensures
            r == exists|k: int|
                0 <= k < self.fonts@.len() && (#[trigger] self.fonts@[k]).0@ == name@,
    {
        let n = self.fonts.len();
        let mut i: usize = 0;
        while i < n
            invariant
                n == self.fonts@.len(),
                0 <= i <= n,
                forall|k: int| 0 <= k < i ==> (#[trigger] self.fonts@[k]).0@ != name@,
            decreases n - i,
        {
            if str_eq(self.fonts[i].0.as_str(), name) {
                return true;
            }
            i += 1;
        }
        false
    }

    /// The cached font of this name, if any: the first entry that matches.
    fn find_font(&self, name: &str) -> (r: Option<&FontInfo>)
        ensures
            ({
                match r {
                    Some(f) => spec_find_font(self.fonts@, name@) == Some(*f)
                        && (exists|k: int|
                            0 <= k < self.fonts@.len() && (#[trigger] self.fonts@[k]).0@ == name@
                                && *f == self.fonts@[k].1),
                    None => spec_find_font(self.fonts@, name@) is None,
                }
            }),
    {
        let n = self.fonts.len();
        let mut i: usize = 0;
        while i < n
            invariant
                n == self.fonts@.len(),
                0 <= i <= n,
                spec_find_font(self.fonts@, name@) == spec_find_font_from(self.fonts@, name@, i as int),
            decreases n - i,
        {
            if str_eq(self.fonts[i].0.as_str(), name) {
                proof {
                    assert(spec_find_font_from(self.fonts@, name@, i as int)
                        == Some(self.fonts@[i as int].1));
                }
                return Some(&self.fonts[i].1);
            }
            i += 1;
        }
        None
    }

    /// Process one page's content: resolve the resource fonts, then run
    /// the operations with the standard recursion allowance.
    pub fn process_page(&mut self, ops: &Vec<Op>, res: &Resources)
        requires
            prims_wf(*old(self)),
        ensures
            prims_wf(*final(self)),
            final(self).page_height == old(self).page_height,
            final(self).doctop_offset == old(self).doctop_offset,
            qq_balanced(ops@) && no_forms(ops@) ==> final(self).stack@.len()
                == old(self).stack@.len() && final(self).stack@.subrange(
                0,
                old(self).stack@.len() as int,
            ) == old(self).stack@,
            ops@.len() == 0 ==> final(self).chars == old(self).chars && final(self).lines
                == old(self).lines && final(self).rects == old(self).rects && final(self).curves
                == old(self).curves && final(self).gs == old(self).gs && final(self).ts
                == old(self).ts && final(self).stack == old(self).stack && final(self).path
                == old(self).path,
    {
        self.load_fonts(res);
        self.process_ops(ops, res, 16);
    }

    /// Run a list of operations against the given resources. `depth`
    /// bounds form recursion. A stream whose q/Q pairs are balanced (and
    /// that invokes no form) leaves the graphics stack depth as it was.
    pub fn process_ops(&mut self, ops: &Vec<Op>, res: &Resources, depth: u32)
        requires
            prims_wf(*old(self)),
        ensures
            prims_wf(*final(self)),
            final(self).page_height == old(self).page_height,
            final(self).doctop_offset == old(self).doctop_offset,
            qq_balanced(ops@) && no_forms(ops@) ==> final(self).stack@.len()
                == old(self).stack@.len() && final(self).stack@.subrange(
                0,
                old(self).stack@.len() as int,
            ) == old(self).stack@,
            ops@.len() == 0 ==> *final(self) == *old(self),
        decreases depth, 2int,
    {
        let n = ops.len();
        let mut i: usize = 0;
        while i < n
            invariant
                n == ops@.len(),
                0 <= i <= n,
                i == 0 ==> *self == *old(self),
                prims_wf(*self),
                self.page_height == old(self).page_height,
                self.doctop_offset == old(self).doctop_offset,
                qq_balanced(ops@) && no_forms(ops@) ==> self.stack@.len()
                    == old(self).stack@.len() + qq_balance(ops@, i as int)
                    && self.stack@.len() >= old(self).stack@.len() && self.stack@.subrange(
                    0,
                    old(self).stack@.len() as int,
                ) == old(self).stack@,
            decreases n - i,
        {
            let ghost pre_len = self.stack@.len();
            let ghost pre_stack = self.stack@;
            self.process_op(&ops[i], res, depth);
            proof {
                reveal(op_state_effect);
                if qq_balanced(ops@) && no_forms(ops@) {
                    let nm = ops@[i as int].name@;
                    let base = old(self).stack@.len() as int;
                    if nm == "q".spec_bytes() {
                        assert(self.stack@.subrange(0, pre_stack.len() as int) == pre_stack);
                        assert forall|t: int| 0 <= t < base implies self.stack@[t]
                            == old(self).stack@[t] by {
                            assert(self.stack@[t] == self.stack@.subrange(
                                0,
                                pre_stack.len() as int,
                            )[t]);
                            assert(pre_stack[t] == pre_stack.subrange(0, base)[t]);
                        }
                        assert(self.stack@.subrange(0, base) =~= old(self).stack@);
                    } else if nm == "Q".spec_bytes() {
                        assert(qq_balance(ops@, i as int) >= 1) by {
                            assert(qq_balance(ops@, i as int + 1) >= 0);
                        }
                        assert(pre_stack.len() > base);
                        assert(self.stack@ == pre_stack.drop_last());
                        assert forall|t: int| 0 <= t < base implies self.stack@[t]
                            == old(self).stack@[t] by {
                            assert(self.stack@[t] == pre_stack[t]);
                            assert(pre_stack[t] == pre_stack.subrange(0, base)[t]);
                        }
                        assert(self.stack@.subrange(0, base) =~= old(self).stack@);
                    } else {
                        assert(self.stack@ == pre_stack);
                        assert(self.stack@.subrange(0, base) =~= old(self).stack@);
                    }
                    assert(qq_balance(ops@, i as int + 1) == qq_balance(ops@, i as int)
                        + if ops@[i as int].name@ == "q".spec_bytes() {
                            1int
                        } else if ops@[i as int].name@ == "Q".spec_bytes() {
                            -1int
                        } else {
                            0int
                        });
                    assert(qq_balance(ops@, i as int + 1) >= 0);
                }
            }
            i += 1;
        }
    }

    /// Dispatch one operator.
    #[verifier::rlimit(100)]
    #[verifier::spinoff_prover]
    pub fn process_op(&mut self, op: &Op, res: &Resources, depth: u32)
        requires
            prims_wf(*old(self)),
        ensures
            prims_wf(*final(self)),
            final(self).page_height == old(self).page_height,
            final(self).doctop_offset == old(self).doctop_offset,
            op.name@ != "Do".spec_bytes() ==> final(self).stack@.len()
                == spec_stack_after(old(self).stack@.len(), op.name@),
            op.name@ != "Do".spec_bytes() && op.name@ != "q".spec_bytes() && op.name@
                != "Q".spec_bytes() ==> final(self).stack == old(self).stack,
            op_state_effect(*old(self), *final(self), op.name@, op.args@),
            state_ops_miss(op.name@) ==> op_color_effect(*old(self), *final(self), op.name@, op.args@),
            state_ops_miss(op.name@) && color_ops_miss(op.name@) ==> op_text_effect(
                *old(self),
                *final(self),
                op.name@,
                op.args@,
            ),
        decreases depth, 1int,
    {
        let name = op.name.as_slice();
        if self.op_state(name, op, res) {
            return;
        }
        if self.op_color(name, op) {
            proof {
                reveal(op_state_effect);
            }
            return;
        }
        if self.op_text(name, op) {
            proof {
                reveal(op_state_effect);
                reveal(op_color_effect);
            }
            return;
        }
        let handled_path = self.op_path(name, op);
        if !handled_path {
            if bytes_eq(name, "Do".as_bytes()) {
                self.op_do_xobject(&op.args, res, depth);
            }
        }
        proof {
            reveal(op_state_effect);
            reveal(op_color_effect);
            reveal(op_text_effect);
        }
    }

    /// Graphics-state and color operators.
    #[verifier::rlimit(100)]
    fn op_state(&mut self, name: &[u8], op: &Op, res: &Resources) -> (handled: bool)
        requires
            prims_wf(*old(self)),
        ensures
            prims_wf(*final(self)),
            final(self).page_height == old(self).page_height,
            final(self).doctop_offset == old(self).doctop_offset,
            final(self).stack@.len() == spec_stack_after(old(self).stack@.len(), name@),
            !handled ==> *final(self) == *old(self),
            !handled ==> state_ops_miss(name@),
            handled ==> !state_ops_miss(name@),
            name@ != "q".spec_bytes() && name@ != "Q".spec_bytes() ==> final(self).stack
                == old(self).stack,
            name@ == "q".spec_bytes() || name@ == "Q".spec_bytes() ==> handled,
            final(self).chars == old(self).chars,
            final(self).lines == old(self).lines,
            final(self).rects == old(self).rects,
            final(self).curves == old(self).curves,
            final(self).path == old(self).path,
            final(self).current_point == old(self).current_point,
            final(self).fonts == old(self).fonts,
            final(self).in_text == old(self).in_text,
            name@ != "gs".spec_bytes() ==> final(self).ts == old(self).ts,
            op_state_effect(*old(self), *final(self), name@, op.args@),
    {
        proof {
            reveal(op_state_effect);
        }
        let is_q = bytes_eq(name, "q".as_bytes());
        let is_q_u = bytes_eq(name, "Q".as_bytes());
        let is_cm = bytes_eq(name, "cm".as_bytes());
        let is_w = bytes_eq(name, "w".as_bytes());
        let is_j_u = bytes_eq(name, "J".as_bytes());
        let is_j = bytes_eq(name, "j".as_bytes());
        let is_m_u = bytes_eq(name, "M".as_bytes());
        let is_d = bytes_eq(name, "d".as_bytes());
        let is_gs = bytes_eq(name, "gs".as_bytes());
        if is_q {
            let snapshot = self.gs.clone();
            self.stack.push(snapshot);
            proof {
                assert(self.stack@.subrange(0, old(self).stack@.len() as int)
                    =~= old(self).stack@);
                assert(gs_eq(self.stack@.last(), old(self).gs));
            }
        } else if is_q_u {
            match self.stack.pop() {
                Some(g) => {
                    self.gs = g;
                },
                None => {},
            }
        } else if is_cm {
            if op.args.len() >= 6 {
                let m = args_matrix(&op.args);
                self.gs.ctm = m.multiply(&self.gs.ctm);
            }
        } else if is_w {
            if op.args.len() >= 1 {
                self.gs.line_width = argn(&op.args, 0);
            }
        } else if is_j_u {
            if op.args.len() >= 1 {
                self.gs.line_cap = scale_to_i32(argn(&op.args, 0));
            }
        } else if is_j {
            if op.args.len() >= 1 {
                self.gs.line_join = scale_to_i32(argn(&op.args, 0));
            }
        } else if is_m_u {
            if op.args.len() >= 1 {
                self.gs.miter_limit = argn(&op.args, 0);
            }
        } else if is_d {
            if op.args.len() >= 2 {
                match &op.args[0] {
                    Arg::NumArr(pattern) => {
                        self.gs.dash_pattern = pattern.clone();
                        proof {
                            assert(self.gs.dash_pattern@ =~= pattern@);
                        }
                    },
                    _ => {},
                }
                self.gs.dash_phase = argn(&op.args, 1);
            }
        } else if is_gs {
            self.op_set_graphics_state(&op.args, res);
        } else {
            return false;
        }
        true
    }

    /// Color operators.
    fn op_color(&mut self, name: &[u8], op: &Op) -> (handled: bool)
        requires
            prims_wf(*old(self)),
        ensures
            prims_wf(*final(self)),
            final(self).page_height == old(self).page_height,
            final(self).doctop_offset == old(self).doctop_offset,
            final(self).stack == old(self).stack,
            !handled ==> *final(self) == *old(self),
            final(self).chars == old(self).chars,
            final(self).lines == old(self).lines,
            final(self).rects == old(self).rects,
            final(self).curves == old(self).curves,
            final(self).path == old(self).path,
            final(self).current_point == old(self).current_point,
            final(self).fonts == old(self).fonts,
            final(self).in_text == old(self).in_text,
            final(self).ts == old(self).ts,
            op_color_effect(*old(self), *final(self), name@, op.args@),
            !handled ==> color_ops_miss(name@),
            handled ==> !color_ops_miss(name@),
    {
        proof {
            reveal(op_color_effect);
        }
        let is_cs_u = bytes_eq(name, "CS".as_bytes());
        let is_cs = bytes_eq(name, "cs".as_bytes());
        let is_sc_u = bytes_eq(name, "SC".as_bytes());
        let is_scn_u = bytes_eq(name, "SCN".as_bytes());
        let is_sc = bytes_eq(name, "sc".as_bytes());
        let is_scn = bytes_eq(name, "scn".as_bytes());
        let is_g_u = bytes_eq(name, "G".as_bytes());
        let is_g = bytes_eq(name, "g".as_bytes());
        let is_rg_u = bytes_eq(name, "RG".as_bytes());
        let is_rg = bytes_eq(name, "rg".as_bytes());
        let is_k_u = bytes_eq(name, "K".as_bytes());
        let is_k = bytes_eq(name, "k".as_bytes());
        if is_cs_u {
            if op.args.len() >= 1 {
                match &op.args[0] {
                    Arg::Name(n) => {
                        self.gs.stroking_colorspace = bytes_to_text(n.as_slice());
                    },
                    _ => {},
                }
            }
        } else if is_cs {
            if op.args.len() >= 1 {
                match &op.args[0] {
                    Arg::Name(n) => {
                        self.gs.non_stroking_colorspace = bytes_to_text(n.as_slice());
                    },
                    _ => {},
                }
            }
        } else if is_sc_u || is_scn_u {
            self.gs.stroking_color = parse_color(&op.args, self.gs.stroking_colorspace.as_str());
        } else if is_sc || is_scn {
            self.gs.non_stroking_color = parse_color(
                &op.args,
                self.gs.non_stroking_colorspace.as_str(),
            );
        } else if is_g_u {
            if op.args.len() >= 1 {
                self.gs.stroking_color = Some(Color::Gray(argn(&op.args, 0)));
                self.gs.stroking_colorspace = String::from_str("DeviceGray");
                proof {
                    assert(self.gs.stroking_color == Some(Color::Gray(spec_argn(op.args@, 0))));
                    assert(self.gs.stroking_colorspace@ == "DeviceGray"@);
                    assert(self.gs.ctm == old(self).gs.ctm);
                    assert(self.gs.non_stroking_color == old(self).gs.non_stroking_color);
                    assert(self.stack == old(self).stack);
                }
            }
        } else if is_g {
            if op.args.len() >= 1 {
                self.gs.non_stroking_color = Some(Color::Gray(argn(&op.args, 0)));
                self.gs.non_stroking_colorspace = String::from_str("DeviceGray");
                proof {
                    assert(self.gs.non_stroking_color == Some(Color::Gray(spec_argn(op.args@, 0))));
                    assert(self.gs.non_stroking_colorspace@ == "DeviceGray"@);
                    assert(self.gs.ctm == old(self).gs.ctm);
                    assert(self.stack == old(self).stack);
                }
            }
        } else if is_rg_u {
            if op.args.len() >= 3 {
                self.gs.stroking_color = Some(
                    Color::RGB(argn(&op.args, 0), argn(&op.args, 1), argn(&op.args, 2)),
                );
                self.gs.stroking_colorspace = String::from_str("DeviceRGB");
                proof {
                    assert(self.gs.stroking_color == Some(
                        Color::RGB(spec_argn(op.args@, 0), spec_argn(op.args@, 1), spec_argn(op.args@, 2)),
                    ));
                    assert(self.gs.ctm == old(self).gs.ctm);
                    assert(self.stack == old(self).stack);
                }
            }
        } else if is_rg {
            if op.args.len() >= 3 {
                self.gs.non_stroking_color = Some(
                    Color::RGB(argn(&op.args, 0), argn(&op.args, 1), argn(&op.args, 2)),
                );
                self.gs.non_stroking_colorspace = String::from_str("DeviceRGB");
                proof {
                    assert(self.gs.non_stroking_color == Some(
                        Color::RGB(spec_argn(op.args@, 0), spec_argn(op.args@, 1), spec_argn(op.args@, 2)),
                    ));
                    assert(self.gs.ctm == old(self).gs.ctm);
                    assert(self.stack == old(self).stack);
                }
            }
        } else if is_k_u {
            if op.args.len() >= 4 {
                self.gs.stroking_color = Some(
                    Color::CMYK(
                        argn(&op.args, 0),
                        argn(&op.args, 1),
                        argn(&op.args, 2),
                        argn(&op.args, 3),
                    ),
                );
                self.gs.stroking_colorspace = String::from_str("DeviceCMYK");
            }
        } else if is_k {
            if op.args.len() >= 4 {
                self.gs.non_stroking_color = Some(
                    Color::CMYK(
                        argn(&op.args, 0),
                        argn(&op.args, 1),
                        argn(&op.args, 2),
                        argn(&op.args, 3),
                    ),
                );
                self.gs.non_stroking_colorspace = String::from_str("DeviceCMYK");
            }
        } else {
            return false;
        }
        true
    }

    /// Text-state, positioning and showing operators. Never touches the
    /// graphics-state stack.
    #[verifier::rlimit(100)]
    fn op_text(&mut self, name: &[u8], op: &Op) -> (handled: bool)
        requires
            prims_wf(*old(self)),
        ensures
            prims_wf(*final(self)),
            final(self).page_height == old(self).page_height,
            final(self).doctop_offset == old(self).doctop_offset,
            final(self).stack == old(self).stack,
            final(self).gs == old(self).gs,
            final(self).fonts == old(self).fonts,
            final(self).lines == old(self).lines,
            final(self).rects == old(self).rects,
            final(self).curves == old(self).curves,
            final(self).path == old(self).path,
            final(self).current_point == old(self).current_point,
            final(self).chars@.len() >= old(self).chars@.len(),
            final(self).chars@.subrange(0, old(self).chars@.len() as int) == old(self).chars@,
            !handled ==> *final(self) == *old(self),
            !handled ==> text_ops_miss(name@),
            op_text_effect(*old(self), *final(self), name@, op.args@),
    {
        proof {
            reveal(op_text_effect);
        }
        if bytes_eq(name, "BT".as_bytes()) {
            self.in_text = true;
            self.ts.text_matrix = Matrix::identity();
            self.ts.text_line_matrix = Matrix::identity();
        } else if bytes_eq(name, "ET".as_bytes()) {
            self.in_text = false;
        } else if bytes_eq(name, "Tf".as_bytes()) {
            if op.args.len() >= 2 {
                match &op.args[0] {
                    Arg::Name(n) => {
                        self.ts.font_name = bytes_to_text(n.as_slice());
                        self.ts.font_size = argn(&op.args, 1);
                    },
                    _ => {},
                }
            }
        } else if bytes_eq(name, "Tc".as_bytes()) {
            if op.args.len() >= 1 {
                self.ts.char_spacing = argn(&op.args, 0);
            }
        } else if bytes_eq(name, "Tw".as_bytes()) {
            if op.args.len() >= 1 {
                self.ts.word_spacing = argn(&op.args, 0);
            }
        } else if bytes_eq(name, "Tz".as_bytes()) {
            if op.args.len() >= 1 {
                self.ts.horizontal_scaling = argn(&op.args, 0);
            }
        } else if bytes_eq(name, "TL".as_bytes()) {
            if op.args.len() >= 1 {
                self.ts.leading = argn(&op.args, 0);
            }
        } else if bytes_eq(name, "Tr".as_bytes()) {
            if op.args.len() >= 1 {
                self.ts.render_mode = scale_to_i32(argn(&op.args, 0));
            }
        } else if bytes_eq(name, "Ts".as_bytes()) {
            if op.args.len() >= 1 {
                self.ts.rise = argn(&op.args, 0);
            }
        } else if bytes_eq(name, "Td".as_bytes()) {
            if op.args.len() >= 2 {
                self.op_text_move(argn(&op.args, 0), argn(&op.args, 1));
            }
        } else if bytes_eq(name, "TD".as_bytes()) {
            if op.args.len() >= 2 {
                self.ts.leading = fx_neg(argn(&op.args, 1));
                self.op_text_move(argn(&op.args, 0), argn(&op.args, 1));
            }
        } else if bytes_eq(name, "Tm".as_bytes()) {
            if op.args.len() >= 6 {
                let m = args_matrix(&op.args);
                self.ts.text_matrix = m;
                self.ts.text_line_matrix = m;
            }
        } else if bytes_eq(name, "T*".as_bytes()) {
            self.op_text_next_line();
        } else if bytes_eq(name, "Tj".as_bytes()) {
            if op.args.len() >= 1 {
                match &op.args[0] {
                    Arg::Str(bytes) => {
                        self.render_text(bytes.as_slice());
                    },
                    _ => {},
                }
            }
        } else if bytes_eq(name, "TJ".as_bytes()) {
            if op.args.len() >= 1 {
                match &op.args[0] {
                    Arg::TjArr(items) => {
                        self.op_show_text_adjusted(items);
                    },
                    _ => {},
                }
            }
        } else if bytes_eq(name, "'".as_bytes()) {
            self.op_text_next_line();
            if op.args.len() >= 1 {
                match &op.args[0] {
                    Arg::Str(bytes) => {
                        self.render_text(bytes.as_slice());
                    },
                    _ => {},
                }
            }
        } else if bytes_eq(name, "\u{22}".as_bytes()) {
            if op.args.len() >= 3 {
                self.ts.word_spacing = argn(&op.args, 0);
                self.ts.char_spacing = argn(&op.args, 1);
                self.op_text_next_line();
                match &op.args[2] {
                    Arg::Str(bytes) => {
                        self.render_text(bytes.as_slice());
                    },
                    _ => {},
                }
            }
        } else {
            return false;
        }
        true
    }

    /// Path construction and painting operators. Never touches the
    /// graphics-state stack.
    fn op_path(&mut self, name: &[u8], op: &Op) -> (handled: bool)
        requires
            prims_wf(*old(self)),
        ensures
            prims_wf(*final(self)),
            final(self).page_height == old(self).page_height,
            final(self).doctop_offset == old(self).doctop_offset,
            final(self).stack == old(self).stack,
            final(self).gs == old(self).gs,
            final(self).ts == old(self).ts,
            final(self).fonts == old(self).fonts,
            final(self).chars == old(self).chars,
            final(self).in_text == old(self).in_text,
            !handled ==> *final(self) == *old(self),
    {
        if bytes_eq(name, "m".as_bytes()) {
            if op.args.len() >= 2 {
                let x = argn(&op.args, 0);
                let y = argn(&op.args, 1);
                self.path.push(PathSeg::MoveTo(x, y));
                self.current_point = Some((x, y));
            }
        } else if bytes_eq(name, "l".as_bytes()) {
            if op.args.len() >= 2 {
                let x = argn(&op.args, 0);
                let y = argn(&op.args, 1);
                self.path.push(PathSeg::LineTo(x, y));
                self.current_point = Some((x, y));
            }
        } else if bytes_eq(name, "c".as_bytes()) {
            if op.args.len() >= 6 {
                let x3 = argn(&op.args, 4);
                let y3 = argn(&op.args, 5);
                self.path.push(
                    PathSeg::CurveTo(
                        argn(&op.args, 0),
                        argn(&op.args, 1),
                        argn(&op.args, 2),
                        argn(&op.args, 3),
                        x3,
                        y3,
                    ),
                );
                self.current_point = Some((x3, y3));
            }
        } else if bytes_eq(name, "v".as_bytes()) {
            if op.args.len() >= 4 {
                match self.current_point {
                    Some((cx, cy)) => {
                        let x3 = argn(&op.args, 2);
                        let y3 = argn(&op.args, 3);
                        self.path.push(
                            PathSeg::CurveTo(cx, cy, argn(&op.args, 0), argn(&op.args, 1), x3, y3),
                        );
                        self.current_point = Some((x3, y3));
                    },
                    None => {},
                }
            }
        } else if bytes_eq(name, "y".as_bytes()) {
            if op.args.len() >= 4 {
                let x3 = argn(&op.args, 2);
                let y3 = argn(&op.args, 3);
                self.path.push(
                    PathSeg::CurveTo(argn(&op.args, 0), argn(&op.args, 1), x3, y3, x3, y3),
                );
                self.current_point = Some((x3, y3));
            }
        } else if bytes_eq(name, "h".as_bytes()) {
            self.path.push(PathSeg::ClosePath);
        } else if bytes_eq(name, "re".as_bytes()) {
            if op.args.len() >= 4 {
                self.path.push(
                    PathSeg::Rectangle(
                        argn(&op.args, 0),
                        argn(&op.args, 1),
                        argn(&op.args, 2),
                        argn(&op.args, 3),
                    ),
                );
            }
        } else if bytes_eq(name, "S".as_bytes()) {
            self.paint_path(true, false);
        } else if bytes_eq(name, "s".as_bytes()) {
            self.path.push(PathSeg::ClosePath);
            self.paint_path(true, false);
        } else if bytes_eq(name, "f".as_bytes()) || bytes_eq(name, "F".as_bytes())
            || bytes_eq(name, "f*".as_bytes()) {
            self.paint_path(false, true);
        } else if bytes_eq(name, "B".as_bytes()) || bytes_eq(name, "B*".as_bytes()) {
            self.paint_path(false, true);
            self.paint_path(true, false);
        } else if bytes_eq(name, "b".as_bytes()) || bytes_eq(name, "b*".as_bytes()) {
            self.path.push(PathSeg::ClosePath);
            self.paint_path(false, true);
            self.paint_path(true, false);
        } else if bytes_eq(name, "n".as_bytes()) {
            self.path.clear();
            self.current_point = None;
        } else {
            return false;
        }
        true
    }

    /// Apply a named ExtGState from the resources.
    fn op_set_graphics_state(&mut self, args: &Vec<Arg>, res: &Resources)
        ensures
            final(self).page_height == old(self).page_height,
            final(self).doctop_offset == old(self).doctop_offset,
            final(self).stack == old(self).stack,
            final(self).chars == old(self).chars,
            final(self).lines == old(self).lines,
            final(self).rects == old(self).rects,
            final(self).curves == old(self).curves,
            final(self).path == old(self).path,
            final(self).current_point == old(self).current_point,
            final(self).fonts == old(self).fonts,
            final(self).in_text == old(self).in_text,
    {
        if args.len() < 1 {
            return;
        }
        let gname = match &args[0] {
            Arg::Name(n) => n,
            _ => {
                return;
            },
        };
        let n = res.ext_gstates.len();
        let mut i: usize = 0;
        while i < n
            invariant
                n == res.ext_gstates@.len(),
                0 <= i <= n,
                self.page_height == old(self).page_height,
                self.doctop_offset == old(self).doctop_offset,
                self.stack == old(self).stack,
                self.chars == old(self).chars,
                self.lines == old(self).lines,
                self.rects == old(self).rects,
                self.curves == old(self).curves,
                self.path == old(self).path,
                self.current_point == old(self).current_point,
                self.fonts == old(self).fonts,
                self.in_text == old(self).in_text,
            decreases n - i,
        {
            if bytes_eq(res.ext_gstates[i].0.as_slice(), gname.as_slice()) {
                let st = &res.ext_gstates[i].1;
                match st.line_width {
                    Some(w) => {
                        self.gs.line_width = w;
                    },
                    None => {},
                }
                match st.line_cap {
                    Some(c) => {
                        self.gs.line_cap = scale_to_i32(c);
                    },
                    None => {},
                }
                match st.line_join {
                    Some(j) => {
                        self.gs.line_join = scale_to_i32(j);
                    },
                    None => {},
                }
                match &st.font {
                    Some((fname, fsize)) => {
                        self.ts.font_name = bytes_to_text(fname.as_slice());
                        self.ts.font_size = *fsize;
                    },
                    None => {},
                }
                return;
            }
            i += 1;
        }
    }

    /// `Td`: move to the next line offset by (tx, ty).
    fn op_text_move(&mut self, tx: i64, ty: i64)
        ensures
            *final(self) == (ContentStreamInterpreter {
                ts: final(self).ts,
                ..*old(self)
            }),
            final(self).ts == (TextState {
                text_matrix: Matrix::spec_translate(tx, ty).spec_mul(old(self).ts.text_line_matrix),
                text_line_matrix: Matrix::spec_translate(tx, ty).spec_mul(
                    old(self).ts.text_line_matrix,
                ),
                ..old(self).ts
            }),
    {
        let m = Matrix::translate(tx, ty);
        let moved = m.multiply(&self.ts.text_line_matrix);
        self.ts.text_line_matrix = moved;
        self.ts.text_matrix = moved;
    }

    /// `T*`: move down one leading.
    fn op_text_next_line(&mut self)
        ensures
            *final(self) == (ContentStreamInterpreter {
                ts: final(self).ts,
                ..*old(self)
            }),
            final(self).ts == (TextState {
                text_matrix: Matrix::spec_translate(0i64, sat64(-(old(self).ts.leading as int)) as i64)
                    .spec_mul(old(self).ts.text_line_matrix),
                text_line_matrix: Matrix::spec_translate(
                    0i64,
                    sat64(-(old(self).ts.leading as int)) as i64,
                ).spec_mul(old(self).ts.text_line_matrix),
                ..old(self).ts
            }),
    {
        let down = fx_neg(self.ts.leading);
        let m = Matrix::translate(0, down);
        let moved = m.multiply(&self.ts.text_line_matrix);
        self.ts.text_line_matrix = moved;
        self.ts.text_matrix = moved;
    }

    /// `TJ`: show strings interleaved with kerning adjustments. Each
    /// string item renders its glyphs from the running text matrix; each
    /// numeric item kerns it.
    fn op_show_text_adjusted(&mut self, items: &Vec<TjItem>)
        requires
            prims_wf(*old(self)),
        ensures
            prims_wf(*final(self)),
            final(self).page_height == old(self).page_height,
            final(self).doctop_offset == old(self).doctop_offset,
            final(self).stack == old(self).stack,
            final(self).gs == old(self).gs,
            final(self).fonts == old(self).fonts,
            final(self).lines == old(self).lines,
            final(self).rects == old(self).rects,
            final(self).curves == old(self).curves,
            final(self).path == old(self).path,
            final(self).current_point == old(self).current_point,
            final(self).in_text == old(self).in_text,
            ({
                let font = spec_find_font(old(self).fonts@, old(self).ts.font_name@);
                let h = spec_h_scale(old(self).ts.horizontal_scaling);
                &&& final(self).chars@.len() == old(self).chars@.len() + spec_tj_count(
                    font,
                    items@,
                    items@.len() as int,
                )
                &&& final(self).chars@.subrange(0, old(self).chars@.len() as int)
                    == old(self).chars@
                &&& forall|k: int, j: int|
                    0 <= k < items@.len() && items@[k] is Text && 0 <= j < FontInfo::spec_codes(
                        items@[k]->Text_0@,
                        spec_two_byte(font),
                    ).len() ==> glyph_emitted(
                        #[trigger] final(self).chars@[
                            old(self).chars@.len() + spec_tj_count(font, items@, k) + j
                        ],
                        font,
                        (TextState { text_matrix: spec_tj_tm(font, old(self).ts, h, items@, k), ..old(self).ts }),
                        old(self).gs,
                        old(self).page_height,
                        old(self).doctop_offset,
                        h,
                        FontInfo::spec_codes(items@[k]->Text_0@, spec_two_byte(font)),
                        j,
                    )
                &&& final(self).ts == (TextState {
                    text_matrix: spec_tj_tm(font, old(self).ts, h, items@, items@.len() as int),
                    ..old(self).ts
                })
            }),
    {
        let ghost font = spec_find_font(old(self).fonts@, old(self).ts.font_name@);
        let ghost h_spec = spec_h_scale(old(self).ts.horizontal_scaling);
        let n = items.len();
        let mut i: usize = 0;
        while i < n
            invariant
                n == items@.len(),
                0 <= i <= n,
                prims_wf(*self),
                self.page_height == old(self).page_height,
                self.doctop_offset == old(self).doctop_offset,
                self.stack == old(self).stack,
                self.gs == old(self).gs,
                self.fonts == old(self).fonts,
                self.lines == old(self).lines,
                self.rects == old(self).rects,
                self.curves == old(self).curves,
                self.path == old(self).path,
                self.current_point == old(self).current_point,
                self.in_text == old(self).in_text,
                font == spec_find_font(old(self).fonts@, old(self).ts.font_name@),
                h_spec == spec_h_scale(old(self).ts.horizontal_scaling),
                self.chars@.len() == old(self).chars@.len() + spec_tj_count(font, items@, i as int),
                self.chars@.subrange(0, old(self).chars@.len() as int) == old(self).chars@,
                forall|k: int, j: int|
                    0 <= k < i && items@[k] is Text && 0 <= j < FontInfo::spec_codes(
                        items@[k]->Text_0@,
                        spec_two_byte(font),
                    ).len() ==> glyph_emitted(
                        #[trigger] self.chars@[
                            old(self).chars@.len() + spec_tj_count(font, items@, k) + j
                        ],
                        font,
                        (TextState { text_matrix: spec_tj_tm(font, old(self).ts, h_spec, items@, k), ..old(self).ts }),
                        old(self).gs,
                        old(self).page_height,
                        old(self).doctop_offset,
                        h_spec,
                        FontInfo::spec_codes(items@[k]->Text_0@, spec_two_byte(font)),
                        j,
                    ),
                self.ts == (TextState {
                    text_matrix: spec_tj_tm(font, old(self).ts, h_spec, items@, i as int),
                    ..old(self).ts
                }),
            decreases n - i,
        {
            let ghost pre = *self;
            match &items[i] {
                TjItem::Text(bytes) => {
                    self.render_text(bytes.as_slice());
                    proof {
                        assert(spec_find_font(pre.fonts@, pre.ts.font_name@) == font);
                        assert(spec_h_scale(pre.ts.horizontal_scaling) == h_spec);
                        assert(self.chars@.subrange(0, old(self).chars@.len() as int)
                            =~= old(self).chars@);
                        assert forall|k: int, j: int|
                            0 <= k < i && items@[k] is Text && 0 <= j < FontInfo::spec_codes(
                                items@[k]->Text_0@,
                                spec_two_byte(font),
                            ).len() implies glyph_emitted(
                                #[trigger] self.chars@[
                                    old(self).chars@.len() + spec_tj_count(font, items@, k) + j
                                ],
                                font,
                                (TextState { text_matrix: spec_tj_tm(font, old(self).ts, h_spec, items@, k), ..old(self).ts }),
                                old(self).gs,
                                old(self).page_height,
                                old(self).doctop_offset,
                                h_spec,
                                FontInfo::spec_codes(items@[k]->Text_0@, spec_two_byte(font)),
                                j,
                            ) by {
                            let idx = old(self).chars@.len() + spec_tj_count(font, items@, k) + j;
                            lemma_tj_count_mono(font, items@, k + 1, i as int);
                            assert(idx < pre.chars@.len());
                            assert(self.chars@[idx] == self.chars@.subrange(
                                0,
                                pre.chars@.len() as int,
                            )[idx]);
                            assert(self.chars@[idx] == pre.chars@[idx]);
                        }
                    }
                },
                TjItem::Offset(adj) => {
                    let a = clamp64(div_floor_i128(*adj as i128, 1000));
                    let h = clamp64(div_floor_i128(self.ts.horizontal_scaling as i128, 100));
                    proof {
                        assert(h == h_spec);
                    }
                    let tx = fx_neg(fx_mul(fx_mul(a, self.ts.font_size), h));
                    proof {
                        assert(tx == spec_tj_adjust(*adj, old(self).ts, h_spec));
                    }
                    let m = Matrix::translate(tx, 0);
                    self.ts.text_matrix = m.multiply(&self.ts.text_matrix);
                },
            }
            i += 1;
        }
    }

    /// Decode and render a shown string under the current text state.
    /// When every cached width is nonnegative and the horizontal scaling
    /// is not mirrored, every glyph this call emits has ordered sides.
    fn render_text(&mut self, bytes: &[u8])
        requires
            prims_wf(*old(self)),
        ensures
            prims_wf(*final(self)),
            final(self).page_height == old(self).page_height,
            final(self).doctop_offset == old(self).doctop_offset,
            final(self).stack == old(self).stack,
            final(self).gs == old(self).gs,
            final(self).fonts == old(self).fonts,
            final(self).lines == old(self).lines,
            final(self).rects == old(self).rects,
            final(self).curves == old(self).curves,
            final(self).path == old(self).path,
            final(self).current_point == old(self).current_point,
            final(self).in_text == old(self).in_text,
            ({
                let font = spec_find_font(old(self).fonts@, old(self).ts.font_name@);
                let h = spec_h_scale(old(self).ts.horizontal_scaling);
                let codes = FontInfo::spec_codes(bytes@, spec_two_byte(font));
                &&& final(self).chars@.len() == old(self).chars@.len() + codes.len()
                &&& final(self).chars@.subrange(0, old(self).chars@.len() as int)
                    == old(self).chars@
                &&& forall|k: int|
                    0 <= k < codes.len() ==> glyph_emitted(
                        #[trigger] final(self).chars@[old(self).chars@.len() + k],
                        font,
                        old(self).ts,
                        old(self).gs,
                        old(self).page_height,
                        old(self).doctop_offset,
                        h,
                        codes,
                        k,
                    )
                &&& final(self).ts == (TextState {
                    text_matrix: spec_tm_at(font, old(self).ts, h, codes, codes.len() as int),
                    ..old(self).ts
                })
            }),
            fonts_nonneg(old(self).fonts@) && old(self).ts.horizontal_scaling >= 0
                ==> forall|k: int|
                    old(self).chars@.len() <= k < final(self).chars@.len()
                        ==> (#[trigger] final(self).chars@[k]).x0 <= final(self).chars@[k].x1,
    {
        let ghost font = spec_find_font(old(self).fonts@, old(self).ts.font_name@);
        let decoded = match self.find_font(self.ts.font_name.as_str()) {
            Some(f) => f.decode_string(bytes),
            None => {
                let fallback = FontInfo::fallback(String::new());
                let d = fallback.decode_string(bytes);
                proof {
                    assert forall|code: u32|
                        true implies fallback.spec_decode_char(code) == spec_fallback_text(code) by {
                        assert(!fallback.to_unicode@.dom().contains(code));
                    }
                }
                d
            },
        };
        let ghost codes = FontInfo::spec_codes(bytes@, spec_two_byte(font));
        proof {
            assert(decoded@.len() == codes.len());
            assert(forall|k: int|
                0 <= k < codes.len() ==> (#[trigger] decoded@[k]).0 == codes[k]
                    && decoded@[k].1@ == spec_text_of(font, codes[k]));
        }
        let h = clamp64(div_floor_i128(self.ts.horizontal_scaling as i128, 100));
        proof {
            assert(h == spec_h_scale(old(self).ts.horizontal_scaling));
            if old(self).ts.horizontal_scaling >= 0 {
                assert(h >= 0);
            }
        }
        let n = decoded.len();
        let mut i: usize = 0;
        while i < n
            invariant
                n == decoded@.len(),
                n == codes.len(),
                0 <= i <= n,
                prims_wf(*self),
                self.page_height == old(self).page_height,
                self.doctop_offset == old(self).doctop_offset,
                self.stack == old(self).stack,
                self.gs == old(self).gs,
                self.fonts == old(self).fonts,
                self.lines == old(self).lines,
                self.rects == old(self).rects,
                self.curves == old(self).curves,
                self.path == old(self).path,
                self.current_point == old(self).current_point,
                self.in_text == old(self).in_text,
                font == spec_find_font(old(self).fonts@, old(self).ts.font_name@),
                codes == FontInfo::spec_codes(bytes@, spec_two_byte(font)),
                forall|k: int|
                    0 <= k < codes.len() ==> (#[trigger] decoded@[k]).0 == codes[k]
                        && decoded@[k].1@ == spec_text_of(font, codes[k]),
                h == spec_h_scale(old(self).ts.horizontal_scaling),
                old(self).ts.horizontal_scaling >= 0 ==> h >= 0,
                self.chars@.len() == old(self).chars@.len() + i,
                self.chars@.subrange(0, old(self).chars@.len() as int) == old(self).chars@,
                forall|k: int|
                    0 <= k < i ==> glyph_emitted(
                        #[trigger] self.chars@[old(self).chars@.len() + k],
                        font,
                        old(self).ts,
                        old(self).gs,
                        old(self).page_height,
                        old(self).doctop_offset,
                        h,
                        codes,
                        k,
                    ),
                self.ts == (TextState {
                    text_matrix: spec_tm_at(font, old(self).ts, h, codes, i as int),
                    ..old(self).ts
                }),
                fonts_nonneg(old(self).fonts@) && old(self).ts.horizontal_scaling >= 0
                    ==> forall|k: int|
                        old(self).chars@.len() <= k < self.chars@.len()
                            ==> (#[trigger] self.chars@[k]).x0 <= self.chars@[k].x1,
            decreases n - i,
        {
            let code = decoded[i].0;
            let text = decoded[i].1.clone();
            let w0 = match self.find_font(self.ts.font_name.as_str()) {
                Some(f) => f.char_width(code),
                None => 1000 * SCALE,
            };
            let base_font = match self.find_font(self.ts.font_name.as_str()) {
                Some(f) => f.base_font.clone(),
                None => String::new(),
            };
            proof {
                assert(w0 == spec_width_of(font, code));
            }
            let w0f = clamp64(div_floor_i128(w0 as i128, 1000));
            proof {
                assert(w0f == spec_w0f(w0));
            }
            let font_matrix = Matrix {
                a: fx_mul(self.ts.font_size, h),
                b: 0,
                c: 0,
                d: self.ts.font_size,
                e: 0,
                f: self.ts.rise,
            };
            proof {
                assert(font_matrix == spec_font_matrix(old(self).ts, h));
            }
            let trm = font_matrix.multiply(&self.ts.text_matrix).multiply(&self.gs.ctm);
            proof {
                assert(trm == spec_trm_at(font, old(self).ts, old(self).gs.ctm, h, codes, i as int));
            }
            let esize = trm.font_size();
            let x0 = trm.e;
            let bottom = fx_sub(self.page_height, trm.f);
            let top = fx_sub(bottom, esize);
            let doctop = fx_add(top, self.doctop_offset);
            proof {
                if fonts_nonneg(old(self).fonts@) && old(self).ts.horizontal_scaling >= 0 {
                    assert(w0 >= 0) by {
                        if exists|k: int|
                            0 <= k < self.fonts@.len()
                                && (#[trigger] self.fonts@[k]).0@ == self.ts.font_name@ {
                        }
                    }
                    assert(w0f >= 0);
                    lemma_fx_mul_nonneg(w0f as int, esize as int);
                    lemma_fx_mul_nonneg(crate::fx::fx_mul_spec(w0f as int, esize as int), h as int);
                }
            }
            let cw = fx_mul(fx_mul(w0f, esize), h);
            let x1 = fx_add(x0, cw);
            let mut tx = fx_mul(fx_add(fx_mul(w0f, self.ts.font_size), self.ts.char_spacing), h);
            if str_eq(text.as_str(), " ") {
                tx = fx_add(tx, fx_mul(self.ts.word_spacing, h));
            }
            proof {
                assert(tx == spec_glyph_adv(font, code, old(self).ts, h));
            }
            let upright = trm.is_upright();
            let ch = Char {
                text,
                fontname: base_font,
                size: esize,
                x0,
                x1,
                top,
                bottom,
                doctop,
                matrix: trm,
                upright,
                stroking_color: self.gs.stroking_color,
                non_stroking_color: self.gs.non_stroking_color,
                adv: tx,
            };
            let ghost pre_chars = self.chars@;
            self.chars.push(ch);
            proof {
                assert(self.chars@.subrange(0, old(self).chars@.len() as int)
                    =~= old(self).chars@);
                assert(glyph_emitted(
                    self.chars@[old(self).chars@.len() + i],
                    font,
                    old(self).ts,
                    old(self).gs,
                    old(self).page_height,
                    old(self).doctop_offset,
                    h,
                    codes,
                    i as int,
                ));
            }
            let advance = Matrix::translate(tx, 0);
            self.ts.text_matrix = advance.multiply(&self.ts.text_matrix);
            proof {
                assert(self.ts.text_matrix == spec_tm_at(font, old(self).ts, h, codes, i as int + 1));
            }
            i += 1;
        }
    }

    /// Replay the recorded path under the current transform, emitting
    /// lines, rectangles and curves, then clear it.
    #[verifier::rlimit(100)]
    fn paint_path(&mut self, stroke: bool, fill: bool)
        requires
            prims_wf(*old(self)),
        ensures
            prims_wf(*final(self)),
            final(self).page_height == old(self).page_height,
            final(self).doctop_offset == old(self).doctop_offset,
            final(self).stack == old(self).stack,
            final(self).path@.len() == 0,
            final(self).gs == old(self).gs,
            final(self).ts == old(self).ts,
            final(self).fonts == old(self).fonts,
            final(self).chars == old(self).chars,
            final(self).in_text == old(self).in_text,
            final(self).current_point is None,
            ({
                let g = old(self).gs;
                &&& final(self).lines@ == old(self).lines@ + spec_replay_lines(
                    old(self).path@,
                    0,
                    (0i64, 0i64),
                    (0i64, 0i64),
                    g.ctm,
                    old(self).page_height,
                    g.line_width,
                    g.stroking_color,
                    g.non_stroking_color,
                    stroke,
                )
                &&& final(self).rects@ == old(self).rects@ + spec_replay_rects(
                    old(self).path@,
                    0,
                    (0i64, 0i64),
                    (0i64, 0i64),
                    g.ctm,
                    old(self).page_height,
                    g.line_width,
                    g.stroking_color,
                    g.non_stroking_color,
                    stroke,
                    fill,
                )
                &&& final(self).curves@.len() == old(self).curves@.len() + spec_replay_curves(
                    old(self).path@,
                    0,
                    (0i64, 0i64),
                    (0i64, 0i64),
                    g.ctm,
                    old(self).page_height,
                ).len()
                &&& final(self).curves@.subrange(0, old(self).curves@.len() as int)
                    == old(self).curves@
                &&& forall|k: int|
                    0 <= k < spec_replay_curves(
                        old(self).path@,
                        0,
                        (0i64, 0i64),
                        (0i64, 0i64),
                        g.ctm,
                        old(self).page_height,
                    ).len() ==> (#[trigger] final(self).curves@[
                        old(self).curves@.len() + k
                    ]).points@ == spec_replay_curves(
                        old(self).path@,
                        0,
                        (0i64, 0i64),
                        (0i64, 0i64),
                        g.ctm,
                        old(self).page_height,
                    )[k] && final(self).curves@[old(self).curves@.len() + k].width == g.line_width
                        && final(self).curves@[old(self).curves@.len() + k].stroking_color == (
                        if stroke { g.stroking_color } else { None })
                        && final(self).curves@[old(self).curves@.len() + k].non_stroking_color
                        == (if fill { g.non_stroking_color } else { None })
            }),
    {
        let segs = self.path.split_off(0);
        let ghost g = old(self).gs;
        let ghost ph = old(self).page_height;
        let mut current: (i64, i64) = (0, 0);
        let mut subpath_start: (i64, i64) = (0, 0);
        let n = segs.len();
        let mut i: usize = 0;
        while i < n
            invariant
                n == segs@.len(),
                segs@ == old(self).path@,
                0 <= i <= n,
                prims_wf(*self),
                self.page_height == old(self).page_height,
                self.doctop_offset == old(self).doctop_offset,
                self.stack == old(self).stack,
                self.path@.len() == 0,
                self.gs == old(self).gs,
                self.ts == old(self).ts,
                self.fonts == old(self).fonts,
                self.chars == old(self).chars,
                self.in_text == old(self).in_text,
                self.current_point == old(self).current_point,
                g == old(self).gs,
                ph == old(self).page_height,
                old(self).lines@ + spec_replay_lines(
                    segs@,
                    0,
                    (0i64, 0i64),
                    (0i64, 0i64),
                    g.ctm,
                    ph,
                    g.line_width,
                    g.stroking_color,
                    g.non_stroking_color,
                    stroke,
                ) == self.lines@ + spec_replay_lines(
                    segs@,
                    i as int,
                    current,
                    subpath_start,
                    g.ctm,
                    ph,
                    g.line_width,
                    g.stroking_color,
                    g.non_stroking_color,
                    stroke,
                ),
                old(self).rects@ + spec_replay_rects(
                    segs@,
                    0,
                    (0i64, 0i64),
                    (0i64, 0i64),
                    g.ctm,
                    ph,
                    g.line_width,
                    g.stroking_color,
                    g.non_stroking_color,
                    stroke,
                    fill,
                ) == self.rects@ + spec_replay_rects(
                    segs@,
                    i as int,
                    current,
                    subpath_start,
                    g.ctm,
                    ph,
                    g.line_width,
                    g.stroking_color,
                    g.non_stroking_color,
                    stroke,
                    fill,
                ),
                self.curves@.len() >= old(self).curves@.len(),
                self.curves@.subrange(0, old(self).curves@.len() as int) == old(self).curves@,
                spec_replay_curves(segs@, 0, (0i64, 0i64), (0i64, 0i64), g.ctm, ph)
                    == curve_points_from(self.curves@, old(self).curves@.len() as int)
                    + spec_replay_curves(segs@, i as int, current, subpath_start, g.ctm, ph),
                forall|k: int|
                    old(self).curves@.len() <= k < self.curves@.len()
                        ==> (#[trigger] self.curves@[k]).width == g.line_width
                            && self.curves@[k].stroking_color == (if stroke {
                            g.stroking_color
                        } else {
                            None
                        }) && self.curves@[k].non_stroking_color == (if fill {
                            g.non_stroking_color
                        } else {
                            None
                        }),
            decreases n - i,
        {
            let ghost pre_cur = current;
            let ghost pre_start = subpath_start;
            let ghost pre_lines = self.lines@;
            let ghost pre_rects = self.rects@;
            let ghost pre_curves = self.curves@;
            match segs[i] {
                PathSeg::MoveTo(x, y) => {
                    let p = self.gs.ctm.transform_point(x, y);
                    proof {
                        assert(p == spec_transform(g.ctm, x, y));
                    }
                    current = p;
                    subpath_start = p;
                },
                PathSeg::LineTo(x, y) => {
                    let p = self.gs.ctm.transform_point(x, y);
                    proof {
                        assert(p == spec_transform(g.ctm, x, y));
                    }
                    if stroke {
                        self.add_line(current.0, current.1, p.0, p.1);
                        proof {
                            assert(self.lines@ =~= pre_lines + seq![
                                spec_line_of(pre_cur, p, ph, g.line_width, g.stroking_color, g.non_stroking_color),
                            ]);
                        }
                    }
                    current = p;
                },
                PathSeg::CurveTo(x1, y1, x2, y2, x3, y3) => {
                    let p1 = self.gs.ctm.transform_point(x1, y1);
                    let p2 = self.gs.ctm.transform_point(x2, y2);
                    let p3 = self.gs.ctm.transform_point(x3, y3);
                    let mut points: Vec<(i64, i64)> = Vec::new();
                    points.push((current.0, fx_sub(self.page_height, current.1)));
                    points.push((p1.0, fx_sub(self.page_height, p1.1)));
                    points.push((p2.0, fx_sub(self.page_height, p2.1)));
                    points.push((p3.0, fx_sub(self.page_height, p3.1)));
                    let curve = Curve {
                        points,
                        width: self.gs.line_width,
                        stroking_color: if stroke { self.gs.stroking_color } else { None },
                        non_stroking_color: if fill { self.gs.non_stroking_color } else { None },
                    };
                    self.curves.push(curve);
                    proof {
                        assert(self.curves@.subrange(0, old(self).curves@.len() as int)
                            =~= old(self).curves@);
                        assert(self.curves@.last().points@ =~= seq![
                            (pre_cur.0, sat64(ph as int - pre_cur.1 as int) as i64),
                            (
                                spec_transform(g.ctm, x1, y1).0,
                                sat64(ph as int - spec_transform(g.ctm, x1, y1).1 as int) as i64,
                            ),
                            (
                                spec_transform(g.ctm, x2, y2).0,
                                sat64(ph as int - spec_transform(g.ctm, x2, y2).1 as int) as i64,
                            ),
                            (
                                spec_transform(g.ctm, x3, y3).0,
                                sat64(ph as int - spec_transform(g.ctm, x3, y3).1 as int) as i64,
                            ),
                        ]);
                    }
                    current = p3;
                },
                PathSeg::ClosePath => {
                    if stroke && (current.0 != subpath_start.0 || current.1 != subpath_start.1) {
                        self.add_line(current.0, current.1, subpath_start.0, subpath_start.1);
                        proof {
                            assert(self.lines@ =~= pre_lines + seq![
                                spec_line_of(pre_cur, pre_start, ph, g.line_width, g.stroking_color, g.non_stroking_color),
                            ]);
                        }
                    }
                    current = subpath_start;
                },
                PathSeg::Rectangle(x, y, w, h) => {
                    let p0 = self.gs.ctm.transform_point(x, y);
                    let p1 = self.gs.ctm.transform_point(fx_add(x, w), fx_add(y, h));
                    let left = min_i64(p0.0, p1.0);
                    let right = max_i64(p0.0, p1.0);
                    let top = fx_sub(self.page_height, max_i64(p0.1, p1.1));
                    let bottom = fx_sub(self.page_height, min_i64(p0.1, p1.1));
                    let rect = Rect {
                        x0: left,
                        top,
                        x1: right,
                        bottom,
                        width: fx_sub(right, left),
                        height: fx_sub(bottom, top),
                        linewidth: self.gs.line_width,
                        stroking_color: if stroke { self.gs.stroking_color } else { None },
                        non_stroking_color: if fill { self.gs.non_stroking_color } else { None },
                    };
                    self.rects.push(rect);
                    proof {
                        assert(self.rects@ =~= pre_rects + seq![
                            spec_rect_of(
                                g.ctm,
                                x,
                                y,
                                w,
                                h,
                                ph,
                                g.line_width,
                                g.stroking_color,
                                g.non_stroking_color,
                                stroke,
                                fill,
                            ),
                        ]);
                    }
                },
            }
            proof {
                let nxt = replay_next(segs@[i as int], g.ctm, pre_cur, pre_start);
                assert(current == nxt.0 && subpath_start == nxt.1);
                assert(pre_lines + spec_replay_lines(
                    segs@,
                    i as int,
                    pre_cur,
                    pre_start,
                    g.ctm,
                    ph,
                    g.line_width,
                    g.stroking_color,
                    g.non_stroking_color,
                    stroke,
                ) =~= self.lines@ + spec_replay_lines(
                    segs@,
                    i as int + 1,
                    nxt.0,
                    nxt.1,
                    g.ctm,
                    ph,
                    g.line_width,
                    g.stroking_color,
                    g.non_stroking_color,
                    stroke,
                ));
                assert(pre_rects + spec_replay_rects(
                    segs@,
                    i as int,
                    pre_cur,
                    pre_start,
                    g.ctm,
                    ph,
                    g.line_width,
                    g.stroking_color,
                    g.non_stroking_color,
                    stroke,
                    fill,
                ) =~= self.rects@ + spec_replay_rects(
                    segs@,
                    i as int + 1,
                    nxt.0,
                    nxt.1,
                    g.ctm,
                    ph,
                    g.line_width,
                    g.stroking_color,
                    g.non_stroking_color,
                    stroke,
                    fill,
                ));
                assert(curve_points_from(self.curves@, old(self).curves@.len() as int)
                    + spec_replay_curves(segs@, i as int + 1, nxt.0, nxt.1, g.ctm, ph)
                    =~= curve_points_from(pre_curves, old(self).curves@.len() as int)
                    + spec_replay_curves(segs@, i as int, pre_cur, pre_start, g.ctm, ph));
            }
            i += 1;
        }
        proof {
            assert(spec_replay_lines(
                segs@,
                n as int,
                current,
                subpath_start,
                g.ctm,
                ph,
                g.line_width,
                g.stroking_color,
                g.non_stroking_color,
                stroke,
            ) =~= Seq::<Line>::empty());
            assert(old(self).lines@ + spec_replay_lines(
                segs@,
                0,
                (0i64, 0i64),
                (0i64, 0i64),
                g.ctm,
                ph,
                g.line_width,
                g.stroking_color,
                g.non_stroking_color,
                stroke,
            ) =~= self.lines@);
            assert(old(self).rects@ + spec_replay_rects(
                segs@,
                0,
                (0i64, 0i64),
                (0i64, 0i64),
                g.ctm,
                ph,
                g.line_width,
                g.stroking_color,
                g.non_stroking_color,
                stroke,
                fill,
            ) =~= self.rects@);
            let cpts = spec_replay_curves(segs@, 0, (0i64, 0i64), (0i64, 0i64), g.ctm, ph);
            assert(cpts =~= curve_points_from(self.curves@, old(self).curves@.len() as int));
            assert forall|k: int|
                0 <= k < cpts.len() implies (#[trigger] self.curves@[old(self).curves@.len() + k]).points@
                    == cpts[k] by {
                assert(cpts[k] == curve_points_from(self.curves@, old(self).curves@.len() as int)[k]);
            }
        }
        self.current_point = None;
    }

    /// Emit one stroked line, flipped into top-left coordinates.
    fn add_line(&mut self, x0: i64, y0: i64, x1: i64, y1: i64)
        requires
            prims_wf(*old(self)),
        ensures
            prims_wf(*final(self)),
            *final(self) == (ContentStreamInterpreter {
                lines: final(self).lines,
                ..*old(self)
            }),
            final(self).lines@ == old(self).lines@.push(
                spec_line_of(
                    (x0, y0),
                    (x1, y1),
                    old(self).page_height,
                    old(self).gs.line_width,
                    old(self).gs.stroking_color,
                    old(self).gs.non_stroking_color,
                ),
            ),
    {
        let (ax, ay, bx, by): (i64, i64, i64, i64) = if x0 <= x1 {
            (x0, y0, x1, y1)
        } else {
            (x1, y1, x0, y0)
        };
        let py0 = fx_sub(self.page_height, ay);
        let py1 = fx_sub(self.page_height, by);
        let line = Line {
            x0: ax,
            y0: py0,
            x1: bx,
            y1: py1,
            top: min_i64(py0, py1),
            bottom: max_i64(py0, py1),
            width: self.gs.line_width,
            stroking_color: self.gs.stroking_color,
            non_stroking_color: self.gs.non_stroking_color,
        };
        self.lines.push(line);
    }

    /// `Do`: run a form XObject inside its own saved graphics state, with
    /// its matrix pre-concatenated and its resources (or the caller's).
    /// A missing, malformed or unknown name changes nothing; a form whose
    /// body balances its saves and invokes no further form hands back the
    /// graphics state and stack it was called with.
    fn op_do_xobject(&mut self, args: &Vec<Arg>, res: &Resources, depth: u32)
        requires
            prims_wf(*old(self)),
        ensures
            prims_wf(*final(self)),
            final(self).page_height == old(self).page_height,
            final(self).doctop_offset == old(self).doctop_offset,
            depth == 0 ==> *final(self) == *old(self),
            args@.len() == 0 || !(args@[0] is Name) ==> *final(self) == *old(self),
            depth >= 1 && args@.len() >= 1 && args@[0] is Name ==> ({
                match spec_find_form_from(res.forms@, args@[0]->Name_0@, 0) {
                    None => *final(self) == *old(self),
                    Some(fi) => ({
                        let form = res.forms@[fi].1;
                        qq_balanced(form.ops@) && no_forms(form.ops@) ==> gs_eq(
                            final(self).gs,
                            old(self).gs,
                        ) && final(self).stack@ == old(self).stack@
                    }),
                }
            }),
        decreases depth, 0int,
    {
        if depth == 0 {
            return;
        }
        if args.len() < 1 {
            return;
        }
        let fname = match &args[0] {
            Arg::Name(n) => n,
            _ => {
                return;
            },
        };
        let n = res.forms.len();
        let mut i: usize = 0;
        while i < n
            invariant
                n == res.forms@.len(),
                0 <= i <= n,
                depth >= 1,
                args@.len() >= 1,
                args@[0] is Name,
                fname@ == args@[0]->Name_0@,
                prims_wf(*old(self)),
                *self == *old(self),
                spec_find_form_from(res.forms@, fname@, 0)
                    == spec_find_form_from(res.forms@, fname@, i as int),
            decreases n - i,
        {
            if bytes_eq(res.forms[i].0.as_slice(), fname.as_slice()) {
                let form = &res.forms[i].1;
                let snapshot = self.gs.clone();
                self.stack.push(snapshot);
                match form.matrix {
                    Some(m) => {
                        self.gs.ctm = m.multiply(&self.gs.ctm);
                    },
                    None => {},
                }
                match &form.resources {
                    Some(fr) => {
                        self.load_fonts(fr);
                        self.process_ops(&form.ops, fr, depth - 1);
                    },
                    None => {
                        self.load_fonts(res);
                        self.process_ops(&form.ops, res, depth - 1);
                    },
                }
                let ghost mid = *self;
                match self.stack.pop() {
                    Some(g) => {
                        self.gs = g;
                    },
                    None => {},
                }
                proof {
                    assert(spec_find_form_from(res.forms@, fname@, i as int) == Some(i as int));
                    let form = res.forms@[i as int].1;
                    if qq_balanced(form.ops@) && no_forms(form.ops@) {
                        assert(mid.stack@.len() == old(self).stack@.len() + 1);
                        assert(mid.stack@.subrange(0, old(self).stack@.len() as int + 1)
                            =~= mid.stack@);
                        assert(mid.stack@.last() == mid.stack@[old(self).stack@.len() as int]);
                        assert(gs_eq(mid.stack@.last(), old(self).gs));
                        assert(self.gs == mid.stack@.last());
                        assert(self.stack@ =~= old(self).stack@);
                    }
                }
                return;
            }
            i += 1;
        }
    }
}

/// A fixed-point product of nonnegative factors is nonnegative.
proof fn lemma_fx_mul_nonneg(a: int, b: int)
    requires
        0 <= a,
        0 <= b,
    ensures
        crate::fx::fx_mul_spec(a, b) >= 0,
{
    assert(a * b >= 0) by (nonlinear_arith)
        requires 0 <= a, 0 <= b;
    assert(a * b / (crate::fx::SCALE as int) >= 0) by {
        vstd::arithmetic::div_mod::lemma_div_is_ordered(0, a * b, crate::fx::SCALE as int);
        assert(0int / (crate::fx::SCALE as int) == 0) by (nonlinear_arith);
    }
}

/// Convert a fixed-point operand to the small integer it denotes.
fn scale_to_i32(v: i64) -> (r: i32)
    ensures
        r as int == ({
            let scaled = v as int / (SCALE as int);
            if scaled > i32::MAX as int {
                i32::MAX as int
            } else if scaled < i32::MIN as int {
                i32::MIN as int
            } else {
                scaled
            }
        }),
{
    let q = div_floor_i128(v as i128, SCALE as i128);
    if q > i32::MAX as i128 {
        i32::MAX
    } else if q < i32::MIN as i128 {
        i32::MIN
    } else {
        q as i32
    }
}

} // verus!

//! Shaped text: lines of glyph runs, and where each glyph's pen lands.
//!
//! Every length here is a fixed-point number in units of 1/64 pixel.

use vstd::prelude::*;
use crate::canvas::Color;

verus! {

/// One shaped glyph: which glyph it is, how far it is shifted from the pen
/// (`y` grows upwards), and how far the pen moves after it.
#[derive(Clone, Copy, Debug, PartialEq, Eq, Structural)]
pub struct Glyph {
    pub id: u32,
    pub x: i32,
    pub y: i32,
    pub advance: i32,
}

/// Glyphs that share one font, size and colour, laid out left to right from
/// `offset` on the line whose baseline is at `baseline`.
pub struct GlyphRun {
    pub offset: i32,
    pub baseline: i32,
    pub brush: Color,
    pub glyphs: Vec<Glyph>,
}

/// The runs of one line, left to right.
pub struct Line {
    pub runs: Vec<GlyphRun>,
}

/// A block of text after shaping, line breaking and alignment.
pub struct MeasuredLayout {
    pub width: i32,
    pub height: i32,
    pub lines: Vec<Line>,
}

/// Where one glyph goes on the raster, `y` growing downwards.
#[derive(Clone, Copy, Debug, PartialEq, Eq, Structural)]
pub struct GlyphPlacement {
    pub id: u32,
    pub x: i128,
    pub y: i128,
}

/// The whole pixel that a fixed-point position falls into.
pub open spec fn floor_px(v: int) -> int {
    v / 64
}

/// How far into its pixel a fixed-point position lies, in 1/64 pixel.
pub open spec fn subpixel(v: int) -> int {
    v % 64
}

/// The sum of the advances of the first `n` glyphs.
pub open spec fn advance_sum(glyphs: Seq<Glyph>, n: int) -> int
    decreases n,
{
    if n <= 0 {
        0
    } else {
        advance_sum(glyphs, n - 1) + glyphs[n - 1].advance
    }
}

/// Splits a fixed-point position into its whole pixel and the rest.
pub fn split_position(v: i128) -> (res: (i128, u8))
    ensures
        res.0 == floor_px(v as int),
        res.1 == subpixel(v as int),
        v == 64 * res.0 + res.1,
        res.1 < 64,
{
    if v >= 0 {
        let q: i128 = v / 64;
        let r: i128 = v % 64;
        (q, r as u8)
    } else {
        let m: i128 = -(v + 1);
        let q: i128 = m / 64;
        let r: i128 = m % 64;
        assert(v == 64 * (-q - 1) + (63 - r));
        (-q - 1, (63 - r) as u8)
    }
}

impl GlyphPlacement {
    /// The column of the pixel that holds the pen.
    pub fn pixel_x(&self) -> (p: i128)
        ensures
            p == floor_px(self.x as int),
    {
        split_position(self.x).0
    }

    /// The row of the pixel that holds the pen.
    pub fn pixel_y(&self) -> (p: i128)
        ensures
            p == floor_px(self.y as int),
    {
        split_position(self.y).0
    }

    /// The horizontal offset of the pen within its pixel, in 1/64 pixel.
    pub fn fract_x(&self) -> (f: u8)
        ensures
            f == subpixel(self.x as int),
            f < 64,
    {
        split_position(self.x).1
    }

    /// The vertical offset of the pen within its pixel, in 1/64 pixel.
    pub fn fract_y(&self) -> (f: u8)
        ensures
            f == subpixel(self.y as int),
            f < 64,
    {
        split_position(self.y).1
    }
}

impl GlyphRun {
    /// Where the pen stands before glyph `i` of a run drawn in a box whose
    /// left edge is at `origin_x`.
    pub open spec fn pen_x(&self, origin_x: int, i: int) -> int {
        self.offset + origin_x + advance_sum(self.glyphs@, i)
    }

    /// The horizontal position of glyph `i`.
    pub open spec fn glyph_x(&self, origin_x: int, i: int) -> int {
        self.pen_x(origin_x, i) + self.glyphs@[i].x
    }

    /// The vertical position of glyph `i` in a box whose top edge is at
    /// `origin_y`: the glyph's upward shift is taken off the baseline.
    pub open spec fn glyph_y(&self, origin_y: int, i: int) -> int {
        self.baseline + origin_y - self.glyphs@[i].y
    }

    /// The placement of every glyph of the run, in order.
    pub fn place(&self, origin_x: i32, origin_y: i32) -> (res: Vec<GlyphPlacement>)
        ensures
            res@.len() == self.glyphs@.len(),
            forall|i: int|
                0 <= i < res@.len() ==> {
                    &&& (#[trigger] res@[i]).id == self.glyphs@[i].id
                    &&& res@[i].x == self.glyph_x(origin_x as int, i)
                    &&& res@[i].y == self.glyph_y(origin_y as int, i)
                },
    {
        let n: usize = self.glyphs.len();
        let mut res: Vec<GlyphPlacement> = Vec::new();
        let mut pen: i128 = (self.offset as i128) + (origin_x as i128);
        let line_y: i128 = (self.baseline as i128) + (origin_y as i128);
        let mut i: usize = 0;
        while i < n
            invariant
                i <= n,
                n == self.glyphs@.len(),
                res@.len() == i,
                pen == self.pen_x(origin_x as int, i as int),
                -0x2_0000_0000 - i * 0x8000_0000 <= pen <= 0x2_0000_0000 + i * 0x8000_0000,
                line_y == self.baseline + origin_y,
                forall|j: int|
                    0 <= j < i ==> {
                        &&& (#[trigger] res@[j]).id == self.glyphs@[j].id
                        &&& res@[j].x == self.glyph_x(origin_x as int, j)
                        &&& res@[j].y == self.glyph_y(origin_y as int, j)
                    },
            decreases n - i,
        {
            let g: Glyph = self.glyphs[i];
            res.push(GlyphPlacement { id: g.id, x: pen + (g.x as i128), y: line_y - (g.y as i128) });
            pen = pen + (g.advance as i128);
            i = i + 1;
        }
        res
    }

    /// How far the pen travels over the whole run.
    pub fn advance_width(&self) -> (w: i128)
        ensures
            w == advance_sum(self.glyphs@, self.glyphs@.len() as int),
    {
        let n: usize = self.glyphs.len();
        let mut w: i128 = 0;
        let mut i: usize = 0;
        while i < n
            invariant
                i <= n,
                n == self.glyphs@.len(),
                w == advance_sum(self.glyphs@, i as int),
                -(i * 0x8000_0000) <= w <= i * 0x8000_0000,
            decreases n - i,
        {
            w = w + (self.glyphs[i].advance as i128);
            i = i + 1;
        }
        w
    }
}

impl MeasuredLayout {
    /// A layout of no text: no lines, no extent.
    pub fn empty() -> (res: MeasuredLayout)
        ensures
            res.width == 0,
            res.height == 0,
            res.lines@.len() == 0,
    {
        MeasuredLayout { width: 0, height: 0, lines: Vec::new() }
    }
}

/// Whether `layout` is what building `text` under `width_constraint` gives
/// when `shape` does the shaping: text of no bytes has a layout without
/// lines and without extent, and any other text has what `shape` makes of
/// it.
pub open spec fn built_by<F: FnOnce(&String, Option<i32>) -> MeasuredLayout>(
    shape: F,
    text: &String,
    width_constraint: Option<i32>,
    layout: MeasuredLayout,
) -> bool {
    if text@.len() == 0 {
        layout.width == 0 && layout.height == 0 && layout.lines@.len() == 0
    } else {
        shape.ensures((text, width_constraint), layout)
    }
}

/// Lays out `text` against `width_constraint`, where `None` means that
/// lines are not broken. Empty text is not shaped at all; any other text is
/// handed to `shape` together with the constraint, once.
pub fn build_layout<F: FnOnce(&String, Option<i32>) -> MeasuredLayout>(
    text: &String,
    width_constraint: Option<i32>,
    shape: F,
) -> (layout: MeasuredLayout)
    requires
        text@.len() > 0 ==> shape.requires((text, width_constraint)),
    ensures
        built_by(shape, text, width_constraint, layout),
{
    if text.as_str().is_empty() {
        MeasuredLayout::empty()
    } else {
        shape(text, width_constraint)
    }
}

/// Building is as repeatable as shaping: where `shape` can make only one
/// layout of a text under a constraint, any two layouts built of that text
/// under that constraint have the same extent and the same lines.
pub proof fn law_build_is_repeatable<F: FnOnce(&String, Option<i32>) -> MeasuredLayout>(
    shape: F,
    text: &String,
    width_constraint: Option<i32>,
    first: MeasuredLayout,
    second: MeasuredLayout,
)
    requires
        built_by(shape, text, width_constraint, first),
        built_by(shape, text, width_constraint, second),
        forall|a: MeasuredLayout, b: MeasuredLayout|
            shape.ensures((text, width_constraint), a) && shape.ensures((text, width_constraint), b)
                ==> a == b,
    ensures
        first.width == second.width,
        first.height == second.height,
        first.lines@ == second.lines@,
{
    if text@.len() == 0 {
        assert(first.lines@ =~= second.lines@);
    }
}

/// Breaking lines never widens a layout, as long as it never does in
/// `shape`: a text built without a constraint is then at least as wide as
/// the same text built under the constraint `w`.
pub proof fn law_breaking_never_widens<F: FnOnce(&String, Option<i32>) -> MeasuredLayout>(
    shape: F,
    text: &String,
    w: i32,
    unbroken: MeasuredLayout,
    broken: MeasuredLayout,
)
    requires
        built_by(shape, text, None, unbroken),
        built_by(shape, text, Some(w), broken),
        forall|a: MeasuredLayout, b: MeasuredLayout|
            shape.ensures((text, None), a) && shape.ensures((text, Some(w)), b) ==> a.width
                >= b.width,
    ensures
        unbroken.width >= broken.width,
{
}

/// Each glyph's pen stands one advance to the right of the pen of the glyph
/// before it, so over a whole run the pen travels the sum of the advances.
pub proof fn law_pen_travels_advance_sum(run: GlyphRun, origin_x: int, i: int)
    requires
        0 <= i < run.glyphs@.len(),
    ensures
        run.pen_x(origin_x, i + 1) == run.pen_x(origin_x, i) + run.glyphs@[i].advance,
        run.pen_x(origin_x, run.glyphs@.len() as int) - run.pen_x(origin_x, 0) == advance_sum(
            run.glyphs@,
            run.glyphs@.len() as int,
        ),
{
}

/// Snapping both ends of a run to whole pixels changes its width by less
/// than one pixel: the distance between the pixel of the last pen position
/// and the pixel of the first differs from the sum of the advances by less
/// than 64 units.
pub proof fn law_rendered_width_within_a_pixel(run: GlyphRun, origin_x: int)
    ensures
        -64 < 64 * (floor_px(run.pen_x(origin_x, run.glyphs@.len() as int)) - floor_px(
            run.pen_x(origin_x, 0),
        )) - advance_sum(run.glyphs@, run.glyphs@.len() as int) < 64,
{
    let a = run.pen_x(origin_x, 0);
    let b = run.pen_x(origin_x, run.glyphs@.len() as int);
    assert(a == 64 * (a / 64) + a % 64);
    assert(b == 64 * (b / 64) + b % 64);
}

} // verus!

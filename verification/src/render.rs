//! Painting shaped glyphs: from pen positions and rasterised bitmaps to
//! pixels.

use vstd::prelude::*;
use crate::canvas::Color;
use crate::canvas::ContentKind;
use crate::canvas::OutputImage;
use crate::canvas::RasterizedGlyph;
use crate::canvas::RenderError;
use crate::canvas::composited;
use crate::canvas::law_offscreen_glyph_paints_nothing;
use crate::layout::GlyphPlacement;
use crate::layout::GlyphRun;
use crate::layout::Line;
use crate::layout::MeasuredLayout;
use crate::layout::floor_px;

verus! {

/// The column of the top-left corner of a bitmap whose pen is at the
/// fixed-point position `pen_x`.
pub open spec fn bitmap_left(glyph: RasterizedGlyph, pen_x: int) -> int {
    floor_px(pen_x) + glyph.left()
}

/// The row of the top-left corner of a bitmap whose pen is at the
/// fixed-point position `pen_y`.
pub open spec fn bitmap_top(glyph: RasterizedGlyph, pen_y: int) -> int {
    floor_px(pen_y) - glyph.top()
}

/// Paints one rasterised glyph whose pen is at `at`. The bitmap's corner is
/// the pen's pixel moved by the bitmap's own placement; what falls outside
/// the raster is clipped. A sub-pixel mask is refused and nothing is painted.
pub fn render_glyph(
    image: &mut OutputImage,
    glyph: &RasterizedGlyph,
    at: &GlyphPlacement,
    brush: Color,
) -> (res: Result<(), RenderError>)
    requires
        old(image).wf(),
    ensures
        final(image).wf(),
        final(image).spec_width() == old(image).spec_width(),
        final(image).spec_height() == old(image).spec_height(),
        glyph.kind() == ContentKind::SubpixelMask ==> res == Err::<(), RenderError>(
            RenderError::UnsupportedContentKind,
        ) && final(image)@ == old(image)@,
        glyph.kind() != ContentKind::SubpixelMask ==> res is Ok && final(image)@ == composited(
            old(image)@,
            old(image).spec_width(),
            *glyph,
            bitmap_left(*glyph, at.x as int),
            bitmap_top(*glyph, at.y as int),
            brush,
        ),
{
    if glyph.content_kind() == ContentKind::SubpixelMask {
        return Err(RenderError::UnsupportedContentKind);
    }
    let ox: i128 = at.pixel_x() + (glyph.placement_left() as i128);
    let oy: i128 = at.pixel_y() - (glyph.placement_top() as i128);
    let lo: i128 = -0x8000_0000_0000_0000;
    let hi: i128 = 0x7fff_ffff_ffff_ffff;
    let w: u32 = image.width();
    let h: u32 = image.height();
    let gw: u32 = glyph.pixel_width();
    let gh: u32 = glyph.pixel_height();
    if ox < lo || ox > hi || oy < lo || oy > hi {
        proof {
            law_offscreen_glyph_paints_nothing(
                image@,
                image.spec_width(),
                image.spec_height(),
                *glyph,
                ox as int,
                oy as int,
                brush,
            );
        }
        return Ok(());
    }
    image.composite(glyph, ox as i64, oy as i64, brush)
}

/// Whether a slot holds a bitmap that cannot be painted.
pub open spec fn unsupported(slot: Option<RasterizedGlyph>) -> bool {
    slot is Some && slot->Some_0.kind() == ContentKind::SubpixelMask
}

/// The first of the first `n` slots that cannot be painted, or `n` if all
/// of them can.
pub open spec fn stop_index(rasters: Seq<Option<RasterizedGlyph>>, n: int) -> int
    decreases n,
{
    if n <= 0 {
        0
    } else {
        let s = stop_index(rasters, n - 1);
        if s < n - 1 {
            s
        } else if unsupported(rasters[n - 1]) {
            n - 1
        } else {
            n
        }
    }
}

/// How many of the first `n` slots are empty.
pub open spec fn skipped(rasters: Seq<Option<RasterizedGlyph>>, n: int) -> int
    decreases n,
{
    if n <= 0 {
        0
    } else {
        skipped(rasters, n - 1) + if rasters[n - 1] is None {
            1int
        } else {
            0int
        }
    }
}

/// The pixels after the first `n` glyphs of `run` have been painted, one
/// after the other, each over what the ones before it left. An empty slot
/// paints nothing.
pub open spec fn run_painted(
    before: Seq<Color>,
    width: int,
    run: GlyphRun,
    origin_x: int,
    origin_y: int,
    rasters: Seq<Option<RasterizedGlyph>>,
    n: int,
) -> Seq<Color>
    decreases n,
{
    if n <= 0 {
        before
    } else {
        let prev = run_painted(before, width, run, origin_x, origin_y, rasters, n - 1);
        match rasters[n - 1] {
            Some(g) => if g.kind() == ContentKind::SubpixelMask {
                prev
            } else {
                composited(
                    prev,
                    width,
                    g,
                    bitmap_left(g, run.glyph_x(origin_x, n - 1)),
                    bitmap_top(g, run.glyph_y(origin_y, n - 1)),
                    run.brush,
                )
            },
            None => prev,
        }
    }
}

/// Whether every glyph of a run has a slot and no slot holds a sub-pixel
/// mask.
pub open spec fn run_paintable(run: GlyphRun, rasters: Seq<Option<RasterizedGlyph>>) -> bool {
    rasters.len() == run.glyphs@.len() && stop_index(rasters, rasters.len() as int)
        == rasters.len()
}

/// Why a run that is not paintable is refused.
pub open spec fn run_failure(run: GlyphRun, rasters: Seq<Option<RasterizedGlyph>>) -> RenderError {
    if rasters.len() != run.glyphs@.len() {
        RenderError::Rasterization
    } else {
        RenderError::UnsupportedContentKind
    }
}

/// The pixels that rendering a run leaves: nothing is painted where the
/// slot count is wrong, and otherwise the glyphs before the first sub-pixel
/// mask are.
pub open spec fn run_result(
    before: Seq<Color>,
    width: int,
    run: GlyphRun,
    origin_x: int,
    origin_y: int,
    rasters: Seq<Option<RasterizedGlyph>>,
) -> Seq<Color> {
    if rasters.len() != run.glyphs@.len() {
        before
    } else {
        run_painted(
            before,
            width,
            run,
            origin_x,
            origin_y,
            rasters,
            stop_index(rasters, rasters.len() as int),
        )
    }
}

/// The first of the first `n` runs of a line that is not paintable, or `n`.
pub open spec fn line_stop(line: Line, rasters: Seq<Vec<Option<RasterizedGlyph>>>, n: int) -> int
    decreases n,
{
    if n <= 0 {
        0
    } else {
        let s = line_stop(line, rasters, n - 1);
        if s < n - 1 {
            s
        } else if !run_paintable(line.runs@[n - 1], rasters[n - 1]@) {
            n - 1
        } else {
            n
        }
    }
}

/// The pixels after the first `n` runs of a line have been rendered, one
/// after the other.
pub open spec fn line_painted(
    before: Seq<Color>,
    width: int,
    line: Line,
    origin_x: int,
    origin_y: int,
    rasters: Seq<Vec<Option<RasterizedGlyph>>>,
    n: int,
) -> Seq<Color>
    decreases n,
{
    if n <= 0 {
        before
    } else {
        run_result(
            line_painted(before, width, line, origin_x, origin_y, rasters, n - 1),
            width,
            line.runs@[n - 1],
            origin_x,
            origin_y,
            rasters[n - 1]@,
        )
    }
}

/// Whether every run of a line has its slots and is paintable.
pub open spec fn line_paintable(line: Line, rasters: Seq<Vec<Option<RasterizedGlyph>>>) -> bool {
    rasters.len() == line.runs@.len() && line_stop(line, rasters, rasters.len() as int)
        == rasters.len()
}

/// Why a line that is not paintable is refused: for a wrong number of runs,
/// or for what its first run that is not paintable is refused for.
pub open spec fn line_failure(line: Line, rasters: Seq<Vec<Option<RasterizedGlyph>>>) -> RenderError {
    if rasters.len() != line.runs@.len() {
        RenderError::Rasterization
    } else {
        let s = line_stop(line, rasters, rasters.len() as int);
        run_failure(line.runs@[s], rasters[s]@)
    }
}

/// The pixels that rendering a line leaves: its runs in order, up to and
/// including the first that is not paintable.
pub open spec fn line_result(
    before: Seq<Color>,
    width: int,
    line: Line,
    origin_x: int,
    origin_y: int,
    rasters: Seq<Vec<Option<RasterizedGlyph>>>,
) -> Seq<Color> {
    if rasters.len() != line.runs@.len() {
        before
    } else {
        let n = rasters.len() as int;
        let s = line_stop(line, rasters, n);
        line_painted(before, width, line, origin_x, origin_y, rasters, if s < n {
            s + 1
        } else {
            n
        })
    }
}

/// The first of the first `n` lines of a layout that is not paintable, or
/// `n`.
pub open spec fn layout_stop(
    layout: MeasuredLayout,
    rasters: Seq<Vec<Vec<Option<RasterizedGlyph>>>>,
    n: int,
) -> int
    decreases n,
{
    if n <= 0 {
        0
    } else {
        let s = layout_stop(layout, rasters, n - 1);
        if s < n - 1 {
            s
        } else if !line_paintable(layout.lines@[n - 1], rasters[n - 1]@) {
            n - 1
        } else {
            n
        }
    }
}

/// The pixels after the first `n` lines of a layout have been rendered, one
/// after the other.
pub open spec fn layout_painted(
    before: Seq<Color>,
    width: int,
    layout: MeasuredLayout,
    origin_x: int,
    origin_y: int,
    rasters: Seq<Vec<Vec<Option<RasterizedGlyph>>>>,
    n: int,
) -> Seq<Color>
    decreases n,
{
    if n <= 0 {
        before
    } else {
        line_result(
            layout_painted(before, width, layout, origin_x, origin_y, rasters, n - 1),
            width,
            layout.lines@[n - 1],
            origin_x,
            origin_y,
            rasters[n - 1]@,
        )
    }
}

proof fn lemma_line_stop_stays(line: Line, rasters: Seq<Vec<Option<RasterizedGlyph>>>, i: int, n: int)
    requires
        0 <= i < n,
        line_stop(line, rasters, i) == i,
        !run_paintable(line.runs@[i], rasters[i]@),
    ensures
        line_stop(line, rasters, n) == i,
    decreases n,
{
    if n > i + 1 {
        lemma_line_stop_stays(line, rasters, i, n - 1);
    }
}

proof fn lemma_layout_stop_stays(
    layout: MeasuredLayout,
    rasters: Seq<Vec<Vec<Option<RasterizedGlyph>>>>,
    i: int,
    n: int,
)
    requires
        0 <= i < n,
        layout_stop(layout, rasters, i) == i,
        !line_paintable(layout.lines@[i], rasters[i]@),
    ensures
        layout_stop(layout, rasters, n) == i,
    decreases n,
{
    if n > i + 1 {
        lemma_layout_stop_stays(layout, rasters, i, n - 1);
    }
}

proof fn lemma_skipped_bound(rasters: Seq<Option<RasterizedGlyph>>, n: int)
    requires
        0 <= n,
    ensures
        0 <= skipped(rasters, n) <= n,
    decreases n,
{
    if n > 0 {
        lemma_skipped_bound(rasters, n - 1);
    }
}

proof fn lemma_stop_stays(rasters: Seq<Option<RasterizedGlyph>>, i: int, n: int)
    requires
        0 <= i < n,
        stop_index(rasters, i) == i,
        unsupported(rasters[i]),
    ensures
        stop_index(rasters, n) == i,
    decreases n,
{
    if n > i + 1 {
        lemma_stop_stays(rasters, i, n - 1);
    }
}

/// Paints a run into a box whose top-left corner is at
/// `(origin_x, origin_y)`. `rasters` holds one slot per glyph, in order: the
/// glyph's bitmap, or nothing where it could not be rasterised. Glyphs are
/// painted left to right, each moved on by the advances before it. An empty
/// slot is skipped and counted. The first sub-pixel mask ends the run with an
/// error, the glyphs before it having been painted. A slot count that differs
/// from the glyph count is refused before anything is painted.
pub fn render_glyph_run(
    image: &mut OutputImage,
    run: &GlyphRun,
    origin_x: i32,
    origin_y: i32,
    rasters: &Vec<Option<RasterizedGlyph>>,
) -> (res: Result<usize, RenderError>)
    requires
        old(image).wf(),
    ensures
        final(image).wf(),
        final(image).spec_width() == old(image).spec_width(),
        final(image).spec_height() == old(image).spec_height(),
        final(image)@ == run_result(
            old(image)@,
            old(image).spec_width(),
            *run,
            origin_x as int,
            origin_y as int,
            rasters@,
        ),
        res is Ok <==> run_paintable(*run, rasters@),
        res is Err ==> res == Err::<usize, RenderError>(run_failure(*run, rasters@)),
        res is Ok ==> res->Ok_0 == skipped(rasters@, rasters@.len() as int),
{
    let n: usize = rasters.len();
    if n != run.glyphs.len() {
        return Err(RenderError::Rasterization);
    }
    proof {
        lemma_skipped_bound(rasters@, n as int);
    }
    let places = run.place(origin_x, origin_y);
    let ghost before = image@;
    let ghost width = image.spec_width();
    let mut missing: usize = 0;
    let mut i: usize = 0;
    while i < n
        invariant
            i <= n,
            n == rasters@.len(),
            n == run.glyphs@.len(),
            image.wf(),
            places@.len() == n,
            forall|j: int|
                0 <= j < n ==> {
                    &&& (#[trigger] places@[j]).x == run.glyph_x(origin_x as int, j)
                    &&& places@[j].y == run.glyph_y(origin_y as int, j)
                },
            image.spec_width() == width,
            image.spec_height() == old(image).spec_height(),
            width == old(image).spec_width(),
            before == old(image)@,
            stop_index(rasters@, i as int) == i,
            missing == skipped(rasters@, i as int),
            missing <= i,
            image@ == run_painted(
                before,
                width,
                *run,
                origin_x as int,
                origin_y as int,
                rasters@,
                i as int,
            ),
        decreases n - i,
    {
        match &rasters[i] {
            None => {
                missing = missing + 1;
            },
            Some(glyph) => {
                let at = places[i];
                let painted = render_glyph(image, glyph, &at, run.brush);
                if painted.is_err() {
                    proof {
                        lemma_skipped_bound(rasters@, n as int);
                        lemma_stop_stays(rasters@, i as int, n as int);
                    }
                    return Err(RenderError::UnsupportedContentKind);
                }
            },
        }
        i = i + 1;
    }
    Ok(missing)
}


/// Renders the runs of a line, left to right, into a box whose top-left
/// corner is at `(origin_x, origin_y)`. `rasters` holds the slots of each
/// run, in order. Rendering ends with the first run that is refused, and
/// what was painted until then stays. A run count that differs from the
/// line's is refused before anything is painted.
pub fn render_line(
    image: &mut OutputImage,
    line: &Line,
    origin_x: i32,
    origin_y: i32,
    rasters: &Vec<Vec<Option<RasterizedGlyph>>>,
) -> (res: Result<(), RenderError>)
    requires
        old(image).wf(),
    ensures
        final(image).wf(),
        final(image).spec_width() == old(image).spec_width(),
        final(image).spec_height() == old(image).spec_height(),
        final(image)@ == line_result(
            old(image)@,
            old(image).spec_width(),
            *line,
            origin_x as int,
            origin_y as int,
            rasters@,
        ),
        res is Ok <==> line_paintable(*line, rasters@),
        res is Err ==> res == Err::<(), RenderError>(line_failure(*line, rasters@)),
{
    let n: usize = rasters.len();
    if n != line.runs.len() {
        return Err(RenderError::Rasterization);
    }
    let ghost before = image@;
    let ghost width = image.spec_width();
    let mut i: usize = 0;
    while i < n
        invariant
            i <= n,
            n == rasters@.len(),
            n == line.runs@.len(),
            image.wf(),
            image.spec_width() == width,
            image.spec_height() == old(image).spec_height(),
            width == old(image).spec_width(),
            before == old(image)@,
            line_stop(*line, rasters@, i as int) == i,
            image@ == line_painted(
                before,
                width,
                *line,
                origin_x as int,
                origin_y as int,
                rasters@,
                i as int,
            ),
        decreases n - i,
    {
        let done = render_glyph_run(image, &line.runs[i], origin_x, origin_y, &rasters[i]);
        match done {
            Ok(_) => {},
            Err(e) => {
                proof {
                    lemma_line_stop_stays(*line, rasters@, i as int, n as int);
                }
                return Err(e);
            },
        }
        i = i + 1;
    }
    Ok(())
}

/// Renders a measured layout, line by line from the top, into a box whose
/// top-left corner is at `(origin_x, origin_y)`. `rasters` holds, for each
/// line, the slots of each of its runs. Rendering ends with the first line
/// that is refused, and what was painted until then stays. A line count that
/// differs from the layout's is refused before anything is painted.
pub fn render_layout(
    image: &mut OutputImage,
    layout: &MeasuredLayout,
    origin_x: i32,
    origin_y: i32,
    rasters: &Vec<Vec<Vec<Option<RasterizedGlyph>>>>,
) -> (res: Result<(), RenderError>)
    requires
        old(image).wf(),
    ensures
        final(image).wf(),
        final(image).spec_width() == old(image).spec_width(),
        final(image).spec_height() == old(image).spec_height(),
        rasters@.len() != layout.lines@.len() ==> res == Err::<(), RenderError>(
            RenderError::Rasterization,
        ) && final(image)@ == old(image)@,
        rasters@.len() == layout.lines@.len() ==> {
            let n = rasters@.len() as int;
            let s = layout_stop(*layout, rasters@, n);
            &&& res is Ok <==> s == n
            &&& s < n ==> res == Err::<(), RenderError>(
                line_failure(layout.lines@[s], rasters@[s]@),
            )
            &&& final(image)@ == layout_painted(
                old(image)@,
                old(image).spec_width(),
                *layout,
                origin_x as int,
                origin_y as int,
                rasters@,
                if s < n {
                    s + 1
                } else {
                    n
                },
            )
        },
{
    let n: usize = rasters.len();
    if n != layout.lines.len() {
        return Err(RenderError::Rasterization);
    }
    let ghost before = image@;
    let ghost width = image.spec_width();
    let mut i: usize = 0;
    while i < n
        invariant
            i <= n,
            n == rasters@.len(),
            n == layout.lines@.len(),
            image.wf(),
            image.spec_width() == width,
            image.spec_height() == old(image).spec_height(),
            width == old(image).spec_width(),
            before == old(image)@,
            layout_stop(*layout, rasters@, i as int) == i,
            image@ == layout_painted(
                before,
                width,
                *layout,
                origin_x as int,
                origin_y as int,
                rasters@,
                i as int,
            ),
        decreases n - i,
    {
        let done = render_line(image, &layout.lines[i], origin_x, origin_y, &rasters[i]);
        match done {
            Ok(_) => {},
            Err(e) => {
                proof {
                    lemma_layout_stop_stays(*layout, rasters@, i as int, n as int);
                }
                return Err(e);
            },
        }
        i = i + 1;
    }
    Ok(())
}

} // verus!

//! The output raster, rasterised glyphs, and source-over compositing.

use vstd::prelude::*;
use vstd::arithmetic::div_mod::lemma_fundamental_div_mod;
use vstd::arithmetic::div_mod::lemma_fundamental_div_mod_converse;

verus! {

/// A non-premultiplied RGBA colour, one byte per channel.
#[derive(Clone, Copy, Debug, PartialEq, Eq, Structural)]
pub struct Color {
    pub r: u8,
    pub g: u8,
    pub b: u8,
    pub a: u8,
}

/// Why a render step failed.
#[derive(Clone, Copy, Debug, PartialEq, Eq, Structural)]
pub enum RenderError {
    /// The glyph carries sub-pixel coverage, which is never painted.
    UnsupportedContentKind,
    /// The rasteriser produced nothing usable for a glyph.
    Rasterization,
}

/// What the bytes of a rasterised glyph mean.
#[derive(Clone, Copy, Debug, PartialEq, Eq, Structural)]
pub enum ContentKind {
    /// One alpha byte per pixel.
    Mask,
    /// Sub-pixel coverage, four bytes per pixel.
    SubpixelMask,
    /// One RGBA quadruple per pixel.
    Color,
}

impl ContentKind {
    /// Bytes that one pixel of this kind occupies.
    pub open spec fn spec_bytes_per_pixel(self) -> int {
        match self {
            ContentKind::Mask => 1,
            _ => 4,
        }
    }

    /// Bytes that one pixel of this kind occupies.
    pub fn bytes_per_pixel(self) -> (n: u8)
        ensures
            n == self.spec_bytes_per_pixel(),
    {
        match self {
            ContentKind::Mask => 1,
            _ => 4,
        }
    }
}

/// The result of the `image` crate's source-over blend of a translucent
/// source colour (alpha strictly between 0 and 255) over `dst`.
pub uninterp spec fn mixed(dst: Color, src: Color) -> Color;

/// Source-over blend of `src` onto `dst`: a fully transparent source leaves
/// the destination as it is, a fully opaque one replaces it, and anything in
/// between is mixed.
pub open spec fn source_over(dst: Color, src: Color) -> Color {
    if src.a == 0 {
        dst
    } else if src.a == 255 {
        src
    } else {
        mixed(dst, src)
    }
}

/// Calls `image::Pixel::blend` on two `image::Rgba<u8>` values. Its source
/// returns early with the destination untouched when the source alpha is 0,
/// and overwrites the destination with the source when the source alpha is
/// 255; for every other alpha the result is a function of the eight bytes,
/// which is given the name `mixed`.
#[verifier::external_body]
fn blend_pixels(dst: Color, src: Color) -> (res: Color)
    ensures
        src.a == 0 ==> res == dst,
        src.a == 255 ==> res == src,
        0 < src.a < 255 ==> res == mixed(dst, src),
{
    let mut under = image::Rgba([dst.r, dst.g, dst.b, dst.a]);
    image::Pixel::blend(&mut under, &image::Rgba([src.r, src.g, src.b, src.a]));
    Color { r: under.0[0], g: under.0[1], b: under.0[2], a: under.0[3] }
}

/// Blends `src` onto `dst` by source-over compositing.
pub fn blend(dst: Color, src: Color) -> (res: Color)
    ensures
        res == source_over(dst, src),
{
    blend_pixels(dst, src)
}

/// One glyph as the rasteriser produced it: a bitmap of `width` by `height`
/// pixels, row by row, to be placed `left` pixels right of and `top` pixels
/// above the glyph's pen position.
pub struct RasterizedGlyph {
    kind: ContentKind,
    left: i32,
    top: i32,
    width: u32,
    height: u32,
    data: Vec<u8>,
}

impl RasterizedGlyph {
    /// What the bitmap's bytes mean.
    pub closed spec fn kind(&self) -> ContentKind {
        self.kind
    }

    /// How far right of the pen the bitmap's left edge lies, in pixels.
    pub closed spec fn left(&self) -> int {
        self.left as int
    }

    /// How far above the pen the bitmap's top edge lies, in pixels.
    pub closed spec fn top(&self) -> int {
        self.top as int
    }

    /// The bitmap's width in pixels.
    pub closed spec fn width(&self) -> int {
        self.width as int
    }

    /// The bitmap's height in pixels.
    pub closed spec fn height(&self) -> int {
        self.height as int
    }

    /// The bitmap's bytes.
    pub closed spec fn bytes(&self) -> Seq<u8> {
        self.data@
    }

    /// The bitmap holds exactly the bytes that its size and kind call for.
    #[verifier::type_invariant]
    spec fn well_formed(&self) -> bool {
        self.data@.len() == self.width * self.height * self.kind.spec_bytes_per_pixel()
    }

    /// The colour that the bitmap contributes at its own column `gx` and row
    /// `gy`: the brush colour at the mask's alpha, or the bitmap's own colour.
    pub open spec fn source(&self, gx: int, gy: int, brush: Color) -> Color {
        let i = gy * self.width() + gx;
        match self.kind() {
            ContentKind::Mask => Color { r: brush.r, g: brush.g, b: brush.b, a: self.bytes()[i] },
            _ => Color {
                r: self.bytes()[4 * i],
                g: self.bytes()[4 * i + 1],
                b: self.bytes()[4 * i + 2],
                a: self.bytes()[4 * i + 3],
            },
        }
    }

    /// Whether the bitmap, with its top-left corner at `(ox, oy)`, lies over
    /// the pixel `(x, y)`.
    pub open spec fn covers(&self, ox: int, oy: int, x: int, y: int) -> bool {
        ox <= x < ox + self.width() && oy <= y < oy + self.height()
    }

    /// Builds a glyph bitmap. Fails with `Rasterization` exactly when `data`
    /// does not hold `width * height` pixels of the given kind.
    pub fn new(
        kind: ContentKind,
        left: i32,
        top: i32,
        width: u32,
        height: u32,
        data: Vec<u8>,
    ) -> (res: Result<RasterizedGlyph, RenderError>)
        ensures
            res is Ok <==> data@.len() == width * height * kind.spec_bytes_per_pixel(),
            res is Err ==> res == Err::<RasterizedGlyph, RenderError>(RenderError::Rasterization),
            res is Ok ==> {
                let g = res->Ok_0;
                &&& g.kind() == kind
                &&& g.left() == left
                &&& g.top() == top
                &&& g.width() == width
                &&& g.height() == height
                &&& g.bytes() == data@
            },
    {
        let bpp: u128 = kind.bytes_per_pixel() as u128;
        assert(width * height * bpp <= 0xffff_ffff * 0xffff_ffff * 4) by (nonlinear_arith)
            requires
                0 <= width <= 0xffff_ffff,
                0 <= height <= 0xffff_ffff,
                0 <= bpp <= 4,
        ;
        assert(width * height <= 0xffff_ffff * 0xffff_ffff) by (nonlinear_arith)
            requires
                0 <= width <= 0xffff_ffff,
                0 <= height <= 0xffff_ffff,
        ;
        let need: u128 = (width as u128) * (height as u128) * bpp;
        if data.len() as u128 == need {
            Ok(RasterizedGlyph { kind, left, top, width, height, data })
        } else {
            Err(RenderError::Rasterization)
        }
    }

    /// What the bitmap's bytes mean.
    pub fn content_kind(&self) -> (k: ContentKind)
        ensures
            k == self.kind(),
    {
        self.kind
    }

    /// How far right of the pen the bitmap's left edge lies, in pixels.
    pub fn placement_left(&self) -> (v: i32)
        ensures
            v == self.left(),
    {
        self.left
    }

    /// How far above the pen the bitmap's top edge lies, in pixels.
    pub fn placement_top(&self) -> (v: i32)
        ensures
            v == self.top(),
    {
        self.top
    }

    /// The bitmap's width in pixels.
    pub fn pixel_width(&self) -> (v: u32)
        ensures
            v == self.width(),
    {
        self.width
    }

    /// The bitmap's height in pixels.
    pub fn pixel_height(&self) -> (v: u32)
        ensures
            v == self.height(),
    {
        self.height
    }
}


/// A fixed-size RGBA raster, rows from the top, pixels from the left.
pub struct OutputImage {
    width: u32,
    height: u32,
    pixels: Vec<Color>,
}

impl View for OutputImage {
    type V = Seq<Color>;

    /// The pixels, row by row.
    closed spec fn view(&self) -> Seq<Color> {
        self.pixels@
    }
}

/// The pixels that a buffer of RGBA bytes holds, four bytes each.
pub open spec fn pixels_of_bytes(bytes: Seq<u8>) -> Seq<Color> {
    Seq::new(
        (bytes.len() / 4) as nat,
        |k: int| Color { r: bytes[4 * k], g: bytes[4 * k + 1], b: bytes[4 * k + 2], a: bytes[4 * k + 3] },
    )
}

/// One channel of a colour: 0 red, 1 green, 2 blue, anything else alpha.
pub open spec fn channel(c: Color, n: int) -> u8 {
    if n == 0 {
        c.r
    } else if n == 1 {
        c.g
    } else if n == 2 {
        c.b
    } else {
        c.a
    }
}

/// The RGBA bytes of a sequence of pixels, four bytes each.
pub open spec fn bytes_of_pixels(pixels: Seq<Color>) -> Seq<u8> {
    Seq::new(4 * pixels.len(), |j: int| channel(pixels[j / 4], j % 4))
}

/// Pixels written out as bytes and read back are the same pixels.
pub proof fn law_bytes_round_trip(pixels: Seq<Color>)
    ensures
        pixels_of_bytes(bytes_of_pixels(pixels)) == pixels,
{
    assert(pixels_of_bytes(bytes_of_pixels(pixels)) =~= pixels);
}

/// The index of pixel `(x, y)` in a row-major raster `width` pixels wide.
pub open spec fn pixel_index(width: int, x: int, y: int) -> int {
    y * width + x
}

/// The pixel sequence of `width` columns that results from painting `glyph`
/// with its top-left corner at `(ox, oy)` over `before`: every covered pixel
/// is the source-over blend of the glyph's colour there onto the old pixel,
/// every other pixel stays.
pub open spec fn composited(
    before: Seq<Color>,
    width: int,
    glyph: RasterizedGlyph,
    ox: int,
    oy: int,
    brush: Color,
) -> Seq<Color> {
    Seq::new(before.len(), |k: int| painted(before, width, glyph, ox, oy, brush, k))
}

/// The pixel at index `k` after such a painting.
pub open spec fn painted(
    before: Seq<Color>,
    width: int,
    glyph: RasterizedGlyph,
    ox: int,
    oy: int,
    brush: Color,
    k: int,
) -> Color {
    let x = k % width;
    let y = k / width;
    if glyph.covers(ox, oy, x, y) {
        source_over(before[k], glyph.source(x - ox, y - oy, brush))
    } else {
        before[k]
    }
}

/// The pixel at index `k` once the first `done` pixels of the glyph's bitmap
/// have been painted.
spec fn painted_upto(
    before: Seq<Color>,
    width: int,
    glyph: RasterizedGlyph,
    ox: int,
    oy: int,
    brush: Color,
    done: int,
    k: int,
) -> Color {
    let x = k % width;
    let y = k / width;
    if glyph.covers(ox, oy, x, y) && (y - oy) * glyph.width() + (x - ox) < done {
        source_over(before[k], glyph.source(x - ox, y - oy, brush))
    } else {
        before[k]
    }
}

proof fn lemma_index_in_range(width: int, height: int, x: int, y: int)
    requires
        0 <= x < width,
        0 <= y < height,
    ensures
        0 <= y * width + x < width * height,
        (y * width + x) / width == y,
        (y * width + x) % width == x,
{
    assert(y * width + x < width * height) by (nonlinear_arith)
        requires
            0 <= x < width,
            0 <= y < height,
    ;
    assert(0 <= y * width) by (nonlinear_arith)
        requires
            0 <= width,
            0 <= y,
    ;
    lemma_fundamental_div_mod_converse(y * width + x, width, y, x);
}

impl OutputImage {
    /// The number of columns.
    pub closed spec fn spec_width(&self) -> int {
        self.width as int
    }

    /// The number of rows.
    pub closed spec fn spec_height(&self) -> int {
        self.height as int
    }

    /// There is exactly one pixel for every position.
    pub open spec fn wf(&self) -> bool {
        self@.len() == self.spec_width() * self.spec_height()
    }

    /// The pixel in column `x` of row `y`.
    pub open spec fn pixel(&self, x: int, y: int) -> Color {
        self@[pixel_index(self.spec_width(), x, y)]
    }

    /// A raster of the given size with every pixel equal to `fill`.
    pub fn new(width: u32, height: u32, fill: Color) -> (img: OutputImage)
        requires
            width * height <= usize::MAX,
        ensures
            img.wf(),
            img.spec_width() == width,
            img.spec_height() == height,
            forall|k: int| 0 <= k < img@.len() ==> img@[k] == fill,
    {
        assert(width * height <= 0xffff_ffff * 0xffff_ffff) by (nonlinear_arith)
            requires
                0 <= width <= 0xffff_ffff,
                0 <= height <= 0xffff_ffff,
        ;
        let total: u64 = (width as u64) * (height as u64);
        let mut pixels: Vec<Color> = Vec::new();
        let mut k: u64 = 0;
        while k < total
            invariant
                k <= total,
                pixels@.len() == k,
                forall|j: int| 0 <= j < k ==> pixels@[j] == fill,
            decreases total - k,
        {
            pixels.push(fill);
            k = k + 1;
        }
        OutputImage { width, height, pixels }
    }

    /// The number of columns.
    pub fn width(&self) -> (w: u32)
        ensures
            w == self.spec_width(),
    {
        self.width
    }

    /// The number of rows.
    pub fn height(&self) -> (h: u32)
        ensures
            h == self.spec_height(),
    {
        self.height
    }

    /// Where the pixel at `(x, y)` is stored.
    fn flat_index(&self, x: u32, y: u32) -> (k: usize)
        requires
            self.wf(),
            x < self.spec_width(),
            y < self.spec_height(),
        ensures
            k == pixel_index(self.spec_width(), x as int, y as int),
            0 <= k < self@.len(),
            k as int / self.spec_width() == y,
            k as int % self.spec_width() == x,
    {
        let n: usize = self.pixels.len();
        proof {
            lemma_index_in_range(self.width as int, self.height as int, x as int, y as int);
            assert(0 <= y * self.width <= y * self.width + x) by (nonlinear_arith)
                requires
                    0 <= y,
                    0 <= self.width,
                    0 <= x,
            ;
        }
        (y as usize) * (self.width as usize) + (x as usize)
    }

    /// Takes over a buffer of RGBA bytes, four per pixel, rows from the top.
    /// Succeeds exactly when `data` holds `width * height` pixels.
    pub fn from_raw(width: u32, height: u32, data: Vec<u8>) -> (res: Option<OutputImage>)
        ensures
            res is Some <==> data@.len() == 4 * (width * height),
            res is Some ==> {
                let img = res->Some_0;
                &&& img.wf()
                &&& img.spec_width() == width
                &&& img.spec_height() == height
                &&& img@ == pixels_of_bytes(data@)
            },
    {
        assert(width * height <= 0xffff_ffff * 0xffff_ffff) by (nonlinear_arith)
            requires
                0 <= width <= 0xffff_ffff,
                0 <= height <= 0xffff_ffff,
        ;
        let total: u128 = (width as u128) * (height as u128);
        if data.len() as u128 != 4 * total {
            return None;
        }
        let count: usize = data.len() / 4;
        let mut pixels: Vec<Color> = Vec::new();
        let mut k: usize = 0;
        while k < count
            invariant
                k <= count,
                data@.len() == 4 * count,
                data@.len() <= usize::MAX,
                pixels@.len() == k,
                forall|j: int| 0 <= j < k ==> pixels@[j] == pixels_of_bytes(data@)[j],
            decreases count - k,
        {
            let c = Color {
                r: data[4 * k],
                g: data[4 * k + 1],
                b: data[4 * k + 2],
                a: data[4 * k + 3],
            };
            pixels.push(c);
            k = k + 1;
        }
        assert(pixels@ =~= pixels_of_bytes(data@));
        Some(OutputImage { width, height, pixels })
    }

    /// The raster as RGBA bytes, four per pixel, rows from the top.
    pub fn to_raw(&self) -> (bytes: Vec<u8>)
        requires
            4 * self@.len() <= usize::MAX,
        ensures
            bytes@ == bytes_of_pixels(self@),
    {
        let count: usize = self.pixels.len();
        let mut bytes: Vec<u8> = Vec::new();
        let mut k: usize = 0;
        while k < count
            invariant
                k <= count,
                count == self.pixels@.len(),
                bytes@.len() == 4 * k,
                forall|j: int| 0 <= j < 4 * k ==> bytes@[j] == bytes_of_pixels(self.pixels@)[j],
            decreases count - k,
        {
            let c = self.pixels[k];
            bytes.push(c.r);
            bytes.push(c.g);
            bytes.push(c.b);
            bytes.push(c.a);
            k = k + 1;
        }
        assert(bytes@ =~= bytes_of_pixels(self.pixels@));
        bytes
    }

    /// The pixel at `(x, y)`, or `None` outside the raster.
    pub fn get_pixel(&self, x: u32, y: u32) -> (res: Option<Color>)
        requires
            self.wf(),
        ensures
            res == (if x < self.spec_width() && y < self.spec_height() {
                Some(self.pixel(x as int, y as int))
            } else {
                None
            }),
    {
        if x < self.width && y < self.height {
            let k: usize = self.flat_index(x, y);
            Some(self.pixels[k])
        } else {
            None
        }
    }

    /// Paints `glyph` with the top-left corner of its bitmap at `(ox, oy)`.
    /// A mask is painted in `brush`, a colour bitmap in its own colours.
    /// Whatever falls outside the raster is clipped. A sub-pixel mask is
    /// refused and leaves the raster as it was.
    pub fn composite(&mut self, glyph: &RasterizedGlyph, ox: i64, oy: i64, brush: Color) -> (res:
        Result<(), RenderError>)
        requires
            old(self).wf(),
        ensures
            final(self).wf(),
            final(self).spec_width() == old(self).spec_width(),
            final(self).spec_height() == old(self).spec_height(),
            glyph.kind() == ContentKind::SubpixelMask ==> res == Err::<(), RenderError>(
                RenderError::UnsupportedContentKind,
            ) && final(self)@ == old(self)@,
            glyph.kind() != ContentKind::SubpixelMask ==> res is Ok && final(self)@ == composited(
                old(self)@,
                old(self).spec_width(),
                *glyph,
                ox as int,
                oy as int,
                brush,
            ),
    {
        if glyph.kind == ContentKind::SubpixelMask {
            return Err(RenderError::UnsupportedContentKind);
        }
        proof {
            use_type_invariant(glyph);
        }
        let gw: u32 = glyph.width;
        let gh: u32 = glyph.height;
        let w: u32 = self.width;
        let h: u32 = self.height;
        assert(gw * gh <= 0xffff_ffff * 0xffff_ffff) by (nonlinear_arith)
            requires
                0 <= gw <= 0xffff_ffff,
                0 <= gh <= 0xffff_ffff,
        ;
        let total: u64 = (gw as u64) * (gh as u64);
        let ghost before = self.pixels@;
        let mut i: u64 = 0;
        while i < total
            invariant
                i <= total,
                total == gw * gh,
                gw == glyph.width,
                gh == glyph.height,
                glyph.kind != ContentKind::SubpixelMask,
                w == self.width,
                h == self.height,
                self.width == old(self).width,
                self.height == old(self).height,
                before == old(self).pixels@,
                self.pixels@.len() == before.len(),
                before.len() == w * h,
                forall|k: int|
                    0 <= k < before.len() ==> self.pixels@[k] == painted_upto(
                        before,
                        w as int,
                        *glyph,
                        ox as int,
                        oy as int,
                        brush,
                        i as int,
                        k,
                    ),
            decreases total - i,
        {
            assert(gw > 0) by (nonlinear_arith)
                requires
                    i < gw * gh,
                    0 <= i,
                    0 <= gw,
            ;
            let col: u64 = i % (gw as u64);
            let row: u64 = i / (gw as u64);
            proof {
                lemma_fundamental_div_mod(i as int, gw as int);
                assert(row < gh) by (nonlinear_arith)
                    requires
                        i < gw * gh,
                        i == gw * row + col,
                        0 <= col,
                        0 < gw,
                ;
            }
            let gx: u32 = col as u32;
            let gy: u32 = row as u32;
            let x: i128 = (ox as i128) + (gx as i128);
            let y: i128 = (oy as i128) + (gy as i128);
            if 0 <= x && x < (w as i128) && 0 <= y && y < (h as i128) {
                let k0: usize = self.flat_index(x as u32, y as u32);
                let src = glyph.pixel_at(i, brush);
                let under = self.pixels[k0];
                let mixed_px = blend(under, src);
                self.pixels.set(k0, mixed_px);
                proof {
                    assert((gy as int) * (gw as int) + (gx as int) == i) by (nonlinear_arith)
                        requires
                            i == gw * gy + gx,
                    ;
                    assert forall|k: int| 0 <= k < before.len() implies self.pixels@[k]
                        == painted_upto(
                        before,
                        w as int,
                        *glyph,
                        ox as int,
                        oy as int,
                        brush,
                        i + 1,
                        k,
                    ) by {
                        let kx = k % (w as int);
                        let ky = k / (w as int);
                        if k != k0 && glyph.covers(ox as int, oy as int, kx, ky) && (ky - oy) * gw
                            + (kx - ox) == i {
                            lemma_fundamental_div_mod_converse(
                                i as int,
                                gw as int,
                                ky - oy,
                                kx - ox,
                            );
                            lemma_fundamental_div_mod(k, w as int);
                            assert(k == (w as int) * ky + kx);
                            assert((w as int) * ky == ky * (w as int)) by (nonlinear_arith);
                            assert(false);
                        }
                    }
                }
            } else {
                proof {
                    assert((gy as int) * (gw as int) + (gx as int) == i) by (nonlinear_arith)
                        requires
                            i == gw * gy + gx,
                    ;
                    assert forall|k: int| 0 <= k < before.len() implies self.pixels@[k]
                        == painted_upto(
                        before,
                        w as int,
                        *glyph,
                        ox as int,
                        oy as int,
                        brush,
                        i + 1,
                        k,
                    ) by {
                        let kx = k % (w as int);
                        let ky = k / (w as int);
                        if glyph.covers(ox as int, oy as int, kx, ky) && (ky - oy) * gw + (kx - ox)
                            == i {
                            lemma_fundamental_div_mod_converse(
                                i as int,
                                gw as int,
                                ky - oy,
                                kx - ox,
                            );
                            lemma_fundamental_div_mod(k, w as int);
                            assert(0 <= kx < w);
                            assert(ky < h) by (nonlinear_arith)
                                requires
                                    k < w * h,
                                    k == w * ky + kx,
                                    0 <= kx,
                                    0 < w,
                            ;
                            assert(0 <= ky) by (nonlinear_arith)
                                requires
                                    0 <= k,
                                    k == w * ky + kx,
                                    kx < w,
                                    0 < w,
                            ;
                            assert(false);
                        }
                    }
                }
            }
            i = i + 1;
        }
        proof {
            assert forall|k: int| 0 <= k < before.len() implies self.pixels@[k] == painted(
                before,
                w as int,
                *glyph,
                ox as int,
                oy as int,
                brush,
                k,
            ) by {
                let kx = k % (w as int);
                let ky = k / (w as int);
                if glyph.covers(ox as int, oy as int, kx, ky) {
                    assert((ky - oy) * gw + (kx - ox) < gw * gh) by (nonlinear_arith)
                        requires
                            0 <= ky - oy < gh,
                            0 <= kx - ox < gw,
                    ;
                }
            }
            assert(self.pixels@ =~= composited(
                before,
                w as int,
                *glyph,
                ox as int,
                oy as int,
                brush,
            ));
        }
        Ok(())
    }
}

impl RasterizedGlyph {
    /// The colour that the `i`-th pixel of the bitmap contributes.
    fn pixel_at(&self, i: u64, brush: Color) -> (c: Color)
        requires
            self.kind() != ContentKind::SubpixelMask,
            0 < self.width(),
            i < self.width() * self.height(),
        ensures
            c == self.source((i as int) % self.width(), (i as int) / self.width(), brush),
    {
        proof {
            use_type_invariant(self);
            lemma_fundamental_div_mod(i as int, self.width as int);
            let q = (i as int) / (self.width as int);
            let r = (i as int) % (self.width as int);
            assert(q * self.width + r == i) by (nonlinear_arith)
                requires
                    i == self.width * q + r,
            ;
        }
        let n: usize = self.data.len();
        assert(n == self.width * self.height * self.kind.spec_bytes_per_pixel());
        assert(i * self.kind.spec_bytes_per_pixel() + self.kind.spec_bytes_per_pixel()
            <= self.width * self.height * self.kind.spec_bytes_per_pixel()) by (nonlinear_arith)
            requires
                i < self.width * self.height,
                1 <= self.kind.spec_bytes_per_pixel(),
        ;
        match self.kind {
            ContentKind::Mask => {
                let a = self.data[i as usize];
                Color { r: brush.r, g: brush.g, b: brush.b, a }
            },
            _ => {
                let j: usize = 4 * (i as usize);
                Color { r: self.data[j], g: self.data[j + 1], b: self.data[j + 2], a: self.data[j + 3] }
            },
        }
    }
}


/// Painting a glyph changes each pixel of a raster `width` by `height` on
/// its own: a pixel under the bitmap becomes the source-over blend of the
/// bitmap's colour there onto the old pixel, and a pixel beside it stays.
pub proof fn law_composited_pixel(
    before: Seq<Color>,
    width: int,
    height: int,
    glyph: RasterizedGlyph,
    ox: int,
    oy: int,
    brush: Color,
    x: int,
    y: int,
)
    requires
        before.len() == width * height,
        0 <= x < width,
        0 <= y < height,
    ensures
        0 <= pixel_index(width, x, y) < before.len(),
        composited(before, width, glyph, ox, oy, brush)[pixel_index(width, x, y)] == (if glyph.covers(
            ox,
            oy,
            x,
            y,
        ) {
            source_over(before[pixel_index(width, x, y)], glyph.source(x - ox, y - oy, brush))
        } else {
            before[pixel_index(width, x, y)]
        }),
{
    lemma_index_in_range(width, height, x, y);
}

/// Where a coverage mask is fully transparent the pixel under it stays as it
/// was, and where it is fully opaque the pixel becomes the opaque brush
/// colour.
pub proof fn law_mask_extremes(
    before: Seq<Color>,
    width: int,
    height: int,
    glyph: RasterizedGlyph,
    ox: int,
    oy: int,
    brush: Color,
    x: int,
    y: int,
)
    requires
        before.len() == width * height,
        0 <= x < width,
        0 <= y < height,
        glyph.kind() == ContentKind::Mask,
        glyph.covers(ox, oy, x, y),
    ensures
        glyph.source(x - ox, y - oy, brush).a == 0 ==> composited(
            before,
            width,
            glyph,
            ox,
            oy,
            brush,
        )[pixel_index(width, x, y)] == before[pixel_index(width, x, y)],
        glyph.source(x - ox, y - oy, brush).a == 255 ==> composited(
            before,
            width,
            glyph,
            ox,
            oy,
            brush,
        )[pixel_index(width, x, y)] == (Color { r: brush.r, g: brush.g, b: brush.b, a: 255 }),
{
    law_composited_pixel(before, width, height, glyph, ox, oy, brush, x, y);
}

/// Glyphs that overlap accumulate: where a second bitmap is painted over a
/// pixel that a first one already covers, the pixel is the second colour
/// blended onto the blend of the first colour and the old pixel, not the
/// second colour blended onto the old pixel.
pub proof fn law_overlap_accumulates(
    before: Seq<Color>,
    width: int,
    height: int,
    first: RasterizedGlyph,
    first_ox: int,
    first_oy: int,
    first_brush: Color,
    second: RasterizedGlyph,
    second_ox: int,
    second_oy: int,
    second_brush: Color,
    x: int,
    y: int,
)
    requires
        before.len() == width * height,
        0 <= x < width,
        0 <= y < height,
        first.covers(first_ox, first_oy, x, y),
        second.covers(second_ox, second_oy, x, y),
    ensures
        composited(
            composited(before, width, first, first_ox, first_oy, first_brush),
            width,
            second,
            second_ox,
            second_oy,
            second_brush,
        )[pixel_index(width, x, y)] == source_over(
            source_over(
                before[pixel_index(width, x, y)],
                first.source(x - first_ox, y - first_oy, first_brush),
            ),
            second.source(x - second_ox, y - second_oy, second_brush),
        ),
{
    let once = composited(before, width, first, first_ox, first_oy, first_brush);
    law_composited_pixel(before, width, height, first, first_ox, first_oy, first_brush, x, y);
    law_composited_pixel(once, width, height, second, second_ox, second_oy, second_brush, x, y);
}

/// A glyph that lies wholly outside a raster `width` by `height` changes
/// nothing.
pub proof fn law_offscreen_glyph_paints_nothing(
    before: Seq<Color>,
    width: int,
    height: int,
    glyph: RasterizedGlyph,
    ox: int,
    oy: int,
    brush: Color,
)
    requires
        before.len() == width * height,
        0 <= width,
        0 <= height,
        ox + glyph.width() <= 0 || oy + glyph.height() <= 0 || width <= ox || height <= oy,
    ensures
        composited(before, width, glyph, ox, oy, brush) == before,
{
    assert forall|k: int| 0 <= k < before.len() implies painted(
        before,
        width,
        glyph,
        ox,
        oy,
        brush,
        k,
    ) == before[k] by {
        if width > 0 {
            lemma_fundamental_div_mod(k, width);
            let kx = k % width;
            let ky = k / width;
            assert(0 <= ky < height) by (nonlinear_arith)
                requires
                    0 <= k < width * height,
                    k == width * ky + kx,
                    0 <= kx < width,
            ;
        } else {
            assert(width * height == 0) by (nonlinear_arith)
                requires
                    width == 0,
            ;
        }
    }
    assert(composited(before, width, glyph, ox, oy, brush) =~= before);
}

} // verus!

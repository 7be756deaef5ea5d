use text_block::canvas::{blend, Color, ContentKind, OutputImage, RasterizedGlyph, RenderError};

const WHITE: Color = Color { r: 255, g: 255, b: 255, a: 255 };
const BLACK: Color = Color { r: 0, g: 0, b: 0, a: 255 };
const RED: Color = Color { r: 255, g: 0, b: 0, a: 255 };

fn mask(left: i32, top: i32, width: u32, height: u32, data: Vec<u8>) -> RasterizedGlyph {
    RasterizedGlyph::new(ContentKind::Mask, left, top, width, height, data).unwrap()
}

#[test]
fn blend_with_transparent_source_keeps_destination() {
    let dst = Color { r: 10, g: 20, b: 30, a: 40 };
    let src = Color { r: 200, g: 100, b: 50, a: 0 };
    assert_eq!(blend(dst, src), dst);
}

#[test]
fn blend_with_opaque_source_replaces_destination() {
    let dst = Color { r: 10, g: 20, b: 30, a: 40 };
    let src = Color { r: 200, g: 100, b: 50, a: 255 };
    assert_eq!(blend(dst, src), src);
}

#[test]
fn blend_half_black_over_white() {
    let src = Color { r: 0, g: 0, b: 0, a: 128 };
    assert_eq!(blend(WHITE, src), Color { r: 127, g: 127, b: 127, a: 254 });
}

#[test]
fn blend_quarter_red_over_white() {
    let src = Color { r: 255, g: 0, b: 0, a: 64 };
    assert_eq!(blend(WHITE, src), Color { r: 255, g: 191, b: 191, a: 255 });
}

#[test]
fn blend_over_fully_transparent_destination() {
    let dst = Color { r: 0, g: 0, b: 0, a: 0 };
    let src = Color { r: 10, g: 20, b: 30, a: 100 };
    assert_eq!(blend(dst, src), src);
}

#[test]
fn blend_two_translucent_colours() {
    let dst = Color { r: 10, g: 20, b: 30, a: 40 };
    let src = Color { r: 200, g: 100, b: 50, a: 128 };
    assert_eq!(blend(dst, src), Color { r: 174, g: 89, b: 47, a: 147 });
}

#[test]
fn new_image_is_filled() {
    let img = OutputImage::new(3, 2, WHITE);
    assert_eq!(img.width(), 3);
    assert_eq!(img.height(), 2);
    for y in 0..2 {
        for x in 0..3 {
            assert_eq!(img.get_pixel(x, y), Some(WHITE));
        }
    }
    assert_eq!(img.get_pixel(3, 0), None);
    assert_eq!(img.get_pixel(0, 2), None);
}

#[test]
fn empty_image_has_no_pixels() {
    let img = OutputImage::new(0, 5, WHITE);
    assert_eq!(img.get_pixel(0, 0), None);
    assert_eq!(img.to_raw(), Vec::<u8>::new());
}

#[test]
fn raw_bytes_round_trip() {
    let bytes: Vec<u8> = (0u8..24).collect();
    let img = OutputImage::from_raw(3, 2, bytes.clone()).unwrap();
    assert_eq!(img.get_pixel(0, 0), Some(Color { r: 0, g: 1, b: 2, a: 3 }));
    assert_eq!(img.get_pixel(2, 0), Some(Color { r: 8, g: 9, b: 10, a: 11 }));
    assert_eq!(img.get_pixel(1, 1), Some(Color { r: 16, g: 17, b: 18, a: 19 }));
    assert_eq!(img.to_raw(), bytes);
}

#[test]
fn from_raw_refuses_wrong_length() {
    assert!(OutputImage::from_raw(3, 2, vec![0; 23]).is_none());
    assert!(OutputImage::from_raw(3, 2, vec![0; 25]).is_none());
    assert!(OutputImage::from_raw(0, 2, vec![0; 4]).is_none());
    assert!(OutputImage::from_raw(0, 2, Vec::new()).is_some());
}

#[test]
fn glyph_with_wrong_byte_count_is_refused() {
    let short = RasterizedGlyph::new(ContentKind::Mask, 0, 0, 2, 2, vec![0; 3]);
    assert_eq!(short.err(), Some(RenderError::Rasterization));
    let long = RasterizedGlyph::new(ContentKind::Color, 0, 0, 2, 2, vec![0; 17]);
    assert_eq!(long.err(), Some(RenderError::Rasterization));
    let mask_as_color = RasterizedGlyph::new(ContentKind::Color, 0, 0, 2, 2, vec![0; 4]);
    assert_eq!(mask_as_color.err(), Some(RenderError::Rasterization));
    assert!(RasterizedGlyph::new(ContentKind::Color, 0, 0, 2, 2, vec![0; 16]).is_ok());
    assert!(RasterizedGlyph::new(ContentKind::SubpixelMask, 0, 0, 1, 1, vec![0; 4]).is_ok());
}

#[test]
fn glyph_reports_what_it_was_built_with() {
    let g = RasterizedGlyph::new(ContentKind::Mask, -3, 7, 2, 1, vec![1, 2]).unwrap();
    assert_eq!(g.content_kind(), ContentKind::Mask);
    assert_eq!(g.placement_left(), -3);
    assert_eq!(g.placement_top(), 7);
    assert_eq!(g.pixel_width(), 2);
    assert_eq!(g.pixel_height(), 1);
    assert_eq!(ContentKind::Mask.bytes_per_pixel(), 1);
    assert_eq!(ContentKind::Color.bytes_per_pixel(), 4);
    assert_eq!(ContentKind::SubpixelMask.bytes_per_pixel(), 4);
}

#[test]
fn mask_alpha_zero_leaves_pixel_and_alpha_full_replaces_it() {
    let mut img = OutputImage::new(4, 3, WHITE);
    let g = mask(0, 0, 2, 1, vec![0, 255]);
    assert_eq!(img.composite(&g, 1, 1, RED), Ok(()));
    assert_eq!(img.get_pixel(1, 1), Some(WHITE));
    assert_eq!(img.get_pixel(2, 1), Some(RED));
    assert_eq!(img.get_pixel(0, 1), Some(WHITE));
    assert_eq!(img.get_pixel(3, 1), Some(WHITE));
    assert_eq!(img.get_pixel(2, 0), Some(WHITE));
    assert_eq!(img.get_pixel(2, 2), Some(WHITE));
}

#[test]
fn mask_ignores_brush_alpha() {
    let mut img = OutputImage::new(1, 1, WHITE);
    let g = mask(0, 0, 1, 1, vec![255]);
    let faint_red = Color { r: 255, g: 0, b: 0, a: 3 };
    assert_eq!(img.composite(&g, 0, 0, faint_red), Ok(()));
    assert_eq!(img.get_pixel(0, 0), Some(RED));
}

#[test]
fn mask_rows_are_read_in_order() {
    let mut img = OutputImage::new(3, 3, WHITE);
    let g = mask(0, 0, 2, 2, vec![255, 0, 0, 255]);
    assert_eq!(img.composite(&g, 1, 1, BLACK), Ok(()));
    assert_eq!(img.get_pixel(1, 1), Some(BLACK));
    assert_eq!(img.get_pixel(2, 1), Some(WHITE));
    assert_eq!(img.get_pixel(1, 2), Some(WHITE));
    assert_eq!(img.get_pixel(2, 2), Some(BLACK));
}

#[test]
fn overlapping_masks_accumulate() {
    let mut img = OutputImage::new(3, 1, WHITE);
    let g = mask(0, 0, 2, 1, vec![128, 128]);
    assert_eq!(img.composite(&g, 0, 0, BLACK), Ok(()));
    assert_eq!(img.composite(&g, 1, 0, BLACK), Ok(()));
    assert_eq!(img.get_pixel(0, 0), Some(Color { r: 127, g: 127, b: 127, a: 254 }));
    assert_eq!(img.get_pixel(1, 0), Some(Color { r: 63, g: 63, b: 63, a: 254 }));
    assert_eq!(img.get_pixel(2, 0), Some(Color { r: 127, g: 127, b: 127, a: 254 }));
}

#[test]
fn colour_bitmap_uses_its_own_colours() {
    let mut img = OutputImage::new(2, 2, WHITE);
    let data = vec![0, 0, 255, 255, 9, 9, 9, 0, 255, 0, 0, 64, 0, 255, 0, 255];
    let g = RasterizedGlyph::new(ContentKind::Color, 0, 0, 2, 2, data).unwrap();
    assert_eq!(img.composite(&g, 0, 0, BLACK), Ok(()));
    assert_eq!(img.get_pixel(0, 0), Some(Color { r: 0, g: 0, b: 255, a: 255 }));
    assert_eq!(img.get_pixel(1, 0), Some(WHITE));
    assert_eq!(img.get_pixel(0, 1), Some(Color { r: 255, g: 191, b: 191, a: 255 }));
    assert_eq!(img.get_pixel(1, 1), Some(Color { r: 0, g: 255, b: 0, a: 255 }));
}

#[test]
fn subpixel_mask_is_refused_and_paints_nothing() {
    let mut img = OutputImage::new(2, 2, WHITE);
    let g = RasterizedGlyph::new(ContentKind::SubpixelMask, 0, 0, 1, 1, vec![255; 4]).unwrap();
    assert_eq!(img.composite(&g, 0, 0, BLACK), Err(RenderError::UnsupportedContentKind));
    assert_eq!(img.to_raw(), vec![255u8; 16]);
}

#[test]
fn glyph_is_clipped_at_the_left_and_top() {
    let mut img = OutputImage::new(2, 2, WHITE);
    let g = mask(0, 0, 2, 2, vec![255; 4]);
    assert_eq!(img.composite(&g, -1, -1, BLACK), Ok(()));
    assert_eq!(img.get_pixel(0, 0), Some(BLACK));
    assert_eq!(img.get_pixel(1, 0), Some(WHITE));
    assert_eq!(img.get_pixel(0, 1), Some(WHITE));
    assert_eq!(img.get_pixel(1, 1), Some(WHITE));
}

#[test]
fn glyph_is_clipped_at_the_right_and_bottom() {
    let mut img = OutputImage::new(2, 2, WHITE);
    let g = mask(0, 0, 2, 2, vec![255; 4]);
    assert_eq!(img.composite(&g, 1, 1, BLACK), Ok(()));
    assert_eq!(img.get_pixel(0, 0), Some(WHITE));
    assert_eq!(img.get_pixel(1, 0), Some(WHITE));
    assert_eq!(img.get_pixel(0, 1), Some(WHITE));
    assert_eq!(img.get_pixel(1, 1), Some(BLACK));
}

#[test]
fn glyph_far_outside_paints_nothing() {
    let mut img = OutputImage::new(2, 2, WHITE);
    let g = mask(0, 0, 2, 2, vec![255; 4]);
    assert_eq!(img.composite(&g, i64::MAX, 0, BLACK), Ok(()));
    assert_eq!(img.composite(&g, i64::MIN, i64::MIN, BLACK), Ok(()));
    assert_eq!(img.composite(&g, 0, 2, BLACK), Ok(()));
    assert_eq!(img.composite(&g, -2, 0, BLACK), Ok(()));
    assert_eq!(img.to_raw(), vec![255u8; 16]);
}

#[test]
fn empty_glyph_paints_nothing() {
    let mut img = OutputImage::new(2, 2, WHITE);
    let g = mask(0, 0, 0, 3, Vec::new());
    assert_eq!(img.composite(&g, 0, 0, BLACK), Ok(()));
    assert_eq!(img.to_raw(), vec![255u8; 16]);
}

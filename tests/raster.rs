use hashtag_printer::compose::{compose_standard, Layout, Typeface};
use hashtag_printer::error::{CompositeError, FetchError};
use hashtag_printer::raster::{decode_image, image_from_response, place_overlay, RasterImage};

const WHITE: [u8; 4] = [255, 255, 255, 255];
const RED: [u8; 4] = [255, 0, 0, 255];

fn png_bytes(w: u32, h: u32, color: [u8; 4]) -> Vec<u8> {
    let img = image::RgbaImage::from_pixel(w, h, image::Rgba(color));
    let mut out = std::io::Cursor::new(Vec::new());
    img.write_to(&mut out, image::ImageOutputFormat::Png).unwrap();
    out.into_inner()
}

#[test]
fn filled_image_has_its_color_everywhere() {
    let img = RasterImage::filled(3, 2, [1, 2, 3, 4]);
    assert_eq!(img.pixels.len(), 24);
    assert_eq!(img.pixel(2, 1), [1, 2, 3, 4]);
}

#[test]
fn decode_png_gives_its_pixels() {
    let img = decode_image(&png_bytes(4, 3, [10, 20, 30, 255])).unwrap();
    assert_eq!((img.width, img.height), (4, 3));
    assert_eq!(img.pixels.len(), 48);
    assert_eq!(img.pixel(3, 2), [10, 20, 30, 255]);
}

#[test]
fn decode_garbage_is_decode_error() {
    assert_eq!(decode_image(b"not an image at all").unwrap_err(), FetchError::DecodeError);
    assert_eq!(decode_image(&[]).unwrap_err(), FetchError::DecodeError);
    let mut truncated = png_bytes(4, 4, RED);
    truncated.truncate(30);
    assert_eq!(decode_image(&truncated).unwrap_err(), FetchError::DecodeError);
}

#[test]
fn response_status_decides_before_decoding() {
    let png = png_bytes(1, 1, RED);
    assert_eq!(image_from_response(404, &png).unwrap_err(), FetchError::Network);
    assert_eq!(image_from_response(500, &png).unwrap_err(), FetchError::Network);
    assert_eq!(image_from_response(200, b"xx").unwrap_err(), FetchError::DecodeError);
    assert_eq!(image_from_response(200, &png).unwrap().pixel(0, 0), RED);
}

#[test]
fn red_overlay_on_white_base_at_fifty() {
    let mut base = RasterImage::filled(800, 600, WHITE);
    let top = RasterImage::filled(100, 100, RED);
    let layout = Layout::standard();
    place_overlay(&mut base, &top, layout.overlay_x, layout.overlay_y);
    assert_eq!((base.width, base.height), (800, 600));
    for y in 0..600u32 {
        for x in 0..800u32 {
            let inside = (50..150).contains(&x) && (50..150).contains(&y);
            assert_eq!(base.pixel(x, y), if inside { RED } else { WHITE }, "at ({x}, {y})");
        }
    }
}

#[test]
fn overlay_is_clipped_at_the_edge() {
    let mut base = RasterImage::filled(60, 70, WHITE);
    let top = RasterImage::filled(100, 100, RED);
    place_overlay(&mut base, &top, 50, 50);
    assert_eq!(base.pixel(59, 69), RED);
    assert_eq!(base.pixel(49, 69), WHITE);
    assert_eq!(base.pixel(59, 49), WHITE);
    assert_eq!(base.pixels.len(), 60 * 70 * 4);
}

#[test]
fn transparent_overlay_leaves_base() {
    let mut base = RasterImage::filled(10, 10, [9, 8, 7, 255]);
    let top = RasterImage::filled(4, 4, [200, 0, 0, 0]);
    place_overlay(&mut base, &top, 2, 2);
    assert_eq!(base.pixel(3, 3), [9, 8, 7, 255]);
}

#[test]
fn half_transparent_overlay_blends() {
    let mut base = RasterImage::filled(4, 4, [0, 0, 255, 255]);
    let top = RasterImage::filled(2, 2, [255, 0, 0, 128]);
    place_overlay(&mut base, &top, 1, 1);
    let p = base.pixel(1, 1);
    assert!(p[0] > 100 && p[0] < 160, "{p:?}");
    assert!(p[2] > 100 && p[2] < 160, "{p:?}");
    assert!(p[3] >= 254, "{p:?}");
    assert_eq!(base.pixel(0, 0), [0, 0, 255, 255]);
}

#[test]
fn unreadable_font_is_font_unavailable() {
    assert_eq!(Typeface::from_bytes(vec![1, 2, 3]).err(), Some(CompositeError::FontUnavailable));
    let base = RasterImage::filled(200, 200, WHITE);
    let top = RasterImage::filled(10, 10, RED);
    assert_eq!(
        compose_standard(base, &top, Vec::new(), "2024-01-15 - Test").err(),
        Some(CompositeError::FontUnavailable)
    );
}

#[test]
fn standard_layout_values() {
    let l = Layout::standard();
    assert_eq!((l.overlay_x, l.overlay_y, l.text_x, l.text_y), (50, 50, 50, 100));
    assert_eq!(l.text_scale, 20);
    assert_eq!(l.text_color, [0, 0, 0, 255]);
}

#[test]
fn standard_layout_fits_short_captions_only() {
    let l = Layout::standard();
    assert!(l.fits("2024-01-15 - Some Text Here - Lorem ipsum?"));
    assert!(l.fits(&"x".repeat(201)));
    assert!(!l.fits(&"x".repeat(202)));
    assert!(!l.fits(&"x".repeat(10_000)));
    let far = Layout { text_x: 0x2000_0001, ..Layout::standard() };
    assert!(!far.fits("a"));
    let unscaled = Layout { text_scale: 0, ..Layout::standard() };
    assert!(unscaled.fits(&"x".repeat(10_000)));
}

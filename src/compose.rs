use vstd::prelude::*;
use vstd::string::*;
use crate::error::CompositeError;
use crate::raster::{blend_px, lemma_overlaid_pixel, overlaid, place_overlay, px, under_overlay, RasterImage};

verus! {

#[verifier::external_type_specification]
#[verifier::external_body]
pub struct ExFont<'a>(rusttype::Font<'a>);

/// Whether `rusttype` reads a usable font out of these bytes.
pub uninterp spec fn font_loads(data: Seq<u8>) -> bool;

/// Relies on `rusttype::Font::try_from_vec`: `None` for data that is not a
/// font, which depends on the bytes alone.
#[verifier::external_body]
fn load_font(data: &Vec<u8>) -> (r: Option<rusttype::Font<'static>>)
    ensures
        r is Some == font_loads(data@),
{
    rusttype::Font::try_from_vec(data.clone())
}

/// A font for the caption, together with the bytes it was read from.
pub struct Typeface {
    data: Vec<u8>,
    font: rusttype::Font<'static>,
}

impl View for Typeface {
    type V = Seq<u8>;

    /// The font file's bytes.
    closed spec fn view(&self) -> Seq<u8> {
        self.data@
    }
}

/// A font's ascender and descender, in font units.
pub uninterp spec fn font_vmetrics(data: Seq<u8>) -> (int, int);

/// Relies on `rusttype::Font::v_metrics_unscaled`: the font's ascender and
/// descender, each an `i16` of the font file.
#[verifier::external_body]
fn vertical_metrics(face: &Typeface) -> (r: (i32, i32))
    ensures
        r.0 == font_vmetrics(face@).0,
        r.1 == font_vmetrics(face@).1,
        -32768 <= r.0 <= 32767,
        -32768 <= r.1 <= 32767,
{
    let v = face.font.v_metrics_unscaled();
    (v.ascent as i32, v.descent as i32)
}

impl Typeface {
    /// The font gives a line a nonzero height, so glyphs scale by at most
    /// the requested pixel size.
    pub closed spec fn usable(&self) -> bool {
        font_vmetrics(self.data@).0 != font_vmetrics(self.data@).1
    }

    /// Reads a font out of the bytes of a font file; a font whose ascender
    /// equals its descender has no line height and is refused.
    pub fn from_bytes(data: Vec<u8>) -> (r: Result<Typeface, CompositeError>)
        ensures
            r is Ok <==> font_loads(data@) && font_vmetrics(data@).0 != font_vmetrics(data@).1,
            r matches Ok(t) ==> t@ == data@ && t.usable(),
            r matches Err(e) ==> e == CompositeError::FontUnavailable,
    {
        match load_font(&data) {
            Some(font) => {
                let face = Typeface { data, font };
                let (ascent, descent) = vertical_metrics(&face);
                if ascent != descent {
                    Ok(face)
                } else {
                    Err(CompositeError::FontUnavailable)
                }
            },
            None => Err(CompositeError::FontUnavailable),
        }
    }
}

/// Where and how the overlay and the caption are drawn.
#[derive(Debug, Clone, Copy)]
pub struct Layout {
    /// Column of the overlay's top-left corner in the base image.
    pub overlay_x: i64,
    /// Row of the overlay's top-left corner in the base image.
    pub overlay_y: i64,
    /// Column where the caption starts.
    pub text_x: i32,
    /// Row of the top of the caption's line.
    pub text_y: i32,
    /// Glyph scale in pixels, the same on both axes.
    pub text_scale: u16,
    /// Caption colour: red, green, blue, alpha.
    pub text_color: [u8; 4],
}

impl Layout {
    /// The standard layout's values.
    pub open spec fn standard_spec() -> Layout {
        Layout {
            overlay_x: 50,
            overlay_y: 50,
            text_x: 50,
            text_y: 100,
            text_scale: 20,
            text_color: [0u8, 0u8, 0u8, 255u8],
        }
    }

    /// The usual placement: overlay at (50, 50), caption at (50, 100) in
    /// opaque black at scale 20.
    pub fn standard() -> (r: Layout)
        ensures
            r.overlay_x == 50,
            r.overlay_y == 50,
            r.text_x == 50,
            r.text_y == 100,
            r.text_scale == 20,
            r.text_color@ == seq![0u8, 0u8, 0u8, 255u8],
            r == Layout::standard_spec(),
    {
        let r = Layout {
            overlay_x: 50,
            overlay_y: 50,
            text_x: 50,
            text_y: 100,
            text_scale: 20,
            text_color: [0u8, 0u8, 0u8, 255u8],
        };
        assert(r.text_color@ =~= seq![0u8, 0u8, 0u8, 255u8]);
        r
    }

    /// Whether a caption of `text_len` bytes can be laid out at this
    /// layout's origin and scale with every glyph coordinate well inside
    /// the `i32` range.
    pub open spec fn caption_fits(&self, text_len: nat) -> bool {
        &&& -0x2000_0000 <= self.text_x <= 0x2000_0000
        &&& -0x2000_0000 <= self.text_y <= 0x2000_0000
        &&& (text_len + 3) * 0x2_0000 * self.text_scale <= 0x2000_0000
    }

    /// Tests `caption_fits` for `text`.
    pub fn fits(&self, text: &str) -> (r: bool)
        ensures
            r == self.caption_fits(text.spec_bytes().len()),
    {
        let n = text.as_bytes().len();
        if n > 4096 {
            proof {
                assert((text.spec_bytes().len() + 3) * 0x2_0000 * self.text_scale > 0x2000_0000
                    || self.text_scale == 0) by (nonlinear_arith)
                    requires
                        text.spec_bytes().len() > 4096,
                ;
            }
            return self.text_scale == 0 && -0x2000_0000 <= self.text_x && self.text_x
                <= 0x2000_0000 && -0x2000_0000 <= self.text_y && self.text_y <= 0x2000_0000;
        }
        let scale = self.text_scale as u64;
        proof {
            assert((n + 3) * 0x2_0000 * scale <= 4099 * 0x2_0000 * 65535) by (nonlinear_arith)
                requires
                    n <= 4096,
                    scale <= 65535,
            ;
        }
        let need: u64 = (n as u64 + 3) * 0x2_0000 * scale;
        assert(n == text.spec_bytes().len());
        assert(need == (text.spec_bytes().len() + 3) * 0x2_0000 * self.text_scale);
        -0x2000_0000 <= self.text_x && self.text_x <= 0x2000_0000 && -0x2000_0000 <= self.text_y
            && self.text_y <= 0x2000_0000 && need <= 0x2000_0000
    }
}

/// The smallest box, relative to the text origin, holding the pixel box of
/// every glyph that `imageproc` lays out for `text` with the font in
/// `font` at `scale`, as (left, top, right, bottom), right and bottom
/// exclusive.
pub uninterp spec fn text_box(font: Seq<u8>, scale: u16, text: Seq<char>) -> (int, int, int, int);

/// Whether pixel `(i, j)` lies in the text box placed at `(x, y)`.
pub open spec fn in_box(b: (int, int, int, int), x: int, y: int, i: int, j: int) -> bool {
    x + b.0 <= i < x + b.2 && y + b.1 <= j < y + b.3
}

/// The pixels of a `width` by `height` RGBA image after `imageproc` draws
/// `text` on it with the font in `font`.
pub uninterp spec fn text_drawn(
    pixels: Seq<u8>,
    width: u32,
    height: u32,
    font: Seq<u8>,
    x: i32,
    y: i32,
    scale: u16,
    color: Seq<u8>,
    text: Seq<char>,
) -> Seq<u8>;

/// Relies on `imageproc::drawing::draw_text_mut`: the glyphs of `text`, laid
/// out from `(x, y)` at `scale` pixels, are blended in `color` into the
/// pixels of their boxes, and no other pixel is written; the image keeps its
/// size, and the result depends on the arguments alone. Glyph coordinates
/// are summed in `i32`: a glyph scales by at most `scale` pixels per font
/// unit where ascender and descender differ, and font units are `i16` or
/// `u16`, so the bounds on `x`, `y` and the text's length keep every sum in
/// range (a character takes at least one byte). A pixel's new channel is
/// `old * (1 - v) + color * v`, clamped, for a coverage `v >= 0`, so a
/// colour channel of 0 never raises that channel.
#[verifier::external_body]
fn draw_text_rgba(
    canvas: &mut RasterImage,
    face: &Typeface,
    x: i32,
    y: i32,
    scale: u16,
    color: [u8; 4],
    text: &str,
)
    requires
        old(canvas).wf(),
        font_vmetrics(face@).0 != font_vmetrics(face@).1,
        -0x2000_0000 <= x <= 0x2000_0000,
        -0x2000_0000 <= y <= 0x2000_0000,
        (text.spec_bytes().len() + 3) * 0x2_0000 * scale <= 0x2000_0000,
    ensures
        final(canvas).width == old(canvas).width,
        final(canvas).height == old(canvas).height,
        final(canvas).wf(),
        forall|i: int, j: int|
            0 <= i < old(canvas).width && 0 <= j < old(canvas).height && !in_box(
                text_box(face@, scale, text@),
                x as int,
                y as int,
                i,
                j,
            ) ==> #[trigger] px(final(canvas).pixels@, old(canvas).width as int, i, j) == px(
                old(canvas).pixels@,
                old(canvas).width as int,
                i,
                j,
            ),
        forall|i: int, j: int, c: int|
            0 <= i < old(canvas).width && 0 <= j < old(canvas).height && 0 <= c < 3
                && color@[c] == 0 ==> #[trigger] px(final(canvas).pixels@, old(canvas).width as int, i, j)[c]
                <= px(old(canvas).pixels@, old(canvas).width as int, i, j)[c],
        final(canvas).pixels@ == text_drawn(
            old(canvas).pixels@,
            old(canvas).width,
            old(canvas).height,
            face@,
            x,
            y,
            scale,
            color@,
            text@,
        ),
{
    let pixels = std::mem::take(&mut canvas.pixels);
    let mut img = image::RgbaImage::from_raw(canvas.width, canvas.height, pixels).unwrap();
    let size = rusttype::Scale::uniform(scale.into());
    imageproc::drawing::draw_text_mut(&mut img, image::Rgba(color), x, y, size, &face.font, text);
    canvas.pixels = img.into_raw();
}

/// Draws `text` on `canvas` as `layout` says.
pub fn draw_caption(canvas: &mut RasterImage, face: &Typeface, layout: &Layout, text: &str)
    requires
        old(canvas).wf(),
        face.usable(),
        layout.caption_fits(text.spec_bytes().len()),
    ensures
        final(canvas).wf(),
        final(canvas).width == old(canvas).width,
        final(canvas).height == old(canvas).height,
        forall|i: int, j: int|
            0 <= i < old(canvas).width && 0 <= j < old(canvas).height && !in_box(
                text_box(face@, layout.text_scale, text@),
                layout.text_x as int,
                layout.text_y as int,
                i,
                j,
            ) ==> #[trigger] final(canvas).spec_pixel(i, j) == old(canvas).spec_pixel(i, j),
        forall|i: int, j: int, c: int|
            0 <= i < old(canvas).width && 0 <= j < old(canvas).height && 0 <= c < 3
                && layout.text_color@[c] == 0 ==> #[trigger] final(canvas).spec_pixel(i, j)[c]
                <= old(canvas).spec_pixel(i, j)[c],
        final(canvas).pixels@ == text_drawn(
            old(canvas).pixels@,
            old(canvas).width,
            old(canvas).height,
            face@,
            layout.text_x,
            layout.text_y,
            layout.text_scale,
            layout.text_color@,
            text@,
        ),
{
    proof {
        reveal(Typeface::usable);
    }
    draw_text_rgba(
        canvas,
        face,
        layout.text_x,
        layout.text_y,
        layout.text_scale,
        layout.text_color,
        text,
    );
}

/// The pixels of `base` with `top` placed and `caption` drawn as `layout`
/// says.
pub open spec fn composed(
    base: RasterImage,
    top: RasterImage,
    font: Seq<u8>,
    layout: Layout,
    caption: Seq<char>,
) -> Seq<u8> {
    text_drawn(
        overlaid(base, top, layout.overlay_x as int, layout.overlay_y as int),
        base.width,
        base.height,
        font,
        layout.text_x,
        layout.text_y,
        layout.text_scale,
        layout.text_color@,
        caption,
    )
}

/// Places `top` on `base` and then draws `caption` over the result.
///
/// Outside the caption's text box every pixel is as placing the overlay
/// leaves it: under the overlay's footprint the overlay pixel blended over
/// the base pixel, elsewhere the base pixel unchanged.
pub fn compose(
    base: RasterImage,
    top: &RasterImage,
    face: &Typeface,
    layout: &Layout,
    caption: &str,
) -> (r: RasterImage)
    requires
        base.wf(),
        top.wf(),
        face.usable(),
        layout.caption_fits(caption.spec_bytes().len()),
    ensures
        r.wf(),
        r.width == base.width,
        r.height == base.height,
        r.pixels@ == composed(base, *top, face@, *layout, caption@),
        forall|i: int, j: int, c: int|
            0 <= i < base.width && 0 <= j < base.height && 0 <= c < 4 && !in_box(
                text_box(face@, layout.text_scale, caption@),
                layout.text_x as int,
                layout.text_y as int,
                i,
                j,
            ) && under_overlay(
                base.width as int,
                base.height as int,
                top.width as int,
                top.height as int,
                layout.overlay_x as int,
                layout.overlay_y as int,
                i,
                j,
            ) ==> #[trigger] r.spec_pixel(i, j)[c] == blend_px(
                base.spec_pixel(i, j),
                top.spec_pixel(i - layout.overlay_x, j - layout.overlay_y),
            )[c],
        forall|i: int, j: int|
            0 <= i < base.width && 0 <= j < base.height && !in_box(
                text_box(face@, layout.text_scale, caption@),
                layout.text_x as int,
                layout.text_y as int,
                i,
                j,
            ) && !under_overlay(
                base.width as int,
                base.height as int,
                top.width as int,
                top.height as int,
                layout.overlay_x as int,
                layout.overlay_y as int,
                i,
                j,
            ) ==> #[trigger] r.spec_pixel(i, j) == base.spec_pixel(i, j),
        forall|i: int, j: int, c: int|
            0 <= i < base.width && 0 <= j < base.height && 0 <= c < 3 && layout.text_color@[c] == 0
                && !under_overlay(
                base.width as int,
                base.height as int,
                top.width as int,
                top.height as int,
                layout.overlay_x as int,
                layout.overlay_y as int,
                i,
                j,
            ) ==> #[trigger] r.spec_pixel(i, j)[c] <= base.spec_pixel(i, j)[c],
{
    let mut out = base;
    place_overlay(&mut out, top, layout.overlay_x, layout.overlay_y);
    let ghost placed = out;
    draw_caption(&mut out, face, layout, caption);
    proof {
        let (ox, oy) = (layout.overlay_x as int, layout.overlay_y as int);
        assert forall|i: int, j: int|
            0 <= i < base.width && 0 <= j < base.height && !in_box(
                text_box(face@, layout.text_scale, caption@),
                layout.text_x as int,
                layout.text_y as int,
                i,
                j,
            ) implies out.spec_pixel(i, j) == px(overlaid(base, *top, ox, oy), base.width as int, i, j)
            && (under_overlay(
                base.width as int,
                base.height as int,
                top.width as int,
                top.height as int,
                ox,
                oy,
                i,
                j,
            ) ==> forall|c: int|
                0 <= c < 4 ==> #[trigger] out.spec_pixel(i, j)[c] == blend_px(
                    base.spec_pixel(i, j),
                    top.spec_pixel(i - ox, j - oy),
                )[c]) && (!under_overlay(
                base.width as int,
                base.height as int,
                top.width as int,
                top.height as int,
                ox,
                oy,
                i,
                j,
            ) ==> out.spec_pixel(i, j) == base.spec_pixel(i, j)) by {
            assert(out.spec_pixel(i, j) == placed.spec_pixel(i, j));
            lemma_overlaid_pixel(base, *top, ox, oy, i, j);
        }
        assert forall|i: int, j: int, c: int|
            0 <= i < base.width && 0 <= j < base.height && 0 <= c < 3 && layout.text_color@[c] == 0
                && !under_overlay(
                base.width as int,
                base.height as int,
                top.width as int,
                top.height as int,
                ox,
                oy,
                i,
                j,
            ) implies #[trigger] out.spec_pixel(i, j)[c] <= base.spec_pixel(i, j)[c] by {
            assert(out.spec_pixel(i, j)[c] <= placed.spec_pixel(i, j)[c]);
            lemma_overlaid_pixel(base, *top, ox, oy, i, j);
        }
    }
    out
}

/// Reads the font out of `font_data` and composes with the standard layout;
/// fails only where the font cannot be used.
pub fn compose_standard(
    base: RasterImage,
    top: &RasterImage,
    font_data: Vec<u8>,
    caption: &str,
) -> (r: Result<RasterImage, CompositeError>)
    requires
        base.wf(),
        top.wf(),
        Layout::standard_spec().caption_fits(caption.spec_bytes().len()),
    ensures
        r is Err <==> !(font_loads(font_data@) && font_vmetrics(font_data@).0 != font_vmetrics(
            font_data@,
        ).1),
        r matches Err(e) ==> e == CompositeError::FontUnavailable,
        r matches Ok(img) ==> img.wf() && img.width == base.width && img.height == base.height
            && img.pixels@ == composed(base, *top, font_data@, Layout::standard_spec(), caption@),
{
    let face = Typeface::from_bytes(font_data)?;
    let layout = Layout::standard();
    Ok(compose(base, top, &face, &layout, caption))
}

/// Compositing is deterministic: inputs with the same sizes, pixels, font
/// bytes, layout and caption give the same output pixels.
pub proof fn lemma_compose_deterministic(
    base1: RasterImage,
    base2: RasterImage,
    top1: RasterImage,
    top2: RasterImage,
    font: Seq<u8>,
    layout: Layout,
    caption: Seq<char>,
)
    requires
        base1.width == base2.width,
        base1.height == base2.height,
        base1.pixels@ == base2.pixels@,
        top1.width == top2.width,
        top1.height == top2.height,
        top1.pixels@ == top2.pixels@,
    ensures
        composed(base1, top1, font, layout, caption) == composed(base2, top2, font, layout, caption),
{
    assert(overlaid(base1, top1, layout.overlay_x as int, layout.overlay_y as int) =~= overlaid(
        base2,
        top2,
        layout.overlay_x as int,
        layout.overlay_y as int,
    ));
}

} // verus!

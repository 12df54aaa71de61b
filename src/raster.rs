use vstd::prelude::*;
use crate::error::FetchError;
use vstd::arithmetic::div_mod::lemma_fundamental_div_mod_converse;

verus! {

/// A decoded bitmap: `width * height` pixels, row by row, four bytes
/// (red, green, blue, alpha) each.
#[derive(Debug, Clone)]
pub struct RasterImage {
    pub width: u32,
    pub height: u32,
    pub pixels: Vec<u8>,
}

/// The four bytes of pixel `(x, y)` of a row-major RGBA buffer.
pub open spec fn px(pixels: Seq<u8>, width: int, x: int, y: int) -> Seq<u8> {
    pixels.subrange(4 * (y * width + x), 4 * (y * width + x) + 4)
}

/// Four bytes a pixel: `4 * w * h` is four times the area.
pub proof fn lemma_area(w: int, h: int)
    requires
        0 <= w,
        0 <= h,
    ensures
        4 * w * h == 4 * (w * h),
        0 <= w * h <= 4 * w * h,
{
    assert(4 * w * h == 4 * (w * h)) by (nonlinear_arith);
    assert(0 <= w * h) by (nonlinear_arith)
        requires
            0 <= w,
            0 <= h,
    ;
}

/// The bytes of pixel `(x, y)` lie inside a `w` by `h` buffer.
pub proof fn lemma_pixel_index(w: int, h: int, x: int, y: int)
    requires
        0 <= x < w,
        0 <= y < h,
    ensures
        0 <= y * w + x,
        4 * (y * w + x) + 4 <= 4 * w * h,
{
    assert(0 <= y * w) by (nonlinear_arith)
        requires
            0 <= y,
            0 <= w,
    ;
    assert(y * w + x + 1 <= w * h) by (nonlinear_arith)
        requires
            0 <= x < w,
            0 <= y < h,
    ;
    lemma_area(w, h);
}

impl RasterImage {
    pub open spec fn wf(&self) -> bool {
        self.pixels@.len() == 4 * self.width * self.height
    }

    /// The four bytes of pixel `(x, y)`.
    pub open spec fn spec_pixel(&self, x: int, y: int) -> Seq<u8> {
        px(self.pixels@, self.width as int, x, y)
    }

    /// An image of the given size with every pixel `color`.
    pub fn filled(width: u32, height: u32, color: [u8; 4]) -> (r: RasterImage)
        requires
            4 * width * height <= usize::MAX,
        ensures
            r.wf(),
            r.width == width,
            r.height == height,
            forall|k: int| 0 <= k < r.pixels@.len() ==> #[trigger] r.pixels@[k] == color@[k % 4],
    {
        proof {
            lemma_area(width as int, height as int);
        }
        let n: usize = width as usize * height as usize;
        let mut pixels: Vec<u8> = Vec::new();
        let mut i: usize = 0;
        while i < n
            invariant
                n == width * height,
                4 * n <= usize::MAX,
                i <= n,
                pixels@.len() == 4 * i,
                forall|k: int| 0 <= k < pixels@.len() ==> #[trigger] pixels@[k] == color@[k % 4],
            decreases n - i,
        {
            pixels.push(color[0]);
            pixels.push(color[1]);
            pixels.push(color[2]);
            pixels.push(color[3]);
            i = i + 1;
        }
        RasterImage { width, height, pixels }
    }

    /// Pixel `(x, y)` as red, green, blue, alpha.
    pub fn pixel(&self, x: u32, y: u32) -> (r: [u8; 4])
        requires
            self.wf(),
            x < self.width,
            y < self.height,
        ensures
            r@ == self.spec_pixel(x as int, y as int),
    {
        let w = self.width as usize;
        let len = self.pixels.len();
        proof {
            lemma_pixel_index(self.width as int, self.height as int, x as int, y as int);
        }
        let base = 4 * (y as usize * w + x as usize);
        let r = [self.pixels[base], self.pixels[base + 1], self.pixels[base + 2], self.pixels[
            base + 3]];
        assert(r@ =~= self.spec_pixel(x as int, y as int)) by {
            assert(base == 4 * (y * self.width + x));
        }
        r
    }
}

/// What `image` decodes from a byte buffer, as RGBA, or `None` where the
/// format is not recognised or the data is broken.
pub uninterp spec fn decoded_image(bytes: Seq<u8>) -> Option<RasterImage>;

/// Relies on `image::load_from_memory`: the format is guessed from the
/// content, and the outcome depends on the bytes alone.
#[verifier::external_body]
fn load_rgba(bytes: &[u8]) -> (r: Option<RasterImage>)
    ensures
        r == decoded_image(bytes@),
{
    let rgba = image::load_from_memory(bytes).ok()?.to_rgba8();
    Some(RasterImage { width: rgba.width(), height: rgba.height(), pixels: rgba.into_raw() })
}

/// What decoding a byte buffer gives.
pub open spec fn spec_decode(bytes: Seq<u8>) -> Result<RasterImage, FetchError> {
    match decoded_image(bytes) {
        Some(img) => if img.wf() {
            Ok(img)
        } else {
            Err(FetchError::DecodeError)
        },
        None => Err(FetchError::DecodeError),
    }
}

/// Decodes fetched bytes into a raster image, the format detected from the
/// content.
pub fn decode_image(bytes: &[u8]) -> (r: Result<RasterImage, FetchError>)
    ensures
        r == spec_decode(bytes@),
        r matches Ok(img) ==> img.wf(),
{
    match load_rgba(bytes) {
        Some(img) => {
            proof {
                lemma_area(img.width as int, img.height as int);
                assert(img.width * img.height <= 0xffff_ffff_ffff_ffff) by (nonlinear_arith)
                    requires
                        img.width <= 0xffff_ffff,
                        img.height <= 0xffff_ffff,
                ;
            }
            let need: u128 = img.width as u128 * img.height as u128 * 4;
            if img.pixels.len() as u128 == need {
                Ok(img)
            } else {
                Err(FetchError::DecodeError)
            }
        },
        None => Err(FetchError::DecodeError),
    }
}

/// The image that a download yields: a status outside 200 to 299 is a
/// network failure, otherwise the body is decoded.
pub fn image_from_response(status: u16, body: &[u8]) -> (r: Result<RasterImage, FetchError>)
    ensures
        !(200 <= status <= 299) ==> r == Err::<RasterImage, FetchError>(FetchError::Network),
        200 <= status <= 299 ==> r == spec_decode(body@),
        r matches Ok(img) ==> img.wf(),
{
    if status < 200 || status > 299 {
        Err(FetchError::Network)
    } else {
        decode_image(body)
    }
}

/// Whether base pixel `(i, j)` lies under a `tw` by `th` image placed with
/// its corner at `(ox, oy)`, inside a `bw` by `bh` base.
pub open spec fn under_overlay(
    bw: int,
    bh: int,
    tw: int,
    th: int,
    ox: int,
    oy: int,
    i: int,
    j: int,
) -> bool {
    0 <= i < bw && 0 <= j < bh && ox <= i < ox + tw && oy <= j < oy + th
}

/// What `image` makes of an RGBA pixel `bottom` with `top` blended over it,
/// where `top` is neither fully transparent nor fully opaque.
pub uninterp spec fn blended(bottom: Seq<u8>, top: Seq<u8>) -> Seq<u8>;

/// `top` over `bottom`: a transparent pixel leaves `bottom`, an opaque one
/// replaces it, any other is blended.
pub open spec fn blend_px(bottom: Seq<u8>, top: Seq<u8>) -> Seq<u8> {
    if top[3] == 0 {
        bottom
    } else if top[3] == 255 {
        top
    } else {
        blended(bottom, top)
    }
}

/// The pixels of `base` with `top` blended over it at `(ox, oy)`, clipped to
/// `base`.
pub open spec fn overlaid(base: RasterImage, top: RasterImage, ox: int, oy: int) -> Seq<u8> {
    let w = base.width as int;
    Seq::new(
        base.pixels@.len(),
        |k: int|
            {
                let i = (k / 4) % w;
                let j = (k / 4) / w;
                if under_overlay(w, base.height as int, top.width as int, top.height as int, ox, oy, i, j) {
                    blend_px(px(base.pixels@, w, i, j), px(top.pixels@, top.width as int, i - ox, j - oy))[k % 4]
                } else {
                    base.pixels@[k]
                }
            },
    )
}

/// Relies on `image::imageops::overlay`: every pixel of `top` that falls
/// inside `base` is blended over the base pixel under it with `Rgba::blend`,
/// the rest of `base` is left as it was.
#[verifier::external_body]
fn overlay_rgba(base: &mut RasterImage, top: &RasterImage, x: i64, y: i64)
    requires
        old(base).wf(),
        top.wf(),
    ensures
        final(base).width == old(base).width,
        final(base).height == old(base).height,
        final(base).pixels@ == overlaid(*old(base), *top, x as int, y as int),
        forall|i: int, j: int|
            under_overlay(
                old(base).width as int,
                old(base).height as int,
                top.width as int,
                top.height as int,
                x as int,
                y as int,
                i,
                j,
            ) && 0 < top.spec_pixel(i - x, j - y)[3] < 255 ==> #[trigger] final(base).spec_pixel(i, j)
                == blended(old(base).spec_pixel(i, j), top.spec_pixel(i - x, j - y)),
{
    let pixels = std::mem::take(&mut base.pixels);
    let mut bottom = image::RgbaImage::from_raw(base.width, base.height, pixels).unwrap();
    let upper = image::ImageBuffer::<image::Rgba<u8>, &[u8]>::from_raw(
        top.width,
        top.height,
        top.pixels.as_slice(),
    ).unwrap();
    image::imageops::overlay(&mut bottom, &upper, x, y);
    base.pixels = bottom.into_raw();
}

/// Blends `top` over `base` with its top-left corner at `(x, y)` of `base`;
/// the parts of `top` outside `base` are clipped.
pub fn place_overlay(base: &mut RasterImage, top: &RasterImage, x: i64, y: i64)
    requires
        old(base).wf(),
        top.wf(),
    ensures
        final(base).wf(),
        final(base).width == old(base).width,
        final(base).height == old(base).height,
        final(base).pixels@ == overlaid(*old(base), *top, x as int, y as int),
{
    overlay_rgba(base, top, x, y);
}

/// Pixel `(i, j)` of an overlaid image: `top` blended over the base pixel
/// where `top` covers it, the base pixel elsewhere.
pub proof fn lemma_overlaid_pixel(base: RasterImage, top: RasterImage, ox: int, oy: int, i: int, j: int)
    requires
        base.wf(),
        top.wf(),
        0 <= i < base.width,
        0 <= j < base.height,
    ensures
        ({
            let out = px(overlaid(base, top, ox, oy), base.width as int, i, j);
            let b = base.spec_pixel(i, j);
            let t = top.spec_pixel(i - ox, j - oy);
            &&& out.len() == 4
            &&& under_overlay(
                base.width as int,
                base.height as int,
                top.width as int,
                top.height as int,
                ox,
                oy,
                i,
                j,
            ) ==> (forall|c: int| 0 <= c < 4 ==> #[trigger] out[c] == blend_px(b, t)[c])
            &&& !under_overlay(
                base.width as int,
                base.height as int,
                top.width as int,
                top.height as int,
                ox,
                oy,
                i,
                j,
            ) ==> out == b
        }),
{
    let w = base.width as int;
    let p = j * w + i;
    lemma_pixel_index(w, base.height as int, i, j);
    lemma_fundamental_div_mod_converse(p, w, j, i);
    lemma_fundamental_div_mod_converse(4 * p, 4, p, 0);
    lemma_fundamental_div_mod_converse(4 * p + 1, 4, p, 1);
    lemma_fundamental_div_mod_converse(4 * p + 2, 4, p, 2);
    lemma_fundamental_div_mod_converse(4 * p + 3, 4, p, 3);
    let out = px(overlaid(base, top, ox, oy), w, i, j);
    if !under_overlay(w, base.height as int, top.width as int, top.height as int, ox, oy, i, j) {
        assert(out =~= base.spec_pixel(i, j));
    }
}

/// Placing `top` with its corner at `(x, y)` inside `base`: each pixel of
/// `top` lands at its offset position, blended over the base pixel there
/// (an opaque one replaces it, a transparent one leaves it), and every base
/// pixel outside the footprint keeps its value.
pub proof fn lemma_overlay_placement(base: RasterImage, top: RasterImage, x: int, y: int)
    requires
        base.wf(),
        top.wf(),
        0 <= x,
        0 <= y,
        x + top.width <= base.width,
        y + top.height <= base.height,
    ensures
        forall|a: int, b: int|
            0 <= a < top.width && 0 <= b < top.height ==> {
                let out = px(overlaid(base, top, x, y), base.width as int, x + a, y + b);
                let under = base.spec_pixel(x + a, y + b);
                &&& forall|c: int|
                    0 <= c < 4 ==> #[trigger] out[c] == blend_px(under, top.spec_pixel(a, b))[c]
                &&& #[trigger] top.spec_pixel(a, b)[3] == 255 ==> out == top.spec_pixel(a, b)
                &&& top.spec_pixel(a, b)[3] == 0 ==> out == under
            },
        forall|i: int, j: int|
            0 <= i < base.width && 0 <= j < base.height && !(x <= i < x + top.width && y <= j
                < y + top.height) ==> #[trigger] px(overlaid(base, top, x, y), base.width as int, i, j)
                == base.spec_pixel(i, j),
{
    assert forall|a: int, b: int| 0 <= a < top.width && 0 <= b < top.height implies {
        let out = px(overlaid(base, top, x, y), base.width as int, x + a, y + b);
        let under = base.spec_pixel(x + a, y + b);
        &&& forall|c: int|
            0 <= c < 4 ==> #[trigger] out[c] == blend_px(under, top.spec_pixel(a, b))[c]
        &&& #[trigger] top.spec_pixel(a, b)[3] == 255 ==> out == top.spec_pixel(a, b)
        &&& top.spec_pixel(a, b)[3] == 0 ==> out == under
    } by {
        lemma_overlaid_pixel(base, top, x, y, x + a, y + b);
        let out = px(overlaid(base, top, x, y), base.width as int, x + a, y + b);
        let t = top.spec_pixel(a, b);
        assert((x + a) - x == a && (y + b) - y == b);
        lemma_pixel_index(top.width as int, top.height as int, a, b);
        assert(t.len() == 4);
        lemma_pixel_index(base.width as int, base.height as int, x + a, y + b);
        assert(base.spec_pixel(x + a, y + b).len() == 4);
        if t[3] == 255 {
            assert(out =~= t);
        }
        if t[3] == 0 {
            assert(out =~= base.spec_pixel(x + a, y + b));
        }
    }
    assert forall|i: int, j: int|
        0 <= i < base.width && 0 <= j < base.height && !(x <= i < x + top.width && y <= j < y
            + top.height) implies #[trigger] px(overlaid(base, top, x, y), base.width as int, i, j)
        == base.spec_pixel(i, j) by {
        lemma_overlaid_pixel(base, top, x, y, i, j);
    }
}

} // verus!

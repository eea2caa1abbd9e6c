//! An owned RGBA pixel buffer and the per-pixel operations of the editor.
//!
//! A `Canvas` is the committed image the editor works on, and also the
//! transient overlay a drawing gesture renders into. Blending composites an
//! overlay onto a base with the standard integer "over" rule
//! `out = (base * (255 - alpha) + overlay * alpha) / 255` per channel.
//! Cropping and the aspect-preserving resize of the crop tool live here too;
//! only the resampling filter itself is an outside call.

use vstd::prelude::*;

verus! {

/// Largest canvas dimension the library works with; keeps every pixel index
/// and byte length inside `usize` on any platform.
pub const MAX_DIM: u32 = 32768;

/// One RGBA pixel.
#[derive(Clone, Copy, PartialEq, Eq, Structural, Debug)]
pub struct Rgba {
    pub r: u8,
    pub g: u8,
    pub b: u8,
    pub a: u8,
}

impl Rgba {
    /// The fully transparent pixel a fresh overlay is filled with.
    pub fn transparent() -> (c: Rgba)
        ensures
            c == (Rgba { r: 0, g: 0, b: 0, a: 0 }),
    {
        Rgba { r: 0, g: 0, b: 0, a: 0 }
    }
}

/// One channel of the "over" rule at overlay opacity `a`.
pub open spec fn blend_channel(b: u8, o: u8, a: u8) -> u8 {
    (((b as int) * (255 - a as int) + (o as int) * (a as int)) / 255) as u8
}

/// A whole pixel composited by the "over" rule, alpha channel included.
pub open spec fn blend_pixel(base: Rgba, over: Rgba) -> Rgba {
    Rgba {
        r: blend_channel(base.r, over.r, over.a),
        g: blend_channel(base.g, over.g, over.a),
        b: blend_channel(base.b, over.b, over.a),
        a: blend_channel(base.a, over.a, over.a),
    }
}

proof fn lemma_blend_channel_bound(b: u8, o: u8, a: u8)
    ensures
        0 <= (b as int) * (255 - a as int) + (o as int) * (a as int) <= 255 * 255,
{
    assert(0 <= (b as int) * (255 - a as int) + (o as int) * (a as int) <= 255 * 255)
        by (nonlinear_arith)
        requires
            0 <= b <= 255,
            0 <= o <= 255,
            0 <= a <= 255,
    ;
}

fn blend_channel_exec(b: u8, o: u8, a: u8) -> (r: u8)
    ensures
        r == blend_channel(b, o, a),
{
    proof {
        lemma_blend_channel_bound(b, o, a);
    }
    let v: u32 = (b as u32) * (255 - a as u32) + (o as u32) * (a as u32);
    (v / 255) as u8
}

/// A fully opaque overlay pixel replaces the base pixel outright.
pub proof fn lemma_blend_opaque(base: Rgba, over: Rgba)
    requires
        over.a == 255,
    ensures
        blend_pixel(base, over) == over,
{
    assert forall|b: u8, o: u8| blend_channel(b, o, 255) == o by {
        assert((b as int) * (255 - 255) + (o as int) * 255 == (o as int) * 255);
        assert((o as int) * 255 / 255 == o as int) by (nonlinear_arith);
    }
}

/// A fully transparent overlay pixel leaves the base pixel unchanged.
pub proof fn lemma_blend_transparent(base: Rgba, over: Rgba)
    requires
        over.a == 0,
    ensures
        blend_pixel(base, over) == base,
{
    assert forall|b: u8, o: u8| blend_channel(b, o, 0) == b by {
        assert((b as int) * (255 - 0) + (o as int) * 0 == (b as int) * 255);
        assert((b as int) * 255 / 255 == b as int) by (nonlinear_arith);
    }
}

/// A partially transparent overlay pixel over an opaque base stays
/// visibly a mix: the blended pixel differs from the base (its alpha
/// drops below full opacity) and, for overlay alphas up to 239, from the
/// overlay color as well (its alpha strictly grows). Overlay alphas of
/// 240 and above can round onto the overlay itself and are left out.
pub proof fn lemma_partial_alpha_visible(base: Rgba, over: Rgba)
    requires
        base.a == 255,
        0 < over.a < 240,
    ensures
        blend_pixel(base, over) != base,
        blend_pixel(base, over) != over,
{
    let a = over.a as int;
    let v = 255 * (255 - a) + a * a;
    assert(blend_pixel(base, over).a == (v / 255) as u8);
    assert(0 <= v < 255 * 255) by (nonlinear_arith)
        requires
            1 <= a <= 254,
            v == 255 * (255 - a) + a * a,
    ;
    assert(v / 255 < 255) by (nonlinear_arith)
        requires
            0 <= v < 255 * 255,
    ;
    assert(v >= 255 * a + 255) by (nonlinear_arith)
        requires
            1 <= a <= 239,
            v == 255 * (255 - a) + a * a,
    ;
    assert(v / 255 >= a + 1) by (nonlinear_arith)
        requires
            v >= 255 * a + 255,
            0 <= a,
    ;
    assert(blend_pixel(base, over).a != base.a);
    assert(blend_pixel(base, over).a != over.a);
}

/// Blending a fully opaque overlay yields exactly the overlay at every
/// pixel; blending a fully transparent one leaves the base untouched.
pub proof fn lemma_blend_extremes(base: Canvas, overlay: Canvas)
    requires
        base.wf(),
        overlay.wf(),
        base.width == overlay.width,
        base.height == overlay.height,
    ensures
        forall|i: int|
            0 <= i < overlay.pixels@.len() && (#[trigger] overlay.pixels@[i]).a == 255
                ==> blend_pixel(base.pixels@[i], overlay.pixels@[i]) == overlay.pixels@[i],
        forall|i: int|
            0 <= i < overlay.pixels@.len() && (#[trigger] overlay.pixels@[i]).a == 0
                ==> blend_pixel(base.pixels@[i], overlay.pixels@[i]) == base.pixels@[i],
{
    assert forall|i: int|
        0 <= i < overlay.pixels@.len() && (#[trigger] overlay.pixels@[i]).a == 255 implies
        blend_pixel(base.pixels@[i], overlay.pixels@[i]) == overlay.pixels@[i] by {
        lemma_blend_opaque(base.pixels@[i], overlay.pixels@[i]);
    }
    assert forall|i: int|
        0 <= i < overlay.pixels@.len() && (#[trigger] overlay.pixels@[i]).a == 0 implies
        blend_pixel(base.pixels@[i], overlay.pixels@[i]) == base.pixels@[i] by {
        lemma_blend_transparent(base.pixels@[i], overlay.pixels@[i]);
    }
}

/// An owned RGBA image, `width * height` pixels in row-major order.
pub struct Canvas {
    pub width: u32,
    pub height: u32,
    pub pixels: Vec<Rgba>,
}

impl Canvas {
    pub open spec fn wf(self) -> bool {
        &&& self.width <= MAX_DIM
        &&& self.height <= MAX_DIM
        &&& self.pixels@.len() == (self.width as int) * (self.height as int)
    }

    /// The pixel at column `x` of row `y`.
    pub open spec fn pix(self, x: int, y: int) -> Rgba {
        self.pixels@[y * (self.width as int) + x]
    }

    /// A canvas of the given size, fully transparent.
    pub fn new(width: u32, height: u32) -> (c: Canvas)
        requires
            width <= MAX_DIM,
            height <= MAX_DIM,
        ensures
            c.wf(),
            c.width == width,
            c.height == height,
            forall|i: int|
                0 <= i < c.pixels@.len() ==> c.pixels@[i] == (Rgba { r: 0, g: 0, b: 0, a: 0 }),
    {
        proof {
            lemma_dims_product(width as int, height as int);
            assert(4 * (width as int) * (height as int) == 4 * ((width as int) * (
            height as int))) by (nonlinear_arith);
        }
        let total: usize = (width as usize) * (height as usize);
        let mut pixels: Vec<Rgba> = Vec::new();
        let mut i: usize = 0;
        while i < total
            invariant
                i <= total,
                pixels@.len() == i,
                forall|j: int|
                    0 <= j < i ==> pixels@[j] == (Rgba { r: 0, g: 0, b: 0, a: 0 }),
            decreases total - i,
        {
            pixels.push(Rgba { r: 0, g: 0, b: 0, a: 0 });
            i = i + 1;
        }
        Canvas { width, height, pixels }
    }

    /// An exact copy that shares no buffer with the source canvas.
    pub fn duplicate(&self) -> (c: Canvas)
        requires
            self.wf(),
        ensures
            c.wf(),
            c.width == self.width,
            c.height == self.height,
            c.pixels@ == self.pixels@,
    {
        let mut pixels: Vec<Rgba> = Vec::new();
        let mut i: usize = 0;
        while i < self.pixels.len()
            invariant
                i <= self.pixels@.len(),
                pixels@.len() == i,
                forall|j: int| 0 <= j < i ==> pixels@[j] == self.pixels@[j],
            decreases self.pixels@.len() - i,
        {
            pixels.push(self.pixels[i]);
            i = i + 1;
        }
        proof {
            assert(pixels@ =~= self.pixels@);
        }
        Canvas { width: self.width, height: self.height, pixels }
    }

    pub fn get_pixel(&self, x: u32, y: u32) -> (c: Rgba)
        requires
            self.wf(),
            x < self.width,
            y < self.height,
        ensures
            c == self.pix(x as int, y as int),
    {
        proof {
            lemma_pixel_index(self.width as int, self.height as int, x as int, y as int);
            lemma_dims_product(self.width as int, self.height as int);
        }
        self.pixels[(y as usize) * (self.width as usize) + (x as usize)]
    }

    /// Overwrites one pixel, leaving every other pixel as it was.
    pub fn put_pixel(&mut self, x: u32, y: u32, c: Rgba)
        requires
            old(self).wf(),
            x < old(self).width,
            y < old(self).height,
        ensures
            final(self).wf(),
            final(self).width == old(self).width,
            final(self).height == old(self).height,
            final(self).pixels@ == old(self).pixels@.update(
                (y as int) * (old(self).width as int) + (x as int),
                c,
            ),
    {
        proof {
            lemma_pixel_index(self.width as int, self.height as int, x as int, y as int);
            lemma_dims_product(self.width as int, self.height as int);
        }
        let idx: usize = (y as usize) * (self.width as usize) + (x as usize);
        self.pixels.set(idx, c);
    }

    /// Composites `overlay` onto `base`, pixel by pixel, with the "over"
    /// rule; neither input is touched.
    pub fn blend(base: &Canvas, overlay: &Canvas) -> (out: Canvas)
        requires
            base.wf(),
            overlay.wf(),
            base.width == overlay.width,
            base.height == overlay.height,
        ensures
            out.wf(),
            out.width == base.width,
            out.height == base.height,
            forall|i: int|
                0 <= i < out.pixels@.len() ==> out.pixels@[i] == blend_pixel(
                    base.pixels@[i],
                    overlay.pixels@[i],
                ),
    {
        let mut pixels: Vec<Rgba> = Vec::new();
        let n: usize = base.pixels.len();
        let mut i: usize = 0;
        while i < n
            invariant
                i <= n,
                n == base.pixels@.len(),
                overlay.pixels@.len() == n,
                pixels@.len() == i,
                forall|j: int|
                    0 <= j < i ==> pixels@[j] == blend_pixel(base.pixels@[j], overlay.pixels@[j]),
            decreases n - i,
        {
            let b = base.pixels[i];
            let o = overlay.pixels[i];
            let p = Rgba {
                r: blend_channel_exec(b.r, o.r, o.a),
                g: blend_channel_exec(b.g, o.g, o.a),
                b: blend_channel_exec(b.b, o.b, o.a),
                a: blend_channel_exec(b.a, o.a, o.a),
            };
            pixels.push(p);
            i = i + 1;
        }
        Canvas { width: base.width, height: base.height, pixels }
    }

    /// The `w * h` sub-image whose top-left corner sits at `(x, y)`.
    pub fn crop(&self, x: u32, y: u32, w: u32, h: u32) -> (out: Canvas)
        requires
            self.wf(),
            x + w <= self.width,
            y + h <= self.height,
        ensures
            out.wf(),
            out.width == w,
            out.height == h,
            forall|i: int, j: int|
                0 <= i < w && 0 <= j < h ==> out.pix(i, j) == self.pix(x + i, y + j),
    {
        let mut pixels: Vec<Rgba> = Vec::new();
        let mut row: u32 = 0;
        while row < h
            invariant
                row <= h,
                self.wf(),
                x + w <= self.width,
                y + h <= self.height,
                pixels@.len() == (row as int) * (w as int),
                forall|t: int|
                    0 <= t < pixels@.len() ==> #[trigger] pixels@[t] == self.pix(
                        x + t % (w as int),
                        y + t / (w as int),
                    ),
            decreases h - row,
        {
            let mut col: u32 = 0;
            while col < w
                invariant
                    col <= w,
                    row < h,
                    self.wf(),
                    x + w <= self.width,
                    y + h <= self.height,
                    pixels@.len() == (row as int) * (w as int) + (col as int),
                    forall|t: int|
                        0 <= t < pixels@.len() ==> #[trigger] pixels@[t] == self.pix(
                            x + t % (w as int),
                            y + t / (w as int),
                        ),
                decreases w - col,
            {
                let p = self.get_pixel(x + col, y + row);
                pixels.push(p);
                proof {
                    vstd::arithmetic::div_mod::lemma_fundamental_div_mod_converse(
                        (row as int) * (w as int) + (col as int),
                        w as int,
                        row as int,
                        col as int,
                    );
                }
                col = col + 1;
            }
            proof {
                assert((row as int) * (w as int) + (w as int) == ((row as int) + 1) * (w as int))
                    by (nonlinear_arith);
            }
            row = row + 1;
        }
        let out = Canvas { width: w, height: h, pixels };
        proof {
            lemma_dims_product(w as int, h as int);
            assert forall|i: int, j: int| 0 <= i < w && 0 <= j < h implies out.pix(i, j)
                == self.pix(x + i, y + j) by {
                lemma_pixel_index(w as int, h as int, i, j);
                vstd::arithmetic::div_mod::lemma_fundamental_div_mod_converse(
                    j * (w as int) + i,
                    w as int,
                    j,
                    i,
                );
                assert(out.pix(i, j) == out.pixels@[j * (w as int) + i]);
            }
        }
        out
    }
}

/// A pixel position indexes into the row-major buffer.
pub proof fn lemma_pixel_index(w: int, h: int, x: int, y: int)
    requires
        0 <= x < w,
        0 <= y < h,
    ensures
        0 <= y * w + x < w * h,
        w * h == h * w,
{
    assert(0 <= y * w + x < w * h && w * h == h * w) by (nonlinear_arith)
        requires
            0 <= x < w,
            0 <= y < h,
    ;
}

/// The pixel count of a bounded canvas fits comfortably in `usize`.
pub proof fn lemma_dims_product(w: int, h: int)
    requires
        0 <= w <= MAX_DIM,
        0 <= h <= MAX_DIM,
    ensures
        0 <= w * h <= 0x4000_0000,
        w * h == h * w,
{
    assert(0 <= w * h <= 0x4000_0000 && w * h == h * w) by (nonlinear_arith)
        requires
            0 <= w <= MAX_DIM,
            0 <= h <= MAX_DIM,
    ;
}

/// A cell of an earlier row sits strictly below the start of row `row`.
pub proof fn lemma_row_major_lt(j: int, i: int, row: int, w: int)
    requires
        0 <= i < w,
        0 <= j < row,
    ensures
        j * w + i < row * w,
{
    assert(j * w + i < row * w) by (nonlinear_arith)
        requires
            0 <= i < w,
            0 <= j < row,
    ;
}


/// The channel `ch` (red, green, blue, alpha in that order) of a pixel.
pub open spec fn byte_of_pixel(p: Rgba, ch: int) -> u8 {
    if ch == 0 {
        p.r
    } else if ch == 1 {
        p.g
    } else if ch == 2 {
        p.b
    } else {
        p.a
    }
}

/// The canvas laid out as flat RGBA bytes, four per pixel.
pub open spec fn rgba_bytes_of(c: Canvas) -> Seq<u8> {
    Seq::new((4 * c.pixels@.len()) as nat, |j: int| byte_of_pixel(c.pixels@[j / 4], j % 4))
}

/// The pixel starting at byte `4 * i` of a flat RGBA buffer.
pub open spec fn rgba_at(bytes: Seq<u8>, i: int) -> Rgba {
    Rgba { r: bytes[4 * i], g: bytes[4 * i + 1], b: bytes[4 * i + 2], a: bytes[4 * i + 3] }
}

/// What `image`'s Lanczos3 resampling filter makes of a `w * h` RGBA buffer
/// scaled to `nw * nh`; a function of its inputs alone.
pub uninterp spec fn resample_of(bytes: Seq<u8>, w: int, h: int, nw: int, nh: int) -> Seq<u8>;

/// Relies on image::imageops::resize with the Lanczos3 filter: resamples a
/// `w * h` RGBA buffer to `nw * nh`, returning exactly `4 * nw * nh` bytes;
/// the result depends on the arguments alone. `RgbaImage::from_raw` returns
/// `Some` because the buffer holds exactly `4 * w * h` bytes.
#[verifier::external_body]
fn resample_rgba(bytes: &Vec<u8>, w: u32, h: u32, nw: u32, nh: u32) -> (r: Vec<u8>)
    requires
        bytes@.len() == 4 * (w as int) * (h as int),
        1 <= w <= MAX_DIM,
        1 <= h <= MAX_DIM,
        1 <= nw <= MAX_DIM,
        1 <= nh <= MAX_DIM,
    ensures
        r@.len() == 4 * (nw as int) * (nh as int),
        r@ == resample_of(bytes@, w as int, h as int, nw as int, nh as int),
{
    let img = image::RgbaImage::from_raw(w, h, bytes.clone()).unwrap();
    let out = image::imageops::resize(&img, nw, nh, image::imageops::FilterType::Lanczos3);
    out.into_raw()
}

impl Canvas {
    /// The image as flat RGBA bytes, four per pixel in row-major order.
    pub fn to_rgba_bytes(&self) -> (r: Vec<u8>)
        requires
            self.wf(),
        ensures
            r@ == rgba_bytes_of(*self),
            r@.len() == 4 * self.pixels@.len(),
    {
        proof {
            lemma_dims_product(self.width as int, self.height as int);
        }
        let mut bytes: Vec<u8> = Vec::new();
        let mut i: usize = 0;
        while i < self.pixels.len()
            invariant
                i <= self.pixels@.len(),
                self.pixels@.len() <= 0x4000_0000,
                bytes@.len() == 4 * i,
                forall|j: int|
                    0 <= j < 4 * i ==> #[trigger] bytes@[j] == byte_of_pixel(
                        self.pixels@[j / 4],
                        j % 4,
                    ),
            decreases self.pixels@.len() - i,
        {
            let p = self.pixels[i];
            bytes.push(p.r);
            bytes.push(p.g);
            bytes.push(p.b);
            bytes.push(p.a);
            i = i + 1;
        }
        proof {
            lemma_dims_product(self.width as int, self.height as int);
            assert(bytes@ =~= rgba_bytes_of(*self));
        }
        bytes
    }

    /// Rebuilds a canvas from flat RGBA bytes.
    pub fn from_rgba_bytes(width: u32, height: u32, bytes: &Vec<u8>) -> (c: Canvas)
        requires
            width <= MAX_DIM,
            height <= MAX_DIM,
            bytes@.len() == 4 * (width as int) * (height as int),
        ensures
            c.wf(),
            c.width == width,
            c.height == height,
            forall|i: int|
                0 <= i < c.pixels@.len() ==> #[trigger] c.pixels@[i] == rgba_at(bytes@, i),
    {
        proof {
            lemma_dims_product(width as int, height as int);
            assert(4 * (width as int) * (height as int) == 4 * ((width as int) * (
            height as int))) by (nonlinear_arith);
        }
        let total: usize = (width as usize) * (height as usize);
        let mut pixels: Vec<Rgba> = Vec::new();
        let mut i: usize = 0;
        while i < total
            invariant
                i <= total,
                total <= 0x4000_0000,
                bytes@.len() == 4 * total,
                pixels@.len() == i,
                forall|j: int| 0 <= j < i ==> #[trigger] pixels@[j] == rgba_at(bytes@, j),
            decreases total - i,
        {
            let p = Rgba {
                r: bytes[4 * i],
                g: bytes[4 * i + 1],
                b: bytes[4 * i + 2],
                a: bytes[4 * i + 3],
            };
            pixels.push(p);
            i = i + 1;
        }
        Canvas { width, height, pixels }
    }

    /// Shrinks (or grows) the image to fit inside `target_w * target_h`
    /// while preserving its aspect ratio: the scale is the smaller of the
    /// two axis ratios, and a degenerate axis is held at one pixel. The
    /// resampled content is `image`'s Lanczos3 filter applied to this image.
    pub fn resize_to_fit(&self, target_w: u32, target_h: u32) -> (out: Canvas)
        requires
            self.wf(),
            1 <= self.width,
            1 <= self.height,
            1 <= target_w <= MAX_DIM,
            1 <= target_h <= MAX_DIM,
        ensures
            out.wf(),
            out.width == fit_width(
                self.width as int,
                self.height as int,
                target_w as int,
                target_h as int,
            ),
            out.height == fit_height(
                self.width as int,
                self.height as int,
                target_w as int,
                target_h as int,
            ),
            forall|i: int|
                0 <= i < out.pixels@.len() ==> #[trigger] out.pixels@[i] == rgba_at(
                    resample_of(
                        rgba_bytes_of(*self),
                        self.width as int,
                        self.height as int,
                        out.width as int,
                        out.height as int,
                    ),
                    i,
                ),
    {
        proof {
            lemma_fit_bounds(
                self.width as int,
                self.height as int,
                target_w as int,
                target_h as int,
            );
        }
        proof {
            lemma_dims_product(target_w as int, self.height as int);
            lemma_dims_product(target_h as int, self.width as int);
            lemma_dims_product(self.height as int, target_w as int);
            lemma_dims_product(self.width as int, target_h as int);
            assert(0 <= ((self.height as int) * (target_w as int)) / (self.width as int)
                <= 0x4000_0000) by (nonlinear_arith)
                requires
                    0 <= (self.height as int) * (target_w as int) <= 0x4000_0000,
                    1 <= self.width,
            ;
            assert(0 <= ((self.width as int) * (target_h as int)) / (self.height as int)
                <= 0x4000_0000) by (nonlinear_arith)
                requires
                    0 <= (self.width as int) * (target_h as int) <= 0x4000_0000,
                    1 <= self.height,
            ;
        }
        let w64: u64 = self.width as u64;
        let h64: u64 = self.height as u64;
        let tw64: u64 = target_w as u64;
        let th64: u64 = target_h as u64;
        let nw: u32;
        let nh: u32;
        if tw64 * h64 <= th64 * w64 {
            nw = target_w;
            let sh: u64 = (h64 * tw64) / w64;
            nh = if sh < 1 {
                1
            } else {
                sh as u32
            };
        } else {
            let sw: u64 = (w64 * th64) / h64;
            nw = if sw < 1 {
                1
            } else {
                sw as u32
            };
            nh = target_h;
        }
        let bytes = self.to_rgba_bytes();
        proof {
            lemma_dims_product(self.width as int, self.height as int);
            assert(bytes@.len() == 4 * (self.width as int) * (self.height as int))
                by (nonlinear_arith)
                requires
                    bytes@.len() == 4 * ((self.width as int) * (self.height as int)),
            ;
        }
        let resampled = resample_rgba(&bytes, self.width, self.height, nw, nh);
        proof {
            assert(resampled@.len() == 4 * ((nw as int) * (nh as int))) by (nonlinear_arith)
                requires
                    resampled@.len() == 4 * (nw as int) * (nh as int),
            ;
        }
        Canvas::from_rgba_bytes(nw, nh, &resampled)
    }
}

/// The width after fitting a `w * h` image into `tw * th`, aspect preserved.
pub open spec fn fit_width(w: int, h: int, tw: int, th: int) -> int {
    if tw * h <= th * w {
        tw
    } else {
        let sw = (w * th) / h;
        if sw < 1 {
            1
        } else {
            sw
        }
    }
}

/// The height after fitting a `w * h` image into `tw * th`, aspect
/// preserved.
pub open spec fn fit_height(w: int, h: int, tw: int, th: int) -> int {
    if tw * h <= th * w {
        let sh = (h * tw) / w;
        if sh < 1 {
            1
        } else {
            sh
        }
    } else {
        th
    }
}

/// The fitted dimensions never exceed the target box nor the size limit.
pub proof fn lemma_fit_bounds(w: int, h: int, tw: int, th: int)
    requires
        1 <= w <= MAX_DIM,
        1 <= h <= MAX_DIM,
        1 <= tw <= MAX_DIM,
        1 <= th <= MAX_DIM,
    ensures
        1 <= fit_width(w, h, tw, th) <= tw,
        1 <= fit_height(w, h, tw, th) <= th,
{
    if tw * h <= th * w {
        assert(1 <= fit_width(w, h, tw, th) <= tw);
        assert((h * tw) / w <= th) by (nonlinear_arith)
            requires
                tw * h <= th * w,
                1 <= w,
                1 <= h,
                1 <= tw,
                1 <= th,
        ;
    } else {
        assert(1 <= fit_height(w, h, tw, th) <= th);
        assert((w * th) / h <= tw) by (nonlinear_arith)
            requires
                th * w <= tw * h,
                1 <= w,
                1 <= h,
                1 <= tw,
                1 <= th,
        ;
    }
}

} // verus!

//! Pictures with red, green, blue and opacity in a byte each.
use vstd::arithmetic::div_mod::lemma_fundamental_div_mod_converse;
use vstd::prelude::*;

verus! {

/// A pixel: red, green, blue and opacity.
pub type Rgba = (u8, u8, u8, u8);

/// A picture, row by row from the top, four bytes a pixel.
#[derive(Debug)]
pub struct Picture {
    pub width: u32,
    pub height: u32,
    pub pixels: Vec<u8>,
}

/// A picture as a value.
pub ghost struct Image {
    pub width: u32,
    pub height: u32,
    pub pixels: Seq<u8>,
}

/// Where the bytes of a pixel start.
pub open spec fn byte_of(width: u32, x: int, y: int) -> int {
    4 * (y * width + x)
}

impl Image {
    /// There are as many bytes as the size asks for.
    pub open spec fn wf(self) -> bool {
        self.pixels.len() == 4 * (self.width * self.height)
    }

    /// Positions inside the picture.
    pub open spec fn has(self, x: int, y: int) -> bool {
        0 <= x < self.width && 0 <= y < self.height
    }

    /// The pixel at a position.
    pub open spec fn at(self, x: int, y: int) -> Rgba {
        let i = byte_of(self.width, x, y);
        (self.pixels[i], self.pixels[i + 1], self.pixels[i + 2], self.pixels[i + 3])
    }

    /// Every pixel is fully opaque.
    pub open spec fn opaque(self) -> bool {
        forall|x: int, y: int| self.has(x, y) ==> (#[trigger] self.at(x, y)).3 == 255
    }

    /// Some pixel of the picture is this one.
    pub open spec fn holds(self, p: Rgba) -> bool {
        exists|x: int, y: int| self.has(x, y) && #[trigger] self.at(x, y) == p
    }
}

impl View for Picture {
    type V = Image;

    open spec fn view(&self) -> Image {
        Image { width: self.width, height: self.height, pixels: self.pixels@ }
    }
}

/// What a picture file decodes to: width, height and bytes. Nothing where the
/// bytes are no picture that can be read.
pub uninterp spec fn decoded(bytes: Seq<u8>) -> Option<(u32, u32, Seq<u8>)>;

/// The bytes of a picture that was resized without blending.
pub uninterp spec fn resized_bytes(
    pixels: Seq<u8>,
    width: u32,
    height: u32,
    new_width: u32,
    new_height: u32,
) -> Seq<u8>;

/// The bytes of a picture after another one was laid over it at a position.
pub uninterp spec fn overlaid_bytes(
    bottom: Seq<u8>,
    bottom_width: u32,
    bottom_height: u32,
    top: Seq<u8>,
    top_width: u32,
    top_height: u32,
    x: i64,
    y: i64,
) -> Seq<u8>;

/// `image::load_from_memory` tells the format from the bytes and decodes them;
/// `to_rgba8` turns the result into four bytes a pixel. What comes out is named.
/// The number of bytes is what the size asks for.
#[verifier::external_body]
fn decode(bytes: &[u8]) -> (r: Option<Picture>)
    ensures
        r is Some <==> decoded(bytes@) is Some,
        r is Some ==> decoded(bytes@) == Some((r->0.width, r->0.height, r->0.pixels@)),
        r is Some ==> r->0@.wf(),
{
    match image::load_from_memory(bytes) {
        Ok(picture) => {
            let rgba = picture.to_rgba8();
            Some(Picture { width: rgba.width(), height: rgba.height(), pixels: rgba.into_raw() })
        },
        Err(_) => None,
    }
}

/// `image::imageops::resize` with the nearest filter. The bytes of the result
/// are named. Its size is the one asked for, every pixel of it is a pixel of the
/// picture, and a picture that has the size already comes back as it is.
#[verifier::external_body]
fn resize(p: &Picture, width: u32, height: u32) -> (r: Picture)
    requires
        p@.wf(),
        p.width > 0 && p.height > 0 && width > 0 && height > 0,
        16 * (p.width * height) <= isize::MAX,
        4 * (width * height) <= isize::MAX,
    ensures
        r.width == width && r.height == height,
        r@.wf(),
        r.pixels@ == resized_bytes(p.pixels@, p.width, p.height, width, height),
        forall|x: int, y: int| r@.has(x, y) ==> p@.holds(#[trigger] r@.at(x, y)),
        width == p.width && height == p.height ==> r.pixels@ == p.pixels@,
{
    let source = image::RgbaImage::from_raw(p.width, p.height, p.pixels.clone()).unwrap();
    let filter = image::imageops::FilterType::Nearest;
    let done = image::imageops::resize(&source, width, height, filter);
    Picture { width: done.width(), height: done.height(), pixels: done.into_raw() }
}

/// `image::imageops::overlay` lays one picture over another. The bytes of the
/// result are named. Its size is that of the picture below. Pixels beside the
/// upper picture stay; under an opaque pixel the upper one is taken; under a
/// fully transparent one the lower one stays. What becomes of the others is
/// left to the name.
#[verifier::external_body]
fn overlay(bottom: Picture, top: &Picture, x: i64, y: i64) -> (r: Picture)
    requires
        bottom@.wf(),
        top@.wf(),
        4 * bottom.width <= usize::MAX,
        4 * top.width <= usize::MAX,
    ensures
        r.width == bottom.width && r.height == bottom.height,
        r@.wf(),
        r.pixels@ == overlaid_bytes(
            bottom.pixels@,
            bottom.width,
            bottom.height,
            top.pixels@,
            top.width,
            top.height,
            x,
            y,
        ),
        forall|i: int, j: int|
            bottom@.has(i, j) && !top@.has(i - x, j - y) ==> #[trigger] r@.at(i, j) == bottom@.at(
                i,
                j,
            ),
        forall|i: int, j: int|
            bottom@.has(i, j) && top@.has(i - x, j - y) && top@.at(i - x, j - y).3 == 255
                ==> #[trigger] r@.at(i, j) == top@.at(i - x, j - y),
        forall|i: int, j: int|
            bottom@.has(i, j) && top@.has(i - x, j - y) && top@.at(i - x, j - y).3 == 0
                ==> #[trigger] r@.at(i, j) == bottom@.at(i, j),
{
    let Picture { width, height, pixels } = bottom;
    let mut below = image::RgbaImage::from_raw(width, height, pixels).unwrap();
    let above = image::RgbaImage::from_raw(top.width, top.height, top.pixels.clone()).unwrap();
    image::imageops::overlay(&mut below, &above, x, y);
    Picture { width, height, pixels: below.into_raw() }
}

/// A picture resized without blending.
pub open spec fn resized(p: Image, width: u32, height: u32) -> Image {
    Image { width, height, pixels: resized_bytes(p.pixels, p.width, p.height, width, height) }
}

/// A picture laid over another.
pub open spec fn overlaid(bottom: Image, top: Image, x: i64, y: i64) -> Image {
    Image {
        width: bottom.width,
        height: bottom.height,
        pixels: overlaid_bytes(
            bottom.pixels,
            bottom.width,
            bottom.height,
            top.pixels,
            top.width,
            top.height,
            x,
            y,
        ),
    }
}

/// A part of a picture.
pub open spec fn cropped(p: Image, x: int, y: int, width: u32, height: u32) -> Image {
    Image {
        width,
        height,
        pixels: Seq::new(
            (4 * (width * height)) as nat,
            |k: int|
                p.pixels[byte_of(p.width, x + (k / 4) % (width as int), y + (k / 4) / (width as int))
                    + k % 4],
        ),
    }
}

/// A picture of fully transparent pixels.
pub open spec fn blank_image(width: u32, height: u32) -> Image {
    Image { width, height, pixels: Seq::new((4 * (width * height)) as nat, |k: int| 0u8) }
}

/// The bytes of a pixel are inside the picture.
pub proof fn lemma_byte_in_range(width: u32, height: u32, x: int, y: int)
    by (nonlinear_arith)
    requires
        0 <= x < width,
        0 <= y < height,
    ensures
        0 <= byte_of(width, x, y),
        byte_of(width, x, y) + 4 <= 4 * (width * height),
{
}

/// Which pixel a byte belongs to.
pub proof fn lemma_pixel_of_byte(width: u32, x: int, y: int, c: int)
    requires
        0 <= x < width,
        0 <= y,
        0 <= c < 4,
    ensures
        ({
            let k = byte_of(width, x, y) + c;
            &&& k / 4 == y * width + x
            &&& k % 4 == c
            &&& (k / 4) % (width as int) == x
            &&& (k / 4) / (width as int) == y
        }),
{
    let q = y * width + x;
    lemma_fundamental_div_mod_converse(4 * q + c, 4, q, c);
    lemma_fundamental_div_mod_converse(q, width as int, y, x);
}

/// The pixels of a part are those of the picture.
pub proof fn lemma_cropped_at(p: Image, x: int, y: int, width: u32, height: u32, i: int, j: int)
    requires
        0 <= i < width,
        0 <= j < height,
    ensures
        cropped(p, x, y, width, height).at(i, j) == p.at(x + i, y + j),
{
    lemma_byte_in_range(width, height, i, j);
    lemma_pixel_of_byte(width, i, j, 0);
    lemma_pixel_of_byte(width, i, j, 1);
    lemma_pixel_of_byte(width, i, j, 2);
    lemma_pixel_of_byte(width, i, j, 3);
}

/// Reads a picture from the bytes of its file.
pub fn load_from_memory(bytes: &[u8]) -> (r: Option<Picture>)
    ensures
        r is Some <==> decoded(bytes@) is Some,
        r is Some ==> decoded(bytes@) == Some((r->0.width, r->0.height, r->0.pixels@)),
        r is Some ==> r->0@.wf(),
{
    decode(bytes)
}

proof fn lemma_position_of_byte(width: u32, height: u32, k: int)
    requires
        0 <= k < 4 * (width * height),
    ensures
        width > 0,
        0 <= (k / 4) % (width as int) < width,
        0 <= (k / 4) / (width as int) < height,
{
    assert(width > 0) by (nonlinear_arith)
        requires
            0 <= k < 4 * (width * height),
    ;
    let q = k / 4;
    assert(0 <= q < width * height);
    assert(0 <= q / (width as int) < height) by (nonlinear_arith)
        requires
            0 <= q < width * height,
            width > 0,
    ;
    assert(0 <= q % (width as int) < width) by (nonlinear_arith)
        requires
            width > 0,
    ;
}

impl Picture {
    /// A picture of fully transparent pixels.
    pub fn blank(width: u32, height: u32) -> (r: Self)
        requires
            4 * (width * height) <= usize::MAX,
        ensures
            r@ == blank_image(width, height),
            r@.wf(),
    {
        proof {
            assert(0 <= width * height <= 0xffff_ffff * 0xffff_ffff) by (nonlinear_arith)
                requires
                    0 <= width <= 0xffff_ffff,
                    0 <= height <= 0xffff_ffff,
            ;
        }
        let area: u64 = width as u64 * height as u64;
        let n: usize = 4 * area as usize;
        let pixels: Vec<u8> = vec![0; n];
        assert(pixels@ =~= blank_image(width, height).pixels);
        Picture { width, height, pixels }
    }

    /// A part of the picture.
    pub fn crop(&self, x: u32, y: u32, width: u32, height: u32) -> (r: Self)
        requires
            self@.wf(),
            x + width <= self.width,
            y + height <= self.height,
        ensures
            r@ == cropped(self@, x as int, y as int, width, height),
            r@.wf(),
    {
        proof {
            assert(4 * (width * height) <= 4 * (self.width * self.height)) by (nonlinear_arith)
                requires
                    0 <= width <= self.width,
                    0 <= height <= self.height,
            ;
            assert(0 <= width * height <= 0xffff_ffff * 0xffff_ffff) by (nonlinear_arith)
                requires
                    0 <= width <= 0xffff_ffff,
                    0 <= height <= 0xffff_ffff,
            ;
        }
        let have: usize = self.pixels.len();
        let ghost whole = cropped(self@, x as int, y as int, width, height).pixels;
        let area: u64 = width as u64 * height as u64;
        let n: usize = 4 * area as usize;
        let mut pixels: Vec<u8> = Vec::new();
        let mut k: usize = 0;
        while k < n
            invariant
                self@.wf(),
                x + width <= self.width,
                y + height <= self.height,
                n == 4 * (width * height),
                have == self.pixels@.len(),
                k <= n,
                whole == cropped(self@, x as int, y as int, width, height).pixels,
                pixels@ == whole.take(k as int),
            decreases n - k,
        {
            proof {
                lemma_position_of_byte(width, height, k as int);
                lemma_byte_in_range(
                    self.width,
                    self.height,
                    x + (k as int / 4) % (width as int),
                    y + (k as int / 4) / (width as int),
                );
            }
            let q: usize = k / 4;
            let sx: u64 = x as u64 + (q % width as usize) as u64;
            let sy: u64 = y as u64 + (q / width as usize) as u64;
            proof {
                assert(0 <= sy * self.width <= 0xffff_ffff * 0xffff_ffff) by (nonlinear_arith)
                    requires
                        0 <= sy <= 0xffff_ffff,
                        0 <= self.width <= 0xffff_ffff,
                ;
            }
            let start: u64 = sy * self.width as u64 + sx;
            assert(4 * start + 4 <= have);
            let at: usize = 4 * start as usize + k % 4;
            pixels.push(self.pixels[at]);
            assert(pixels@ =~= whole.take(k + 1));
            k = k + 1;
        }
        assert(pixels@ =~= whole);
        Picture { width, height, pixels }
    }

    /// The picture in another size, without blending.
    pub fn resized_to(&self, width: u32, height: u32) -> (r: Self)
        requires
            self@.wf(),
            self.width > 0 && self.height > 0 && width > 0 && height > 0,
            16 * (self.width * height) <= isize::MAX,
            4 * (width * height) <= isize::MAX,
        ensures
            r@ == resized(self@, width, height),
            r@.wf(),
            forall|x: int, y: int| r@.has(x, y) ==> self@.holds(#[trigger] r@.at(x, y)),
            width == self.width && height == self.height ==> r@ == self@,
    {
        resize(self, width, height)
    }

    /// The picture with another one laid over it.
    pub fn overlaid_with(self, top: &Picture, x: i64, y: i64) -> (r: Self)
        requires
            self@.wf(),
            top@.wf(),
            4 * self.width <= usize::MAX,
            4 * top.width <= usize::MAX,
        ensures
            r@ == overlaid(self@, top@, x, y),
            r@.wf(),
            forall|i: int, j: int|
                self@.has(i, j) && !top@.has(i - x, j - y) ==> #[trigger] r@.at(i, j) == self@.at(
                    i,
                    j,
                ),
            forall|i: int, j: int|
                self@.has(i, j) && top@.has(i - x, j - y) && top@.at(i - x, j - y).3 == 255
                    ==> #[trigger] r@.at(i, j) == top@.at(i - x, j - y),
            forall|i: int, j: int|
                self@.has(i, j) && top@.has(i - x, j - y) && top@.at(i - x, j - y).3 == 0
                    ==> #[trigger] r@.at(i, j) == self@.at(i, j),
    {
        overlay(self, top, x, y)
    }
}

/// A part of a picture shows what the picture shows there: each of its pixels is
/// the one that lies as far to the right and down from the corner of the part.
pub proof fn law_parts_show_their_place(p: Image, x: int, y: int, width: u32, height: u32, i: int, j: int)
    requires
        0 <= i < width,
        0 <= j < height,
    ensures
        cropped(p, x, y, width, height).at(i, j) == p.at(x + i, y + j),
        cropped(p, x, y, width, height).wf(),
{
    let c = cropped(p, x, y, width, height);
    let w = width as int;
    let b = 4 * (j * w + i);
    assert(0 <= b && b + 4 <= 4 * (width * height)) by (nonlinear_arith)
        requires
            b == 4 * (j * w + i),
            w == width as int,
            0 <= i < w,
            0 <= j < height,
    ;
    assert forall|k: int| 0 <= k < 4 implies #[trigger] c.pixels[b + k] == p.pixels[byte_of(
        p.width,
        x + i,
        y + j,
    ) + k] by {
        assert((b + k) / 4 == j * w + i && (b + k) % 4 == k);
        lemma_fundamental_div_mod_converse(j * w + i, w, j, i);
    }
    assert(c.pixels[b + 0] == p.pixels[byte_of(p.width, x + i, y + j) + 0]);
    assert(c.pixels[b + 1] == p.pixels[byte_of(p.width, x + i, y + j) + 1]);
    assert(c.pixels[b + 2] == p.pixels[byte_of(p.width, x + i, y + j) + 2]);
    assert(c.pixels[b + 3] == p.pixels[byte_of(p.width, x + i, y + j) + 3]);
}

/// Every pixel of a new picture is transparent.
pub proof fn law_new_pictures_are_transparent(width: u32, height: u32, i: int, j: int)
    requires
        0 <= i < width,
        0 <= j < height,
    ensures
        blank_image(width, height).at(i, j) == (0u8, 0u8, 0u8, 0u8),
        blank_image(width, height).wf(),
{
    let b = 4 * (j * width + i);
    assert(0 <= b && b + 4 <= 4 * (width * height)) by (nonlinear_arith)
        requires
            b == 4 * (j * width + i),
            0 <= i < width,
            0 <= j < height,
    ;
}

/// Pixels lie row by row from the top, four bytes each.
pub proof fn law_pixels_lie_row_by_row(width: u32, x: int, y: int)
    ensures
        byte_of(width, x + 1, y) == byte_of(width, x, y) + 4,
        byte_of(width, 0, y + 1) == byte_of(width, width as int, y),
        byte_of(width, 0, 0) == 0,
{
    assert((y + 1) * width == y * width + width) by (nonlinear_arith);
}

} // verus!

//! Attached images: checked before decoding, scaled down to a 4096-pixel edge,
//! padded onto a 1920×1080 canvas when small, and sent as base64 PNG.
use vstd::prelude::*;
use vstd::utf8::encode_utf8;

use base64::Engine;
use image::{imageops, DynamicImage, ImageFormat, ImageReader, RgbaImage};
use std::io::Cursor;

use crate::conversation::{ImagePayload, ImageView};
use crate::text::{ascii_lowercase, str_equal, to_ascii_lowercase};
use crate::validate::{image_dimensions_ok, validate_image_dimensions};

verus! {

broadcast use vstd::string::group_string_axioms;

/// Largest encoded image that is accepted or sent, in bytes.
pub const MAX_IMAGE_BYTES: usize = 3000000;

/// Largest base64 text of an image that is accepted (`MAX_IMAGE_BYTES` encoded).
pub const MAX_IMAGE_BASE64_CHARS: usize = 4000000;

/// Longest edge of an image that is sent.
pub const MAX_IMAGE_DIMENSION: u32 = 4096;

/// Width of the canvas small images are padded onto.
pub const CANVAS_WIDTH: u32 = 1920;

/// Height of the canvas small images are padded onto.
pub const CANVAS_HEIGHT: u32 = 1080;

/// The canvas colour, RGBA.
pub const CANVAS_BG: [u8; 4] = [14, 17, 24, 255];

/// The bytes of `CANVAS_BG`.
pub open spec fn canvas_bg(i: int) -> u8 {
    if i == 0 {
        14
    } else if i == 1 {
        17
    } else if i == 2 {
        24
    } else {
        255
    }
}

/// An RGBA image with 8 bits per channel, row by row.
pub struct Rgba8Image {
    pub width: u32,
    pub height: u32,
    pub pixels: Vec<u8>,
}

/// Whether `len` bytes are exactly four per pixel of a `width` by `height` image.
fn buffer_fits(width: u64, height: u64, len: u64) -> (r: bool)
    ensures
        r == (len == width * height * 4),
{
    match width.checked_mul(height) {
        Some(pixels) => match pixels.checked_mul(4) {
            Some(expected) => len == expected,
            None => false,
        },
        None => {
            assert(width * height * 4 >= width * height) by (nonlinear_arith)
                requires
                    width * height >= 0,
            ;
            false
        },
    }
}

impl Rgba8Image {
    /// The pixel buffer holds exactly four bytes per pixel.
    pub open spec fn wf(&self) -> bool {
        self.pixels@.len() == self.width as int * self.height as int * 4
    }

    /// An image from its raw pixels, if their number fits the dimensions.
    pub fn from_raw(width: u32, height: u32, pixels: Vec<u8>) -> (r: Option<Self>)
        ensures
            match r {
                Some(img) => img.wf() && img.width == width && img.height == height
                    && img.pixels@ == pixels@,
                None => pixels@.len() != width as int * height as int * 4,
            },
    {
        if buffer_fits(width as u64, height as u64, pixels.len() as u64) {
            Some(Rgba8Image { width, height, pixels })
        } else {
            None
        }
    }
}

// ---------------------------------------------------------------------------
// base64
// ---------------------------------------------------------------------------
/// The character of a six-bit group in the standard base64 alphabet.
pub open spec fn base64_char(n: int) -> char {
    if n < 26 {
        (65 + n) as char
    } else if n < 52 {
        (97 + n - 26) as char
    } else if n < 62 {
        (48 + n - 52) as char
    } else if n == 62 {
        '+'
    } else {
        '/'
    }
}

/// Standard base64 with `=` padding (RFC 4648, section 4).
pub open spec fn base64_spec(b: Seq<u8>) -> Seq<char>
    decreases b.len(),
{
    if b.len() == 0 {
        Seq::empty()
    } else if b.len() == 1 {
        seq![base64_char(b[0] as int / 4), base64_char((b[0] as int % 4) * 16), '=', '=']
    } else if b.len() == 2 {
        seq![
            base64_char(b[0] as int / 4),
            base64_char((b[0] as int % 4) * 16 + b[1] as int / 16),
            base64_char((b[1] as int % 16) * 4),
            '=',
        ]
    } else {
        seq![
            base64_char(b[0] as int / 4),
            base64_char((b[0] as int % 4) * 16 + b[1] as int / 16),
            base64_char((b[1] as int % 16) * 4 + b[2] as int / 64),
            base64_char(b[2] as int % 64),
        ] + base64_spec(b.skip(3))
    }
}

/// Calls `base64::engine::general_purpose::STANDARD.encode`. Trusted: the
/// text is standard base64 with padding of `bytes`.
#[verifier::external_body]
fn base64_encode(bytes: &[u8]) -> (r: String)
    ensures
        r@ == base64_spec(bytes@),
{
    base64::engine::general_purpose::STANDARD.encode(bytes)
}

/// No character of the base64 alphabet is the padding character.
proof fn lemma_base64_char_not_pad(n: int)
    requires
        0 <= n < 64,
    ensures
        base64_char(n) != '=',
{
}

/// Different six-bit groups have different characters.
proof fn lemma_base64_char_injective(n: int, m: int)
    requires
        0 <= n < 64,
        0 <= m < 64,
        base64_char(n) == base64_char(m),
    ensures
        n == m,
{
}

/// Two bytes cut into a high part and a low part of `k` values are equal when
/// both parts are.
proof fn lemma_split_unique(x: int, y: int, k: int)
    requires
        0 <= x < 256,
        0 <= y < 256,
        0 < k,
        x / k == y / k,
        x % k == y % k,
    ensures
        x == y,
{
    assert(x == k * (x / k) + x % k) by (nonlinear_arith)
        requires
            0 < k,
    ;
    assert(y == k * (y / k) + y % k) by (nonlinear_arith)
        requires
            0 < k,
    ;
}

/// A value `h * k + l` with `0 <= l < k` determines `h` and `l`.
proof fn lemma_digits_unique(h1: int, l1: int, h2: int, l2: int, k: int)
    requires
        0 < k,
        0 <= l1 < k,
        0 <= l2 < k,
        h1 * k + l1 == h2 * k + l2,
    ensures
        h1 == h2,
        l1 == l2,
{
    assert(h1 == h2) by (nonlinear_arith)
        requires
            0 < k,
            0 <= l1 < k,
            0 <= l2 < k,
            h1 * k + l1 == h2 * k + l2,
    ;
}

/// The first four characters of a non-empty encoding.
proof fn lemma_base64_head(a: Seq<u8>)
    requires
        a.len() > 0,
    ensures
        base64_spec(a).len() >= 4,
        base64_spec(a)[0] == base64_char(a[0] as int / 4),
        a.len() == 1 ==> base64_spec(a)[1] == base64_char((a[0] as int % 4) * 16)
            && base64_spec(a)[2] == '=' && base64_spec(a)[3] == '=',
        a.len() == 2 ==> base64_spec(a)[1] == base64_char(
            (a[0] as int % 4) * 16 + a[1] as int / 16,
        ) && base64_spec(a)[2] == base64_char((a[1] as int % 16) * 4) && base64_spec(a)[3]
            == '=',
        a.len() >= 3 ==> base64_spec(a)[1] == base64_char(
            (a[0] as int % 4) * 16 + a[1] as int / 16,
        ) && base64_spec(a)[2] == base64_char((a[1] as int % 16) * 4 + a[2] as int / 64)
            && base64_spec(a)[3] == base64_char(a[2] as int % 64) && base64_spec(a.skip(3))
            == base64_spec(a).skip(4),
{
    if a.len() >= 3 {
        let head = seq![
            base64_char(a[0] as int / 4),
            base64_char((a[0] as int % 4) * 16 + a[1] as int / 16),
            base64_char((a[1] as int % 16) * 4 + a[2] as int / 64),
            base64_char(a[2] as int % 64),
        ];
        assert(base64_spec(a) == head + base64_spec(a.skip(3)));
        assert((head + base64_spec(a.skip(3))).skip(4) =~= base64_spec(a.skip(3)));
    }
}

/// Standard base64 with padding is one-to-one: a text encodes at most one
/// byte sequence.
pub proof fn lemma_base64_injective(a: Seq<u8>, b: Seq<u8>)
    requires
        base64_spec(a) == base64_spec(b),
    ensures
        a == b,
    decreases a.len(),
{
    let e = base64_spec(a);
    if a.len() == 0 || b.len() == 0 {
        assert(a.len() == 0 && b.len() == 0) by {
            if a.len() > 0 {
                assert(base64_spec(a).len() > 0);
            }
            if b.len() > 0 {
                assert(base64_spec(b).len() > 0);
            }
        }
        assert(a =~= b);
        return;
    }
    lemma_base64_head(a);
    lemma_base64_head(b);
    let a0 = a[0] as int;
    let b0 = b[0] as int;
    // The padding tells the number of bytes in the first group.
    let na: int = if a.len() >= 3 { 3 } else { a.len() as int };
    let nb: int = if b.len() >= 3 { 3 } else { b.len() as int };
    if na >= 2 {
        lemma_base64_char_not_pad((a[1] as int % 16) * 4 + (if na == 3 { a[2] as int / 64 } else { 0 }));
    }
    if nb >= 2 {
        lemma_base64_char_not_pad((b[1] as int % 16) * 4 + (if nb == 3 { b[2] as int / 64 } else { 0 }));
    }
    if na == 3 {
        lemma_base64_char_not_pad(a[2] as int % 64);
    }
    if nb == 3 {
        lemma_base64_char_not_pad(b[2] as int % 64);
    }
    assert(na == nb);
    lemma_base64_char_injective(a0 / 4, b0 / 4);
    if na == 1 {
        lemma_base64_char_injective((a0 % 4) * 16, (b0 % 4) * 16);
        lemma_split_unique(a0, b0, 4);
        assert(a =~= b);
        return;
    }
    let a1 = a[1] as int;
    let b1 = b[1] as int;
    lemma_base64_char_injective((a0 % 4) * 16 + a1 / 16, (b0 % 4) * 16 + b1 / 16);
    lemma_digits_unique(a0 % 4, a1 / 16, b0 % 4, b1 / 16, 16);
    lemma_split_unique(a0, b0, 4);
    if na == 2 {
        lemma_base64_char_injective((a1 % 16) * 4, (b1 % 16) * 4);
        lemma_split_unique(a1, b1, 16);
        assert(a =~= b);
        return;
    }
    let a2 = a[2] as int;
    let b2 = b[2] as int;
    lemma_base64_char_injective((a1 % 16) * 4 + a2 / 64, (b1 % 16) * 4 + b2 / 64);
    lemma_digits_unique(a1 % 16, a2 / 64, b1 % 16, b2 / 64, 4);
    lemma_split_unique(a1, b1, 16);
    lemma_base64_char_injective(a2 % 64, b2 % 64);
    lemma_split_unique(a2, b2, 64);
    lemma_base64_injective(a.skip(3), b.skip(3));
    assert forall|i: int| 0 <= i < a.len() implies a[i] == b[i] by {
        if i >= 3 {
            assert(a[i] == a.skip(3)[i - 3]);
            assert(b[i] == b.skip(3)[i - 3]);
        }
    }
    assert(a =~= b);
}

/// What the standard base64 decoder makes of a text: the bytes whose padded
/// encoding it is, if there are any (there is at most one such sequence).
pub open spec fn base64_decoded(text: Seq<char>) -> Option<Seq<u8>> {
    if exists|b: Seq<u8>| base64_spec(b) == text {
        Some(choose|b: Seq<u8>| base64_spec(b) == text)
    } else {
        None
    }
}

/// Decoding gives back exactly what was encoded: the payload text of a
/// normalised image stands for the PNG bytes and nothing else.
pub proof fn base64_round_trip(bytes: Seq<u8>)
    ensures
        base64_decoded(base64_spec(bytes)) == Some(bytes),
{
    let c = choose|x: Seq<u8>| base64_spec(x) == base64_spec(bytes);
    lemma_base64_injective(c, bytes);
}

/// Calls `base64::engine::general_purpose::STANDARD.decode` on the text's
/// bytes. Trusted: the standard engine requires canonical padding and no
/// trailing bits, so it accepts exactly the padded encodings of byte
/// sequences and returns the bytes encoded.
#[verifier::external_body]
fn base64_decode_raw(text: &str) -> (r: Option<Vec<u8>>)
    ensures
        match r {
            Some(b) => base64_spec(b@) == text@,
            None => forall|b: Seq<u8>| base64_spec(b) != text@,
        },
{
    base64::engine::general_purpose::STANDARD.decode(text).ok()
}

/// Decodes standard base64 with padding: the bytes the text encodes, if it
/// is the padded encoding of any.
pub fn base64_decode(text: &str) -> (r: Option<Vec<u8>>)
    ensures
        match r {
            Some(b) => base64_decoded(text@) == Some(b@),
            None => base64_decoded(text@) is None,
        },
{
    let r = base64_decode_raw(text);
    proof {
        if r is Some {
            let c = choose|x: Seq<u8>| base64_spec(x) == text@;
            lemma_base64_injective(c, r->Some_0@);
        }
    }
    r
}

// ---------------------------------------------------------------------------
// The image crate
// ---------------------------------------------------------------------------
/// The dimensions `image` reads from the header of an encoded PNG (`png`) or
/// JPEG image.
pub uninterp spec fn encoded_dimensions(bytes: Seq<u8>, png: bool) -> Option<(u32, u32)>;

/// Calls `image::ImageReader::into_dimensions` on the bytes with the format
/// fixed. Trusted: the result is `encoded_dimensions(bytes, png)`.
#[verifier::external_body]
fn read_dimensions(bytes: &[u8], png: bool) -> (r: Option<(u32, u32)>)
    ensures
        r == encoded_dimensions(bytes@, png),
{
    let format = if png {
        ImageFormat::Png
    } else {
        ImageFormat::Jpeg
    };
    ImageReader::with_format(Cursor::new(bytes), format).into_dimensions().ok()
}

/// The RGBA pixels, width and height `image` decodes from a PNG (`png`) or
/// JPEG image.
pub uninterp spec fn decoded_rgba(bytes: Seq<u8>, png: bool) -> Option<(Seq<u8>, u32, u32)>;

/// Calls `image::ImageReader::decode` with the format fixed and converts the
/// result with `to_rgba8`. Trusted: the result is `decoded_rgba(bytes, png)`
/// and holds four bytes per pixel.
#[verifier::external_body]
fn decode_rgba(bytes: &[u8], png: bool) -> (r: Option<Rgba8Image>)
    ensures
        match r {
            Some(img) => img.wf() && decoded_rgba(bytes@, png) == Some(
                (img.pixels@, img.width, img.height),
            ),
            None => decoded_rgba(bytes@, png) is None,
        },
{
    let format = if png {
        ImageFormat::Png
    } else {
        ImageFormat::Jpeg
    };
    match ImageReader::with_format(Cursor::new(bytes), format).decode() {
        Ok(decoded) => {
            let rgba = decoded.to_rgba8();
            Some(Rgba8Image { width: rgba.width(), height: rgba.height(), pixels: rgba.into_raw() })
        },
        Err(_) => None,
    }
}

/// The pixels `image` resizes an RGBA image to with the triangle filter.
pub uninterp spec fn resized_rgba(pixels: Seq<u8>, width: u32, height: u32, new_width: u32, new_height: u32) -> Seq<u8>;

/// Calls `image::DynamicImage::resize_exact` with `FilterType::Triangle`.
/// Trusted: the pixels are `resized_rgba(..)` and the image has exactly the
/// requested dimensions.
#[verifier::external_body]
fn resize_rgba(img: &Rgba8Image, new_width: u32, new_height: u32) -> (r: Rgba8Image)
    requires
        img.wf(),
        new_width > 0,
        new_height > 0,
    ensures
        r.wf(),
        r.width == new_width,
        r.height == new_height,
        r.pixels@ == resized_rgba(img.pixels@, img.width, img.height, new_width, new_height),
{
    let source = RgbaImage::from_raw(img.width, img.height, img.pixels.clone()).unwrap();
    let resized = DynamicImage::ImageRgba8(source).resize_exact(
        new_width,
        new_height,
        imageops::FilterType::Triangle,
    ).to_rgba8();
    Rgba8Image { width: new_width, height: new_height, pixels: resized.into_raw() }
}

/// The pixels of `bottom` after `image` blends `top` over it at (`x`, `y`).
pub uninterp spec fn overlaid_rgba(
    bottom: Seq<u8>,
    bottom_width: u32,
    bottom_height: u32,
    top: Seq<u8>,
    top_width: u32,
    top_height: u32,
    x: int,
    y: int,
) -> Seq<u8>;

/// Calls `image::imageops::overlay`. Trusted: the pixels are
/// `overlaid_rgba(..)` and the bottom image keeps its dimensions.
#[verifier::external_body]
fn overlay_rgba(bottom: Rgba8Image, top: &Rgba8Image, x: i64, y: i64) -> (r: Rgba8Image)
    requires
        bottom.wf(),
        top.wf(),
    ensures
        r.wf(),
        r.width == bottom.width,
        r.height == bottom.height,
        r.pixels@ == overlaid_rgba(
            bottom.pixels@,
            bottom.width,
            bottom.height,
            top.pixels@,
            top.width,
            top.height,
            x as int,
            y as int,
        ),
{
    let mut canvas = RgbaImage::from_raw(bottom.width, bottom.height, bottom.pixels).unwrap();
    let layer = RgbaImage::from_raw(top.width, top.height, top.pixels.clone()).unwrap();
    imageops::overlay(&mut canvas, &layer, x, y);
    Rgba8Image { width: bottom.width, height: bottom.height, pixels: canvas.into_raw() }
}

/// The PNG file `image` writes for an RGBA image, if it can.
pub uninterp spec fn png_encoding(pixels: Seq<u8>, width: u32, height: u32) -> Option<Seq<u8>>;

/// Calls `image::DynamicImage::write_to` with `ImageFormat::Png` into memory.
/// Trusted: the bytes are `png_encoding(..)`.
#[verifier::external_body]
fn encode_png_rgba(img: &Rgba8Image) -> (r: Option<Vec<u8>>)
    requires
        img.wf(),
    ensures
        match r {
            Some(b) => png_encoding(img.pixels@, img.width, img.height) == Some(b@),
            None => png_encoding(img.pixels@, img.width, img.height) is None,
        },
{
    let source = RgbaImage::from_raw(img.width, img.height, img.pixels.clone()).unwrap();
    let mut output = Cursor::new(Vec::new());
    match DynamicImage::ImageRgba8(source).write_to(&mut output, ImageFormat::Png) {
        Ok(()) => Some(output.into_inner()),
        Err(_) => None,
    }
}

// ---------------------------------------------------------------------------
// Normalisation
// ---------------------------------------------------------------------------
/// The dimensions after scaling down to `MAX_IMAGE_DIMENSION` on the longest
/// edge, keeping the aspect ratio and at least one pixel.
pub open spec fn scaled_dimensions(width: u32, height: u32) -> (u32, u32) {
    if width > MAX_IMAGE_DIMENSION || height > MAX_IMAGE_DIMENSION {
        let longest: int = if width >= height {
            width as int
        } else {
            height as int
        };
        let w = width as int * MAX_IMAGE_DIMENSION as int / longest;
        let h = height as int * MAX_IMAGE_DIMENSION as int / longest;
        ((if w >= 1 {
            w
        } else {
            1
        }) as u32, (if h >= 1 {
            h
        } else {
            1
        }) as u32)
    } else {
        (width, height)
    }
}

/// The blank canvas small images are padded onto.
pub open spec fn canvas_pixels() -> Seq<u8> {
    Seq::new((CANVAS_WIDTH * CANVAS_HEIGHT * 4) as nat, |i: int| canvas_bg(i % 4))
}

/// The pixels and dimensions that are encoded for a checked image.
pub open spec fn normalized_pixels(pixels: Seq<u8>, width: u32, height: u32) -> (Seq<u8>, u32, u32) {
    let (w, h) = scaled_dimensions(width, height);
    let p = if w != width || h != height {
        resized_rgba(pixels, width, height, w, h)
    } else {
        pixels
    };
    if w <= CANVAS_WIDTH && h <= CANVAS_HEIGHT {
        (
            overlaid_rgba(
                canvas_pixels(),
                CANVAS_WIDTH,
                CANVAS_HEIGHT,
                p,
                w,
                h,
                ((CANVAS_WIDTH - w) / 2) as int,
                ((CANVAS_HEIGHT - h) / 2) as int,
            ),
            CANVAS_WIDTH,
            CANVAS_HEIGHT,
        )
    } else {
        (p, w, h)
    }
}

/// Every accepted image is sent with both edges between 1 and
/// `MAX_IMAGE_DIMENSION` pixels; one larger than that is scaled so that its
/// longest edge is exactly `MAX_IMAGE_DIMENSION`; one that fits both limits
/// keeps its size; and one no larger than the canvas is padded to exactly the
/// canvas.
pub proof fn normalized_images_fit(pixels: Seq<u8>, width: u32, height: u32)
    requires
        image_dimensions_ok(width, height),
    ensures
        ({
            let (p, w, h) = normalized_pixels(pixels, width, height);
            let (sw, sh) = scaled_dimensions(width, height);
            &&& 1 <= w <= MAX_IMAGE_DIMENSION
            &&& 1 <= h <= MAX_IMAGE_DIMENSION
            &&& 1 <= sw <= MAX_IMAGE_DIMENSION
            &&& 1 <= sh <= MAX_IMAGE_DIMENSION
            &&& (width > MAX_IMAGE_DIMENSION || height > MAX_IMAGE_DIMENSION) ==> (sw
                == MAX_IMAGE_DIMENSION || sh == MAX_IMAGE_DIMENSION)
            &&& (width <= MAX_IMAGE_DIMENSION && height <= MAX_IMAGE_DIMENSION) ==> sw == width
                && sh == height
            &&& (sw <= CANVAS_WIDTH && sh <= CANVAS_HEIGHT) ==> w == CANVAS_WIDTH && h
                == CANVAS_HEIGHT
            &&& !(sw <= CANVAS_WIDTH && sh <= CANVAS_HEIGHT) ==> w == sw && h == sh
        }),
{
    if width > MAX_IMAGE_DIMENSION || height > MAX_IMAGE_DIMENSION {
        let longest: int = if width >= height {
            width as int
        } else {
            height as int
        };
        let w = width as int * MAX_IMAGE_DIMENSION as int / longest;
        let h = height as int * MAX_IMAGE_DIMENSION as int / longest;
        assert(w <= MAX_IMAGE_DIMENSION) by (nonlinear_arith)
            requires
                w == width as int * 4096 / longest,
                width <= longest,
                longest > 0,
        ;
        assert(h <= MAX_IMAGE_DIMENSION) by (nonlinear_arith)
            requires
                h == height as int * 4096 / longest,
                height <= longest,
                longest > 0,
        ;
        assert(longest * 4096 / longest == 4096) by (nonlinear_arith)
            requires
                longest > 0,
        ;
    }
}

/// What `normalize_rgba_image` gives: the PNG payload, or the message shown.
pub open spec fn normalize_spec(pixels: Seq<u8>, width: u32, height: u32) -> Result<
    ImageView,
    Seq<char>,
> {
    if !image_dimensions_ok(width, height) {
        Err("Image dimensions are out of range"@)
    } else {
        let (p, w, h) = normalized_pixels(pixels, width, height);
        match png_encoding(p, w, h) {
            None => Err("Could not encode the image"@),
            Some(b) => if b.len() > MAX_IMAGE_BYTES {
                Err("Image is too large"@)
            } else {
                Ok(ImageView { mime_type: "image/png"@, data: base64_spec(b) })
            },
        }
    }
}

pub open spec fn payload_result_view(r: Result<ImagePayload, String>) -> Result<ImageView, Seq<char>> {
    match r {
        Ok(p) => Ok(p@),
        Err(e) => Err(e@),
    }
}

/// The blank canvas.
fn blank_canvas() -> (r: Rgba8Image)
    ensures
        r.wf(),
        r.width == CANVAS_WIDTH,
        r.height == CANVAS_HEIGHT,
        r.pixels@ == canvas_pixels(),
{
    let total: usize = (CANVAS_WIDTH as usize) * (CANVAS_HEIGHT as usize) * 4;
    let mut pixels: Vec<u8> = Vec::with_capacity(total);
    let mut i: usize = 0;
    while i < total
        invariant
            total == CANVAS_WIDTH * CANVAS_HEIGHT * 4,
            i <= total,
            i % 4 == 0,
            pixels@.len() == i,
            forall|k: int| 0 <= k < i ==> #[trigger] pixels@[k] == canvas_bg(k % 4),
        decreases total - i,
    {
        pixels.push(14);
        pixels.push(17);
        pixels.push(24);
        pixels.push(255);
        i = i + 4;
    }
    let img = Rgba8Image { width: CANVAS_WIDTH, height: CANVAS_HEIGHT, pixels };
    assert(img.pixels@ =~= canvas_pixels());
    img
}

/// Scales, pads and encodes an RGBA image as the PNG payload that is sent.
pub fn normalize_rgba_image(image: Rgba8Image) -> (r: Result<ImagePayload, String>)
    requires
        image.wf(),
    ensures
        payload_result_view(r) == normalize_spec(image.pixels@, image.width, image.height),
{
    let width = image.width;
    let height = image.height;
    let ghost source = image.pixels@;
    if let Err(e) = validate_image_dimensions(width, height) {
        return Err(e);
    }
    let mut image = image;
    if width > MAX_IMAGE_DIMENSION || height > MAX_IMAGE_DIMENSION {
        let longest: u64 = if width >= height {
            width as u64
        } else {
            height as u64
        };
        let w = (width as u64) * (MAX_IMAGE_DIMENSION as u64) / longest;
        let h = (height as u64) * (MAX_IMAGE_DIMENSION as u64) / longest;
        let new_width: u32 = if w >= 1 {
            w as u32
        } else {
            1
        };
        let new_height: u32 = if h >= 1 {
            h as u32
        } else {
            1
        };
        proof {
            assert(w <= MAX_IMAGE_DIMENSION) by (nonlinear_arith)
                requires
                    w as int == (width as int) * 4096 / (longest as int),
                    width <= longest,
                    longest > 0,
            ;
            assert(h <= MAX_IMAGE_DIMENSION) by (nonlinear_arith)
                requires
                    h as int == (height as int) * 4096 / (longest as int),
                    height <= longest,
                    longest > 0,
            ;
            if new_width == width && new_height == height {
                assert(width <= MAX_IMAGE_DIMENSION && height <= MAX_IMAGE_DIMENSION);
            }
        }
        image = resize_rgba(&image, new_width, new_height);
    }
    let w = image.width;
    let h = image.height;
    if w <= CANVAS_WIDTH && h <= CANVAS_HEIGHT {
        let canvas = blank_canvas();
        let x = ((CANVAS_WIDTH - w) / 2) as i64;
        let y = ((CANVAS_HEIGHT - h) / 2) as i64;
        image = overlay_rgba(canvas, &image, x, y);
    }
    let bytes = match encode_png_rgba(&image) {
        Some(b) => b,
        None => {
            return Err(String::from_str("Could not encode the image"));
        },
    };
    if bytes.len() > MAX_IMAGE_BYTES {
        return Err(String::from_str("Image is too large"));
    }
    Ok(
        ImagePayload {
            mime_type: String::from_str("image/png"),
            data: base64_encode(bytes.as_slice()),
        },
    )
}

/// What `normalize_image_bytes` gives for an encoded image of type `mime_type`.
pub open spec fn normalize_bytes_spec(mime_type: Seq<char>, bytes: Seq<u8>) -> Result<
    ImageView,
    Seq<char>,
> {
    if bytes.len() == 0 || bytes.len() > MAX_IMAGE_BYTES {
        Err("Image is too large or empty"@)
    } else if mime_type != "image/png"@ && mime_type != "image/jpeg"@ {
        Err("Unsupported image type — send PNG or JPEG"@)
    } else {
        let png = mime_type == "image/png"@;
        match encoded_dimensions(bytes, png) {
            None => Err("Unsupported or corrupt image"@),
            Some((w, h)) => if !image_dimensions_ok(w, h) {
                Err("Image dimensions are out of range"@)
            } else {
                match decoded_rgba(bytes, png) {
                    None => Err("Unsupported or corrupt image"@),
                    Some((p, dw, dh)) => normalize_spec(p, dw, dh),
                }
            },
        }
    }
}

/// Checks an encoded PNG or JPEG image before decoding it, then normalises it.
pub fn normalize_image_bytes(mime_type: &str, bytes: &[u8]) -> (r: Result<ImagePayload, String>)
    ensures
        payload_result_view(r) == normalize_bytes_spec(mime_type@, bytes@),
{
    if bytes.len() == 0 || bytes.len() > MAX_IMAGE_BYTES {
        return Err(String::from_str("Image is too large or empty"));
    }
    let png = if str_equal(mime_type, "image/png") {
        true
    } else if str_equal(mime_type, "image/jpeg") {
        false
    } else {
        return Err(String::from_str("Unsupported image type — send PNG or JPEG"));
    };
    let (w, h) = match read_dimensions(bytes, png) {
        Some(d) => d,
        None => {
            return Err(String::from_str("Unsupported or corrupt image"));
        },
    };
    if let Err(e) = validate_image_dimensions(w, h) {
        return Err(e);
    }
    match decode_rgba(bytes, png) {
        Some(decoded) => normalize_rgba_image(decoded),
        None => Err(String::from_str("Unsupported or corrupt image")),
    }
}

/// What `normalize_image_payload` gives for an attached image.
pub open spec fn normalize_payload_spec(image: ImageView) -> Result<
    ImageView,
    Seq<char>,
> {
    let mime = ascii_lowercase(image.mime_type);
    if (encode_utf8(image.data).len() as usize) > MAX_IMAGE_BASE64_CHARS {
        Err("Image is too large"@)
    } else if mime != "image/png"@ && mime != "image/jpeg"@ {
        Err("Unsupported image type — send PNG or JPEG"@)
    } else {
        match base64_decoded(image.data) {
            None => Err("Invalid image data"@),
            Some(b) => normalize_bytes_spec(mime, b),
        }
    }
}

/// Checks an attached image — size, type and canonical base64 — and
/// normalises it for sending.
pub fn normalize_image_payload(image: ImagePayload) -> (r: Result<ImagePayload, String>)
    ensures
        payload_result_view(r) == normalize_payload_spec(image@),
{
    if image.data.as_str().len() > MAX_IMAGE_BASE64_CHARS {
        return Err(String::from_str("Image is too large"));
    }
    let mime_type = to_ascii_lowercase(image.mime_type.as_str());
    if !str_equal(mime_type.as_str(), "image/png") && !str_equal(mime_type.as_str(), "image/jpeg") {
        return Err(String::from_str("Unsupported image type — send PNG or JPEG"));
    }
    let bytes = match base64_decode(image.data.as_str()) {
        Some(b) => b,
        None => {
            return Err(String::from_str("Invalid image data"));
        },
    };
    let canonical = base64_encode(bytes.as_slice());
    if !str_equal(canonical.as_str(), image.data.as_str()) {
        return Err(String::from_str("Invalid image data"));
    }
    normalize_image_bytes(mime_type.as_str(), bytes.as_slice())
}

/// The dimensions of a clipboard image, if they fit 32 bits and its buffer
/// holds exactly four bytes per pixel.
pub fn clipboard_image_dimensions(width: usize, height: usize, len: usize) -> (r: Result<
    (u32, u32),
    String,
>)
    ensures
        match r {
            Ok((w, h)) => w == width && h == height && len == width * height * 4,
            Err(e) => e@ == "Clipboard image is out of range"@ && (width > u32::MAX || height
                > u32::MAX || len != width * height * 4),
        },
{
    if width > u32::MAX as usize || height > u32::MAX as usize {
        return Err(String::from_str("Clipboard image is out of range"));
    }
    if !buffer_fits(width as u64, height as u64, len as u64) {
        return Err(String::from_str("Clipboard image is out of range"));
    }
    Ok((width as u32, height as u32))
}

} // verus!

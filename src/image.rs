//! Images adapted to the printer: RGBA bitmaps, thresholding to ink dots, and
//! raster commands at the printer's dot densities, cached per width and mode.
use vstd::prelude::*;
use crate::command::{Command, ImageMode, command_bytes, image_mode_code, is_24_dot};
use crate::error::Error;
use crate::formatter::Justification;
use base64::Engine;

verus! {

/// An RGBA image, four bytes per pixel, row by row.
#[derive(Clone, Debug)]
pub struct Bitmap {
    pub width: u32,
    pub height: u32,
    pub pixels: Vec<u8>,
}

impl Bitmap {
    pub open spec fn wf(&self) -> bool {
        &&& self.pixels@.len() == 4 * (self.width as int) * (self.height as int)
    }
}

/// What `image::imageops::resize` with the nearest-pixel filter makes of an RGBA image.
pub uninterp spec fn resized_nearest(px: Seq<u8>, w: int, h: int, nw: int, nh: int) -> Seq<u8>;

/// What `image::imageops::overlay` makes of `bottom` with `top` laid over it at column `x`.
pub uninterp spec fn overlaid(bottom: Seq<u8>, bw: int, bh: int, top: Seq<u8>, tw: int, th: int, x: int) -> Seq<u8>;

/// The standard, padded base64 text of the bytes.
pub uninterp spec fn base64_of(b: Seq<u8>) -> Seq<char>;

/// The PNG file that the image crate writes for an RGBA image.
pub uninterp spec fn png_of(px: Seq<u8>, w: int, h: int) -> Seq<u8>;

/// The image (width, height, RGBA pixels) that the image crate decodes from a
/// file; `None` where the bytes are not an image it can read.
pub uninterp spec fn decoded_image(bytes: Seq<u8>) -> Option<(int, int, Seq<u8>)>;

/// Relies on `image::imageops::resize` with `FilterType::Nearest`: an image of the
/// requested size, and a plain copy where the size does not change.
#[verifier::external_body]
fn resize_raw(src: &Bitmap, nw: u32, nh: u32) -> (r: Vec<u8>)
    requires
        src.wf(),
        src.width > 0,
        src.height > 0,
        nw > 0,
        nh > 0,
        4 * (nw as int) * (nh as int) <= usize::MAX,
    ensures
        r@.len() == 4 * (nw as int) * (nh as int),
        r@ == resized_nearest(src.pixels@, src.width as int, src.height as int, nw as int, nh as int),
        nw == src.width && nh == src.height ==> r@ == src.pixels@,
{
    let img: ::image::RgbaImage = ::image::ImageBuffer::from_raw(src.width, src.height, src.pixels.clone()).unwrap_or_default();
    ::image::imageops::resize(&img, nw, nh, ::image::imageops::FilterType::Nearest).into_raw()
}

/// Whether byte `i` of an image `bw` pixels wide lies under a `tw` by `th`
/// image laid at column `x`, row 0.
pub open spec fn covered(i: int, bw: int, x: int, tw: int, th: int) -> bool {
    let p = i / 4;
    let row = p / bw;
    let col = p % bw;
    x <= col < x + tw && row < th
}

/// Relies on `image::imageops::overlay`: `top` blended over `bottom` at column `x`, row 0.
#[verifier::external_body]
fn overlay_raw(bottom: &Bitmap, top: &Bitmap, x: u32) -> (r: Vec<u8>)
    requires
        bottom.wf(),
        top.wf(),
    ensures
        r@.len() == bottom.pixels@.len(),
        r@.len() == bottom.pixels@.len() && forall|i: int| 0 <= i < r@.len() && !covered(i, bottom.width as int, x as int, top.width as int, top.height as int)
            ==> #[trigger] r@[i] == bottom.pixels@[i],
        r@ == overlaid(bottom.pixels@, bottom.width as int, bottom.height as int, top.pixels@, top.width as int, top.height as int, x as int),
{
    let mut b: ::image::RgbaImage = ::image::ImageBuffer::from_raw(bottom.width, bottom.height, bottom.pixels.clone()).unwrap_or_default();
    let t: ::image::RgbaImage = ::image::ImageBuffer::from_raw(top.width, top.height, top.pixels.clone()).unwrap_or_default();
    ::image::imageops::overlay(&mut b, &t, x as i64, 0);
    b.into_raw()
}

/// Relies on `image::load_from_memory` and `to_rgba8`: the decoded image as RGBA rows.
#[verifier::external_body]
fn decode_raw(bytes: &Vec<u8>) -> (r: Result<(u32, u32, Vec<u8>), String>)
    ensures
        r is Ok <==> decoded_image(bytes@) is Some,
        r matches Ok(t) ==> t.2@.len() == 4 * (t.0 as int) * (t.1 as int)
            && decoded_image(bytes@) == Some((t.0 as int, t.1 as int, t.2@)),
{
    match ::image::load_from_memory(bytes) {
        Ok(i) => {
            let rgba = i.to_rgba8();
            Ok((rgba.width(), rgba.height(), rgba.into_raw()))
        },
        Err(e) => Err(e.to_string()),
    }
}

/// Relies on `RgbaImage::write_to` with `ImageOutputFormat::Png`: the PNG file
/// of the image; the png encoder refuses only a zero width or height.
#[verifier::external_body]
fn encode_png(b: &Bitmap) -> (r: Result<Vec<u8>, String>)
    requires
        b.wf(),
    ensures
        r matches Ok(v) ==> b.width > 0 && b.height > 0 && v@ == png_of(b.pixels@, b.width as int, b.height as int),
        r matches Err(_) ==> b.width == 0 || b.height == 0,
{
    let img: ::image::RgbaImage = ::image::ImageBuffer::from_raw(b.width, b.height, b.pixels.clone()).unwrap_or_default();
    let mut out = std::io::Cursor::new(Vec::new());
    match img.write_to(&mut out, ::image::ImageOutputFormat::Png) {
        Ok(()) => Ok(out.into_inner()),
        Err(e) => Err(e.to_string()),
    }
}

/// Relies on base64's `STANDARD` engine `encode`.
#[verifier::external_body]
fn base64_encode(b: &Vec<u8>) -> (r: String)
    ensures
        r@ == base64_of(b@),
{
    base64::engine::general_purpose::STANDARD.encode(b)
}

/// Relies on base64's `STANDARD` engine `decode`, which requires canonical
/// padding and no trailing bits: it accepts exactly the texts that `encode`
/// writes, and gives back the encoded bytes.
#[verifier::external_body]
fn base64_decode(s: &str) -> (r: Option<Vec<u8>>)
    ensures
        r matches Some(v) ==> base64_of(v@) == s@ && forall|b: Seq<u8>| #[trigger] base64_of(b) == s@ ==> b == v@,
        r is None ==> forall|b: Seq<u8>| #[trigger] base64_of(b) != s@,
{
    base64::engine::general_purpose::STANDARD.decode(s).ok()
}

/// Whether the bytes decode to an image.
pub open spec fn loadable(bytes: Seq<u8>) -> bool {
    decoded_image(bytes) is Some
}

/// Decodes an image file (PNG, JPEG, GIF, BMP) into a bitmap.
pub fn decode_bitmap(bytes: &Vec<u8>) -> (r: Result<Bitmap, Error>)
    ensures
        r is Ok <==> loadable(bytes@),
        r matches Ok(b) ==> b.wf() && decoded_image(bytes@) == Some((b.width as int, b.height as int, b.pixels@)),
        r matches Err(e) ==> e is ImageError,
{
    match decode_raw(bytes) {
        Ok((w, h, px)) => Ok(Bitmap { width: w, height: h, pixels: px }),
        Err(e) => Err(Error::ImageError(e)),
    }
}

/// A fully transparent bitmap.
pub fn transparent(w: u32, h: u32) -> (r: Bitmap)
    requires
        4 * (w as int) * (h as int) <= usize::MAX,
    ensures
        r.wf(),
        r.width == w,
        r.height == h,
        r.pixels@ == Seq::new(4 * (w as nat) * (h as nat), |i: int| 0u8),
{
    proof {
        assert((w as int) * (h as int) <= 4 * (w as int) * (h as int)) by (nonlinear_arith);
        assert(4 * (w as int) * (h as int) == 4 * ((w as int) * (h as int))) by (nonlinear_arith);
    }
    let wh: usize = (w as usize) * (h as usize);
    let n: usize = 4 * wh;
    let mut px: Vec<u8> = Vec::new();
    let mut i: usize = 0;
    while i < n
        invariant
            i <= n,
            px@ == Seq::new(i as nat, |k: int| 0u8),
        decreases n - i,
    {
        px.push(0);
        i = i + 1;
        assert(px@ =~= Seq::new(i as nat, |k: int| 0u8));
    }
    Bitmap { width: w, height: h, pixels: px }
}

/// `src` at a new size; a zero-sized source or target gives a transparent bitmap.
pub open spec fn resized(src: Bitmap, nw: int, nh: int) -> Seq<u8> {
    resized_px(src.pixels@, src.width as int, src.height as int, nw, nh)
}

pub open spec fn resized_px(px: Seq<u8>, w: int, h: int, nw: int, nh: int) -> Seq<u8> {
    if w == 0 || h == 0 || nw == 0 || nh == 0 {
        Seq::new((4 * nw * nh) as nat, |i: int| 0u8)
    } else {
        resized_nearest(px, w, h, nw, nh)
    }
}

pub fn resize(src: &Bitmap, nw: u32, nh: u32) -> (r: Bitmap)
    requires
        src.wf(),
        4 * (nw as int) * (nh as int) <= usize::MAX,
    ensures
        r.wf(),
        r.width == nw,
        r.height == nh,
        r.pixels@ == resized(*src, nw as int, nh as int),
{
    if src.width == 0 || src.height == 0 || nw == 0 || nh == 0 {
        transparent(nw, nh)
    } else {
        Bitmap { width: nw, height: nh, pixels: resize_raw(src, nw, nh) }
    }
}

/// Whether a pixel is printed: opaque enough (alpha above 64) and dark
/// (luminance 0.2126 R + 0.7152 G + 0.0722 B below 78, scaled by 10000).
pub open spec fn ink(px: Seq<u8>, w: int, y: int, x: int) -> bool {
    let i = 4 * (y * w + x);
    &&& px[i + 3] > 64
    &&& 2126 * px[i] + 7152 * px[i + 1] + 722 * px[i + 2] < 780000
}

/// The top `k` rows of band `b` at column `x`, read as bits from the most significant.
pub open spec fn band_bits(px: Seq<u8>, w: int, h: int, b: int, x: int, k: int) -> int
    decreases k,
{
    if k <= 0 {
        0
    } else {
        let y = 8 * b + k - 1;
        2 * band_bits(px, w, h, b, x, k - 1) + if y < h && ink(px, w, y, x) { 1int } else { 0int }
    }
}

/// The byte of column `x` in band `b` (rows `8b` to `8b + 7`; the top row is bit 7).
pub open spec fn band_byte(px: Seq<u8>, w: int, h: int, b: int, x: int) -> u8 {
    band_bits(px, w, h, b, x, 8) as u8
}

proof fn lemma_band_bits_bound(px: Seq<u8>, w: int, h: int, b: int, x: int, k: int)
    requires
        0 <= k <= 8,
    ensures
        0 <= band_bits(px, w, h, b, x, k) < pow2k(k),
    decreases k,
{
    if k > 0 {
        lemma_band_bits_bound(px, w, h, b, x, k - 1);
    }
}

proof fn lemma_pow2k_bound(k: int)
    requires
        0 <= k <= 8,
    ensures
        pow2k(k) <= 256,
        pow2k(k + 1) == 2 * pow2k(k),
    decreases 8 - k,
{
    if k == 8 {
        reveal_with_fuel(pow2k, 9);
    } else {
        lemma_pow2k_bound(k + 1);
    }
}

pub open spec fn pow2k(k: int) -> int
    decreases k,
{
    if k <= 0 { 1 } else { 2 * pow2k(k - 1) }
}

/// Height of the raster at printer width `pw`: the image keeps its aspect ratio,
/// stretched vertically by 1, 1/2, 3 or 3/2 for the four modes.
pub open spec fn raster_height(mode: ImageMode, pw: int, iw: int, ih: int) -> int {
    let k = match mode {
        ImageMode::EightDotSingleDensity => 2int,
        ImageMode::EightDotDoubleDensity => 1int,
        ImageMode::TwentyfourDotSingleDensity => 6int,
        ImageMode::TwentyfourDotDoubleDensity => 3int,
    };
    if iw == 0 {
        0
    } else {
        let n = (pw * k * ih) / (2 * iw);
        let limit = raster_limit(pw);
        if n > limit { limit } else { n }
    }
}

/// The most rows a raster at printer width `pw` can have: the image crate
/// counts rows in `u32`, and the RGBA buffer must be addressable.
pub open spec fn raster_limit(pw: int) -> int {
    if pw <= 0 || (u32::MAX as int) <= (usize::MAX as int) / (4 * pw) {
        u32::MAX as int
    } else {
        (usize::MAX as int) / (4 * pw)
    }
}

/// One 8-dot raster line: header, width, the bytes of band `b`, line feed.
pub open spec fn line8(px: Seq<u8>, w: int, h: int, mode: ImageMode, b: int) -> Seq<u8> {
    command_bytes(Command::Bitmap) + seq![image_mode_code(mode), (w % 256) as u8, (w / 256) as u8]
        + Seq::new(w as nat, |x: int| band_byte(px, w, h, b, x)) + seq![10u8]
}

/// One 24-dot raster line: three bands, three bytes per column.
pub open spec fn line24(px: Seq<u8>, w: int, h: int, mode: ImageMode, c: int) -> Seq<u8> {
    command_bytes(Command::Bitmap) + seq![image_mode_code(mode), (w % 256) as u8, (w / 256) as u8]
        + Seq::new((3 * w) as nat, |i: int| band_byte(px, w, h, 3 * c + i % 3, i / 3)) + seq![10u8]
}

pub open spec fn raster_lines(px: Seq<u8>, w: int, h: int, mode: ImageMode, n: int) -> Seq<u8>
    decreases n,
{
    if n <= 0 {
        Seq::empty()
    } else {
        raster_lines(px, w, h, mode, n - 1) + if is_24_dot(mode) {
            line24(px, w, h, mode, n - 1)
        } else {
            line8(px, w, h, mode, n - 1)
        }
    }
}

/// Number of raster lines: one per band of 8 rows, or one per 3 full bands in 24-dot modes.
pub open spec fn line_count(mode: ImageMode, h: int) -> int {
    let bands = (h + 7) / 8;
    if is_24_dot(mode) { bands / 3 } else { bands }
}

/// The command bytes that print `src` at printer width `pw` in `mode`.
pub open spec fn raster_spec(src: Bitmap, mode: ImageMode, pw: int) -> Seq<u8> {
    raster_px(src.pixels@, src.width as int, src.height as int, mode, pw)
}

/// The command bytes that print an image of `w` by `h` pixels.
pub open spec fn raster_px(spx: Seq<u8>, w: int, sh: int, mode: ImageMode, pw: int) -> Seq<u8> {
    let h = raster_height(mode, pw, w, sh);
    let px = resized_px(spx, w, sh, pw, h);
    command_bytes(Command::NoLine) + raster_lines(px, pw, h, mode, line_count(mode, h))
        + command_bytes(Command::ResetLine) + command_bytes(Command::Reset)
}

/// Whether the pixel at row `y`, column `x` is printed.
fn ink_at(img: &Bitmap, y: u32, x: u32) -> (r: bool)
    requires
        img.wf(),
        y < img.height,
        x < img.width,
    ensures
        r == ink(img.pixels@, img.width as int, y as int, x as int),
{
    proof {
        assert((y as int) * (img.width as int) + (x as int) < (img.width as int) * (img.height as int)) by (nonlinear_arith)
            requires y < img.height, x < img.width;
        assert(4 * (img.width as int) * (img.height as int) == 4 * ((img.width as int) * (img.height as int))) by (nonlinear_arith);
        assert((y as int) * (img.width as int) <= (y as int) * (img.width as int) + (x as int));
    }
    let len = img.pixels.len();
    assert(len as int <= u64::MAX);
    let i: u64 = 4 * ((y as u64) * (img.width as u64) + (x as u64));
    assert(i + 3 < len);
    let i: usize = i as usize;
    let r = img.pixels[i] as u32;
    let g = img.pixels[i + 1] as u32;
    let b = img.pixels[i + 2] as u32;
    let a = img.pixels[i + 3];
    a > 64 && 2126 * r + 7152 * g + 722 * b < 780000
}

/// The byte of column `x` in band `b`.
fn band_byte_at(img: &Bitmap, b: u64, x: u32) -> (r: u8)
    requires
        img.wf(),
        x < img.width,
        b <= 0x100_0000_0000,
    ensures
        r == band_byte(img.pixels@, img.width as int, img.height as int, b as int, x as int),
{
    let mut acc: u32 = 0;
    let mut k: u32 = 0;
    while k < 8
        invariant
            k <= 8,
            b <= 0x100_0000_0000,
            img.wf(),
            x < img.width,
            acc as int == band_bits(img.pixels@, img.width as int, img.height as int, b as int, x as int, k as int),
            acc < pow2k(k as int),
        decreases 8 - k,
    {
        let y: u64 = 8 * b + k as u64;
        let bit: u32 = if y < img.height as u64 && ink_at(img, y as u32, x) { 1 } else { 0 };
        proof {
            lemma_band_bits_bound(img.pixels@, img.width as int, img.height as int, b as int, x as int, k as int);
            lemma_pow2k_bound(k as int);
        }
        acc = 2 * acc + bit;
        k = k + 1;
    }
    proof {
        reveal_with_fuel(pow2k, 9);
    }
    assert(pow2k(8) == 256);
    acc as u8
}

/// Appends raster line `c` of `img`.
fn push_raster_line(out: &mut Vec<u8>, img: &Bitmap, mode: ImageMode, c: u64)
    requires
        img.wf(),
        c <= 0x10_0000_0000,
    ensures
        final(out)@ == old(out)@ + if is_24_dot(mode) {
            line24(img.pixels@, img.width as int, img.height as int, mode, c as int)
        } else {
            line8(img.pixels@, img.width as int, img.height as int, mode, c as int)
        },
{
    let ghost o = out@;
    let w = img.width;
    let ghost px = img.pixels@;
    let ghost wi = img.width as int;
    let ghost hi = img.height as int;
    let mut head = Command::Bitmap.as_bytes();
    out.append(&mut head);
    out.push(mode.as_byte());
    out.push((w % 256) as u8);
    out.push((w / 256) as u8);
    let ghost start = out@;
    let is24 = match mode {
        ImageMode::TwentyfourDotSingleDensity | ImageMode::TwentyfourDotDoubleDensity => true,
        _ => false,
    };
    let mut x: u32 = 0;
    while x < w
        invariant
            img.wf(),
            w == img.width,
            x <= w,
            is24 == is_24_dot(mode),
            px == img.pixels@,
            wi == img.width as int,
            hi == img.height as int,
            c <= 0x10_0000_0000,
            is24 ==> out@ == start + Seq::new((3 * x) as nat, |i: int| band_byte(px, wi, hi, 3 * c + i % 3, i / 3)),
            !is24 ==> out@ == start + Seq::new(x as nat, |i: int| band_byte(px, wi, hi, c as int, i)),
        decreases w - x,
    {
        if is24 {
            let b0 = band_byte_at(img, 3 * c, x);
            let b1 = band_byte_at(img, 3 * c + 1, x);
            let b2 = band_byte_at(img, 3 * c + 2, x);
            out.push(b0);
            out.push(b1);
            out.push(b2);
            proof {
                let f = |i: int| band_byte(px, wi, hi, 3 * c + i % 3, i / 3);
                assert(Seq::new((3 * x + 3) as nat, f) =~= Seq::new((3 * x) as nat, f).push(b0).push(b1).push(b2)) by {
                    assert forall|i: int| 3 * x <= i < 3 * x + 3 implies #[trigger] f(i) == (if i == 3 * x { b0 } else if i == 3 * x + 1 { b1 } else { b2 }) by {
                        assert(i / 3 == x as int && i % 3 == i - 3 * x) by (nonlinear_arith)
                            requires 3 * x <= i < 3 * x + 3;
                    }
                }
            }
        } else {
            let b0 = band_byte_at(img, c, x);
            out.push(b0);
            assert(Seq::new((x + 1) as nat, |i: int| band_byte(px, wi, hi, c as int, i)) =~= Seq::new(x as nat, |i: int| band_byte(px, wi, hi, c as int, i)).push(b0));
        }
        x = x + 1;
    }
    out.push(10u8);
    proof {
        if is24 {
            assert(out@ =~= o + line24(px, wi, hi, mode, c as int));
        } else {
            assert(out@ =~= o + line8(px, wi, hi, mode, c as int));
        }
    }
}

/// The printed height at printer width `pw`.
fn raster_height_exec(mode: ImageMode, pw: u16, iw: u32, ih: u32) -> (r: u32)
    ensures
        r as int == raster_height(mode, pw as int, iw as int, ih as int),
        4 * (pw as int) * (r as int) <= usize::MAX,
{
    let k: u64 = match mode {
        ImageMode::EightDotSingleDensity => 2,
        ImageMode::EightDotDoubleDensity => 1,
        ImageMode::TwentyfourDotSingleDensity => 6,
        ImageMode::TwentyfourDotDoubleDensity => 3,
    };
    let limit: u64 = if pw == 0 || (u32::MAX as usize) <= usize::MAX / (4 * (pw as usize)) {
        u32::MAX as u64
    } else {
        (usize::MAX / (4 * (pw as usize))) as u64
    };
    proof {
        if pw > 0 {
            let d = 4 * (pw as int);
            assert(d * (usize::MAX as int / d) <= usize::MAX) by (nonlinear_arith)
                requires d > 0;
            assert(limit <= usize::MAX as int / d ==> 4 * (pw as int) * (limit as int) <= usize::MAX) by (nonlinear_arith)
                requires d > 0, d == 4 * (pw as int), d * (usize::MAX as int / d) <= usize::MAX, limit >= 0;
        }
    }
    if iw == 0 {
        return 0;
    }
    proof {
        assert((pw as int) * (k as int) <= 65535 * 6) by (nonlinear_arith)
            requires pw <= 65535, k <= 6;
        assert((pw as int) * (k as int) * (ih as int) <= 65535 * 6 * 0xffff_ffff) by (nonlinear_arith)
            requires pw <= 65535, k <= 6, ih <= 0xffff_ffff;
    }
    let pk: u64 = (pw as u64) * k;
    let n: u64 = (pk * (ih as u64)) / (2 * (iw as u64));
    proof {
        if pw == 0 {
            assert(pk == 0);
            assert((pk as int) * (ih as int) == 0) by (nonlinear_arith)
                requires pk == 0;
            assert(n == 0);
        }
    }
    if n > limit { limit as u32 } else {
        proof {
            if pw > 0 {
                assert(4 * (pw as int) * (n as int) <= 4 * (pw as int) * (limit as int)) by (nonlinear_arith)
                    requires n <= limit, pw > 0;
            }
        }
        n as u32
    }
}

/// The command bytes that print `src` at printer width `pw` in `mode`.
pub fn rasterize(src: &Bitmap, mode: ImageMode, pw: u16) -> (r: Vec<u8>)
    requires
        src.wf(),
    ensures
        r@ == raster_spec(*src, mode, pw as int),
{
    let h = raster_height_exec(mode, pw, src.width, src.height);
    let img = resize(src, pw as u32, h);
    let mut out = Command::NoLine.as_bytes();
    let ghost start = out@;
    let bands: u64 = (h as u64 + 7) / 8;
    let n: u64 = match mode {
        ImageMode::TwentyfourDotSingleDensity | ImageMode::TwentyfourDotDoubleDensity => bands / 3,
        _ => bands,
    };
    let mut c: u64 = 0;
    while c < n
        invariant
            img.wf(),
            img.height == h,
            n <= 0x1_0000_0000,
            n as int == line_count(mode, h as int),
            c <= n,
            out@ == start + raster_lines(img.pixels@, img.width as int, h as int, mode, c as int),
        decreases n - c,
    {
        push_raster_line(&mut out, &img, mode, c);
        c = c + 1;
    }
    let mut tail = Command::ResetLine.as_bytes();
    out.append(&mut tail);
    let mut tail2 = Command::Reset.as_bytes();
    out.append(&mut tail2);
    out
}

/// Width and height of an image scaled to `scale / 255` of its width, keeping its aspect ratio.
pub open spec fn scaled_size(iw: int, ih: int, scale: int) -> (int, int) {
    (iw * scale / 255, if iw == 0 { 0 } else { scale * ih / 255 })
}

/// Column at which the scaled image is laid over a canvas as wide as the unscaled image.
pub open spec fn justified_offset(j: Justification, iw: int, sw: int) -> int {
    match j {
        Justification::Left => 0,
        Justification::Center => (iw - sw) / 2,
        Justification::Right => iw - sw,
    }
}

/// The pixels of `src` scaled and laid over a transparent canvas of its own width.
pub open spec fn composed(src: Bitmap, scale: int, j: Justification) -> Seq<u8> {
    composed_px(src.pixels@, src.width as int, src.height as int, scale, j)
}

pub open spec fn composed_px(px: Seq<u8>, w: int, h: int, scale: int, j: Justification) -> Seq<u8> {
    let (sw, sh) = scaled_size(w, h, scale);
    overlaid(
        Seq::new((4 * w * sh) as nat, |i: int| 0u8),
        w,
        sh,
        resized_px(px, w, h, sw, sh),
        sw,
        sh,
        justified_offset(j, w, sw),
    )
}

/// `src` scaled to `scale / 255` of its width and justified on a transparent
/// canvas of its own width.
pub fn compose(src: Bitmap, scale: u8, justification: Justification) -> (r: Bitmap)
    requires
        src.wf(),
    ensures
        r.wf(),
        r.width == src.width,
        r.height == scaled_size(src.width as int, src.height as int, scale as int).1,
        r.pixels@ == composed(src, scale as int, justification),
        forall|i: int| 0 <= i < r.pixels@.len() && !covered(i, src.width as int,
            justified_offset(justification, src.width as int, scaled_size(src.width as int, src.height as int, scale as int).0),
            scaled_size(src.width as int, src.height as int, scale as int).0,
            scaled_size(src.width as int, src.height as int, scale as int).1) ==> #[trigger] r.pixels@[i] == 0,
{
    let iw = src.width;
    let ih = src.height;
    proof {
        assert((iw as int) * (scale as int) / 255 <= iw as int) by (nonlinear_arith)
            requires scale <= 255, iw >= 0;
        assert((scale as int) * (ih as int) / 255 <= ih as int) by (nonlinear_arith)
            requires scale <= 255, ih >= 0;
        assert((iw as int) * (scale as int) <= 0xffff_ffff * 255) by (nonlinear_arith)
            requires scale <= 255, iw <= 0xffff_ffff;
        assert((scale as int) * (ih as int) <= 0xffff_ffff * 255) by (nonlinear_arith)
            requires scale <= 255, ih <= 0xffff_ffff;
    }
    let len = src.pixels.len();
    let sw: u32 = ((iw as u64) * (scale as u64) / 255) as u32;
    let sh: u32 = if iw == 0 { 0 } else { ((scale as u64) * (ih as u64) / 255) as u32 };
    assert((sw as int, sh as int) == scaled_size(iw as int, ih as int, scale as int));
    proof {
        assert(4 * (iw as int) * (sh as int) <= 4 * (iw as int) * (ih as int)) by (nonlinear_arith)
            requires sh <= ih;
        assert(4 * (sw as int) * (sh as int) <= 4 * (iw as int) * (sh as int)) by (nonlinear_arith)
            requires sw <= iw;
    }
    let resized_img = resize(&src, sw, sh);
    let x: u32 = match justification {
        Justification::Left => 0,
        Justification::Center => (iw - sw) / 2,
        Justification::Right => iw - sw,
    };
    let back = transparent(iw, sh);
    let px = overlay_raw(&back, &resized_img, x);
    let bitmap = Bitmap { width: iw, height: sh, pixels: px };
    assert(x as int == justified_offset(justification, iw as int, sw as int));
    assert(back.pixels@ =~= Seq::new((4 * src.width * sh) as nat, |i: int| 0u8));
    assert(bitmap.pixels@ == composed(src, scale as int, justification));
    bitmap
}


/// Whether an image file can be taken at `scale`: it decodes and its scaled
/// image is not empty.
pub open spec fn takes_image(bytes: Seq<u8>, scale: int) -> bool {
    &&& loadable(bytes)
    &&& decoded_image(bytes)->Some_0.0 > 0
    &&& scaled_size(decoded_image(bytes)->Some_0.0, decoded_image(bytes)->Some_0.1, scale).1 > 0
}

/// Whether the decoded bytes of a persisted image can be restored.
pub open spec fn restorable(bytes: Seq<u8>) -> bool {
    takes_image(bytes, 255)
}

/// The pixels of an image file scaled and justified.
pub open spec fn taken_pixels(bytes: Seq<u8>, scale: int, j: Justification) -> Seq<u8> {
    let (w, h, px) = decoded_image(bytes)->Some_0;
    composed_px(px, w, h, scale, j)
}

/// The pixels of a restored image.
pub open spec fn restored_pixels(bytes: Seq<u8>) -> Seq<u8> {
    taken_pixels(bytes, 255, Justification::Left)
}

/// A copy of the bytes.
pub fn copy_bytes(v: &Vec<u8>) -> (r: Vec<u8>)
    ensures
        r@ == v@,
{
    let mut r: Vec<u8> = Vec::new();
    let mut i: usize = 0;
    while i < v.len()
        invariant
            i <= v.len(),
            r@ == v@.subrange(0, i as int),
        decreases v.len() - i,
    {
        r.push(v[i]);
        i = i + 1;
        assert(v@.subrange(0, i as int) =~= v@.subrange(0, i - 1).push(v@[i - 1]));
    }
    assert(v@.subrange(0, v.len() as int) =~= v@);
    r
}

/// A bitmap with the printed feeds computed so far, per printer width and mode.
#[derive(Debug)]
pub struct EscposImage {
    source: String,
    bitmap: Bitmap,
    cache: Vec<(u16, ImageMode, Vec<u8>)>,
}

impl Clone for EscposImage {
    fn clone(&self) -> (r: EscposImage)
        ensures
            r.spec_bitmap().width == self.spec_bitmap().width,
            r.spec_bitmap().height == self.spec_bitmap().height,
            r.spec_bitmap().pixels@ == self.spec_bitmap().pixels@,
            r.spec_source() == self.spec_source(),
            same_image(r, *self),
    {
        proof {
            use_type_invariant(self);
        }
        let bitmap = Bitmap { width: self.bitmap.width, height: self.bitmap.height, pixels: copy_bytes(&self.bitmap.pixels) };
        let mut cache: Vec<(u16, ImageMode, Vec<u8>)> = Vec::new();
        let mut i: usize = 0;
        while i < self.cache.len()
            invariant
                i <= self.cache.len(),
                self.wf(),
                bitmap.wf(),
                bitmap.width == self.bitmap.width,
                bitmap.height == self.bitmap.height,
                bitmap.pixels@ == self.bitmap.pixels@,
                cache@.len() == i,
                forall|j: int| 0 <= j < i ==> (#[trigger] cache@[j]).0 == self.cache@[j].0 && cache@[j].1 == self.cache@[j].1
                    && cache@[j].2@ == self.cache@[j].2@,
            decreases self.cache.len() - i,
        {
            cache.push((self.cache[i].0, self.cache[i].1, copy_bytes(&self.cache[i].2)));
            i = i + 1;
        }
        assert forall|m: ImageMode, w: int| raster_spec(bitmap, m, w) == raster_spec(self.bitmap, m, w) by {}
        assert(cache_keys(cache@) =~= cache_keys(self.cache@));
        EscposImage { source: self.source.clone(), bitmap, cache }
    }
}

/// Two images with the same bitmap, source and cache contents.
pub open spec fn same_image(a: EscposImage, b: EscposImage) -> bool {
    &&& a.spec_bitmap().width == b.spec_bitmap().width
    &&& a.spec_bitmap().height == b.spec_bitmap().height
    &&& a.spec_bitmap().pixels@ == b.spec_bitmap().pixels@
    &&& a.spec_source() == b.spec_source()
    &&& cache_keys(a.spec_cache()) == cache_keys(b.spec_cache())
    &&& forall|i: int| 0 <= i < a.spec_cache().len() ==> (#[trigger] a.spec_cache()[i]).2@ == b.spec_cache()[i].2@
}

/// The keys of cache entries.
pub open spec fn cache_keys(c: Seq<(u16, ImageMode, Vec<u8>)>) -> Seq<(u16, ImageMode)> {
    c.map_values(|e: (u16, ImageMode, Vec<u8>)| (e.0, e.1))
}

/// The bytes cached for a key: the last entry for it wins.
pub open spec fn cached_entry(c: Seq<(u16, ImageMode, Vec<u8>)>, w: u16, m: ImageMode) -> Option<Seq<u8>>
    decreases c.len(),
{
    if c.len() == 0 {
        None
    } else if c.last().0 == w && c.last().1 == m {
        Some(c.last().2@)
    } else {
        cached_entry(c.drop_last(), w, m)
    }
}

impl EscposImage {
    pub closed spec fn spec_bitmap(&self) -> Bitmap {
        self.bitmap
    }

    pub closed spec fn spec_cache(&self) -> Seq<(u16, ImageMode, Vec<u8>)> {
        self.cache@
    }

    pub closed spec fn spec_source(&self) -> Seq<char> {
        self.source@
    }

    /// Holds of every image.
    #[verifier::type_invariant]
    spec fn inv(self) -> bool {
        self.wf()
    }

    /// The bitmap is well formed and every cache entry holds the raster of its key.
    pub closed spec fn wf(&self) -> bool {
        &&& self.bitmap.wf()
        &&& forall|i: int| 0 <= i < self.cache@.len() ==> (#[trigger] self.cache@[i]).2@ == raster_spec(self.bitmap, self.cache@[i].1, self.cache@[i].0 as int)
    }

    /// The image scaled to `scale / 255` of its width and justified within that
    /// width; its PNG file in base64 is kept as the persisted source.
    pub fn new(src: Bitmap, scale: u8, justification: Justification) -> (r: Result<EscposImage, Error>)
        requires
            src.wf(),
        ensures
            r is Ok <==> src.width > 0 && scaled_size(src.width as int, src.height as int, scale as int).1 > 0,
            r matches Ok(img) ==> img.wf() && img.spec_cache().len() == 0
                && img.spec_bitmap().width == src.width
                && img.spec_bitmap().height == scaled_size(src.width as int, src.height as int, scale as int).1
                && img.spec_bitmap().pixels@ == composed(src, scale as int, justification)
                && img.spec_source() == base64_of(png_of(img.spec_bitmap().pixels@, src.width as int, img.spec_bitmap().height as int)),
            r matches Ok(img) ==> forall|i: int| 0 <= i < img.spec_bitmap().pixels@.len() && !covered(i, src.width as int,
                justified_offset(justification, src.width as int, scaled_size(src.width as int, src.height as int, scale as int).0),
                scaled_size(src.width as int, src.height as int, scale as int).0,
                scaled_size(src.width as int, src.height as int, scale as int).1) ==> #[trigger] img.spec_bitmap().pixels@[i] == 0,
            r matches Err(e) ==> e is ImageError,
    {
        let bitmap = compose(src, scale, justification);
        match encode_png(&bitmap) {
            Ok(png) => {
                let source = base64_encode(&png);
                Ok(EscposImage { source, bitmap, cache: Vec::new() })
            },
            Err(e) => Err(Error::ImageError(e)),
        }
    }

    /// Whether the feed for `width` and `mode` is already computed.
    pub fn is_cached(&self, image_mode: ImageMode, width: u16) -> (r: bool)
        ensures
            r == (cached_entry(self.spec_cache(), width, image_mode) is Some),
    {
        match self.find_cached(image_mode, width) {
            Some(_) => true,
            None => false,
        }
    }

    fn find_cached(&self, image_mode: ImageMode, width: u16) -> (r: Option<usize>)
        ensures
            r is None <==> cached_entry(self.spec_cache(), width, image_mode) is None,
            r matches Some(i) ==> i < self.cache@.len() && cached_entry(self.spec_cache(), width, image_mode) == Some(self.cache@[i as int].2@)
                && self.cache@[i as int].0 == width && self.cache@[i as int].1 == image_mode,
    {
        let mut i: usize = self.cache.len();
        assert(self.cache@.subrange(0, i as int) =~= self.cache@);
        while i > 0
            invariant
                i <= self.cache.len(),
                cached_entry(self.cache@, width, image_mode) == cached_entry(self.cache@.subrange(0, i as int), width, image_mode),
            decreases i,
        {
            assert(self.cache@.subrange(0, i as int).drop_last() =~= self.cache@.subrange(0, i - 1));
            if self.cache[i - 1].0 == width && self.cache[i - 1].1 == image_mode {
                return Some(i - 1);
            }
            i = i - 1;
        }
        None
    }

    /// Computes and keeps the feed for `width` and `mode`.
    pub fn cache_for(&mut self, image_mode: ImageMode, width: u16)
        ensures
            final(self).wf(),
            final(self).spec_bitmap() == old(self).spec_bitmap(),
            final(self).spec_source() == old(self).spec_source(),
            cache_keys(final(self).spec_cache()) == cache_keys(old(self).spec_cache()).push((width, image_mode)),
            cached_entry(final(self).spec_cache(), width, image_mode) == Some(raster_spec(old(self).spec_bitmap(), image_mode, width as int)),
    {
        let mut current = EscposImage {
            source: String::new(),
            bitmap: Bitmap { width: 0, height: 0, pixels: Vec::new() },
            cache: Vec::new(),
        };
        std::mem::swap(&mut current, self);
        proof {
            use_type_invariant(&current);
        }
        let feed = rasterize(&current.bitmap, image_mode, width);
        let EscposImage { source, bitmap, mut cache } = current;
        let ghost before = cache@;
        cache.push((width, image_mode, feed));
        assert(cache_keys(cache@) =~= cache_keys(before).push((width, image_mode)));
        *self = EscposImage { source, bitmap, cache };
    }

    /// The feed for `width` and `mode`: the cached bytes where present, else computed now.
    pub fn feed(&self, image_mode: ImageMode, width: u16) -> (r: Vec<u8>)
        ensures
            r@ == raster_spec(self.spec_bitmap(), image_mode, width as int),
            cached_entry(self.spec_cache(), width, image_mode) matches Some(v) ==> r@ == v,
    {
        self.feed_traced(image_mode, width).0
    }

    /// The feed for `width` and `mode`, and whether it had to be rasterized now:
    /// exactly when the key is not cached, so a caller can report the cost.
    pub fn feed_traced(&self, image_mode: ImageMode, width: u16) -> (r: (Vec<u8>, bool))
        ensures
            r.0@ == raster_spec(self.spec_bitmap(), image_mode, width as int),
            cached_entry(self.spec_cache(), width, image_mode) matches Some(v) ==> r.0@ == v,
            r.1 == (cached_entry(self.spec_cache(), width, image_mode) is None),
    {
        proof {
            use_type_invariant(self);
            lemma_cached_feed_is_raster(*self, width, image_mode);
        }
        match self.find_cached(image_mode, width) {
            Some(i) => (copy_bytes(&self.cache[i].2), false),
            None => (rasterize(&self.bitmap, image_mode, width), true),
        }
    }

    /// The persisted form: the base64 PNG source and the cached keys, in order.
    pub fn to_persisted(&self) -> (r: (String, Vec<(u16, ImageMode)>))
        ensures
            r.0@ == self.spec_source(),
            r.1@ == cache_keys(self.spec_cache()),
    {
        let mut keys: Vec<(u16, ImageMode)> = Vec::new();
        let mut i: usize = 0;
        while i < self.cache.len()
            invariant
                i <= self.cache.len(),
                keys@ == cache_keys(self.cache@.subrange(0, i as int)),
            decreases self.cache.len() - i,
        {
            keys.push((self.cache[i].0, self.cache[i].1));
            i = i + 1;
            assert(cache_keys(self.cache@.subrange(0, i as int)) =~= cache_keys(self.cache@.subrange(0, i - 1)).push((self.cache@[i - 1].0, self.cache@[i - 1].1)));
        }
        assert(self.cache@.subrange(0, self.cache.len() as int) =~= self.cache@);
        (self.source.clone(), keys)
    }

    /// Rebuilds an image from its persisted form: decodes the source and
    /// computes the feed of every listed key again.
    pub fn from_persisted(source: &str, keys: &Vec<(u16, ImageMode)>) -> (r: Result<EscposImage, Error>)
        ensures
            (r matches Err(e) && e is InvalidBase64) <==> !(exists|b: Seq<u8>| #[trigger] base64_of(b) == source@),
            forall|b: Seq<u8>| #[trigger] base64_of(b) == source@ ==> {
                &&& (r is Ok <==> restorable(b))
                &&& (r matches Ok(img) ==> img.spec_bitmap().pixels@ == restored_pixels(b))
            },
            r matches Ok(img) ==> img.wf() && cache_keys(img.spec_cache()) == keys@,
            r matches Err(e) ==> e is InvalidBase64 || e is ImageError,
    {
        let bytes = match base64_decode(source) {
            Some(b) => b,
            None => {
                return Err(Error::InvalidBase64);
            },
        };
        let bitmap = match decode_bitmap(&bytes) {
            Ok(b) => b,
            Err(e) => {
                return Err(e);
            },
        };
        let mut img = match EscposImage::new(bitmap, 255, Justification::Left) {
            Ok(i) => i,
            Err(e) => {
                return Err(e);
            },
        };
        let ghost bm = img.spec_bitmap();
        let mut i: usize = 0;
        while i < keys.len()
            invariant
                i <= keys.len(),
                img.wf(),
                img.spec_bitmap() == bm,
                cache_keys(img.spec_cache()) == keys@.subrange(0, i as int),
            decreases keys.len() - i,
        {
            img.cache_for(keys[i].1, keys[i].0);
            i = i + 1;
            assert(keys@.subrange(0, i as int) =~= keys@.subrange(0, i - 1).push(keys@[i - 1]));
        }
        assert(keys@.subrange(0, keys.len() as int) =~= keys@);
        Ok(img)
    }
}

/// Every cached feed is the raster of its key: feeding a cached key gives
/// the same bytes as rasterizing again, however often it is asked.
pub proof fn lemma_cached_feed_is_raster(img: EscposImage, width: u16, mode: ImageMode)
    requires
        img.wf(),
    ensures
        cached_entry(img.spec_cache(), width, mode) matches Some(v) ==> v == raster_spec(img.spec_bitmap(), mode, width as int),
{
    let c = img.spec_cache();
    assert forall|n: int| 0 <= n <= c.len() implies (cached_entry(#[trigger] c.subrange(0, n), width, mode) matches Some(v) ==> v == raster_spec(img.spec_bitmap(), mode, width as int)) by {
        lemma_cached_prefix(img, width, mode, n);
    }
    assert(c.subrange(0, c.len() as int) =~= c);
}

proof fn lemma_cached_prefix(img: EscposImage, width: u16, mode: ImageMode, n: int)
    requires
        img.wf(),
        0 <= n <= img.spec_cache().len(),
    ensures
        cached_entry(img.spec_cache().subrange(0, n), width, mode) matches Some(v) ==> v == raster_spec(img.spec_bitmap(), mode, width as int),
    decreases n,
{
    let c = img.spec_cache();
    if n > 0 {
        assert(c.subrange(0, n).drop_last() =~= c.subrange(0, n - 1));
        assert(c.subrange(0, n).last() == c[n - 1]);
        lemma_cached_prefix(img, width, mode, n - 1);
    }
}

/// Restoring a persisted image lists the same keys in its cache as were
/// persisted, each holding the raster of the restored bitmap.
pub proof fn lemma_restored_cache(keys: Seq<(u16, ImageMode)>, restored: EscposImage, width: u16, mode: ImageMode)
    requires
        restored.wf(),
        cache_keys(restored.spec_cache()) == keys,
        keys.contains((width, mode)),
    ensures
        cached_entry(restored.spec_cache(), width, mode) == Some(raster_spec(restored.spec_bitmap(), mode, width as int)),
{
    let c = restored.spec_cache();
    let i = choose|i: int| 0 <= i < keys.len() && keys[i] == (width, mode);
    assert(cache_keys(c)[i] == (c[i].0, c[i].1));
    lemma_entry_found(c, width, mode, i);
    lemma_cached_feed_is_raster(restored, width, mode);
}

proof fn lemma_entry_found(c: Seq<(u16, ImageMode, Vec<u8>)>, width: u16, mode: ImageMode, i: int)
    requires
        0 <= i < c.len(),
        c[i].0 == width && c[i].1 == mode,
    ensures
        cached_entry(c, width, mode) is Some,
    decreases c.len(),
{
    if !(c.last().0 == width && c.last().1 == mode) {
        assert(i < c.len() - 1);
        assert(c.drop_last()[i] == c[i]);
        lemma_entry_found(c.drop_last(), width, mode, i);
    }
}

} // verus!

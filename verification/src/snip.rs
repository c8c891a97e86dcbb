//! Screenshot translation: the selected region, its fit to the captured
//! screen, the size limit for the vision model, and the base64 text of the
//! encoded image.
use vstd::prelude::*;

use base64::Engine;



verus! {

/// Where the overlay was opened: the origin (global physical coordinates) of
/// the monitor it covers, kept until the selection is captured.
pub struct SnipState(pub std::sync::Mutex<Option<(i32, i32)>>);

/// Selections narrower or lower than this (in pixels) are ignored as slips.
pub const MIN_SELECTION: u32 = 5;

/// Images larger than this on either side are scaled down for the vision model.
pub const MAX_IMAGE_DIM: u32 = 2048;

/// Error when the selection lies outside the captured screen.
pub const SELECTION_OFF_SCREEN: &'static str = "选区超出屏幕范围";

/// A region of pixels: left, top, width, height.
pub type Region = (u32, u32, u32, u32);

/// Whether a selection of this size is too small to capture.
pub fn selection_too_small(width: u32, height: u32) -> (r: bool)
    ensures
        r == (width < MIN_SELECTION || height < MIN_SELECTION),
{
    width < MIN_SELECTION || height < MIN_SELECTION
}

/// The selection fitted to a captured image of `iw` by `ih` pixels: its corner
/// moved inside the image and its size cut to what remains; `None` when that
/// leaves less than the minimum.
pub open spec fn spec_fit_region(region: Region, iw: u32, ih: u32) -> Option<Region> {
    let x: u32 = if region.0 < iw { region.0 } else if iw > 0 { (iw - 1) as u32 } else { 0 };
    let y: u32 = if region.1 < ih { region.1 } else if ih > 0 { (ih - 1) as u32 } else { 0 };
    let w: u32 = if region.2 < iw - x { region.2 } else { (iw - x) as u32 };
    let h: u32 = if region.3 < ih - y { region.3 } else { (ih - y) as u32 };
    if w < MIN_SELECTION || h < MIN_SELECTION {
        None
    } else {
        Some((x, y, w, h))
    }
}

/// Fits the selection to the captured image; refuses what falls off the screen.
pub fn fit_region(region: Region, iw: u32, ih: u32) -> (r: Result<Region, String>)
    ensures
        match spec_fit_region(region, iw, ih) {
            Some(fitted) => r == Ok::<Region, String>(fitted),
            None => r is Err && r->Err_0@ == SELECTION_OFF_SCREEN@,
        },
        r matches Ok(f) ==> f.0 + f.2 <= iw && f.1 + f.3 <= ih,
{
    let max_x = if iw > 0 { iw - 1 } else { 0 };
    let max_y = if ih > 0 { ih - 1 } else { 0 };
    let x = if region.0 < max_x { region.0 } else { max_x };
    let y = if region.1 < max_y { region.1 } else { max_y };
    let w = if region.2 < iw - x { region.2 } else { iw - x };
    let h = if region.3 < ih - y { region.3 } else { ih - y };
    if w < MIN_SELECTION || h < MIN_SELECTION {
        Err(String::from_str(SELECTION_OFF_SCREEN))
    } else {
        Ok((x, y, w, h))
    }
}

/// Whether an image of this size must be scaled down first.
pub fn needs_downscale(width: u32, height: u32) -> (r: bool)
    ensures
        r == (width > MAX_IMAGE_DIM || height > MAX_IMAGE_DIM),
{
    width > MAX_IMAGE_DIM || height > MAX_IMAGE_DIM
}

/// The base64 digit for a six-bit value, in the standard alphabet.
pub open spec fn base64_digit(v: int) -> char {
    if v < 26 {
        (65 + v) as char
    } else if v < 52 {
        (97 + v - 26) as char
    } else if v < 62 {
        (48 + v - 52) as char
    } else if v == 62 {
        '+'
    } else {
        '/'
    }
}

/// Standard base64 (RFC 4648, with `=` padding) of `b`.
pub open spec fn base64_standard(b: Seq<u8>) -> Seq<char>
    decreases b.len(),
{
    if b.len() == 0 {
        Seq::<char>::empty()
    } else {
        let b0 = b[0] as int;
        let b1 = if b.len() > 1 { b[1] as int } else { 0 };
        let b2 = if b.len() > 2 { b[2] as int } else { 0 };
        let d0 = base64_digit(b0 / 4);
        let d1 = base64_digit((b0 % 4) * 16 + b1 / 16);
        let d2 = base64_digit((b1 % 16) * 4 + b2 / 64);
        let d3 = base64_digit(b2 % 64);
        if b.len() == 1 {
            seq![d0, d1, '=', '=']
        } else if b.len() == 2 {
            seq![d0, d1, d2, '=']
        } else {
            seq![d0, d1, d2, d3] + base64_standard(b.skip(3))
        }
    }
}

/// Calls `base64::engine::general_purpose::STANDARD.encode`: the standard
/// alphabet with `=` padding, every three bytes becoming four digits. It
/// panics when the encoded length overflows `usize`, which `requires` rules out.
#[verifier::external_body]
fn encode_base64(bytes: &[u8]) -> (r: String)
    requires
        bytes@.len() / 3 * 4 + 4 <= usize::MAX,
    ensures
        r@ == base64_standard(bytes@),
{
    base64::engine::general_purpose::STANDARD.encode(bytes)
}

/// The base64 text under which an encoded screenshot is sent.
pub fn screenshot_base64(png: &[u8]) -> (r: String)
    requires
        png@.len() / 3 * 4 + 4 <= usize::MAX,
    ensures
        r@ == base64_standard(png@),
{
    encode_base64(png)
}


/// The pixels of the `w` by `h` block at (`x`, `y`) of an RGBA image `iw`
/// pixels wide, row by row, four bytes per pixel.
pub open spec fn cropped_pixels(rgba: Seq<u8>, iw: int, x: int, y: int, w: int, h: int) -> Seq<u8> {
    Seq::new(
        (w * h * 4) as nat,
        |k: int| rgba[((y + (k / 4) / w) * iw + x + (k / 4) % w) * 4 + k % 4],
    )
}

/// Calls `image::imageops::crop_imm` on the RGBA image held in `rgba` (built
/// with `image::RgbaImage::from_raw`) and copies the block out with
/// `to_image`: the pixels of the block, row by row.
#[verifier::external_body]
fn crop_rgba(rgba: &[u8], iw: u32, ih: u32, region: Region) -> (r: Vec<u8>)
    requires
        rgba@.len() == iw * ih * 4,
        region.0 + region.2 <= iw,
        region.1 + region.3 <= ih,
    ensures
        r@ == cropped_pixels(rgba@, iw as int, region.0 as int, region.1 as int, region.2 as int, region.3 as int),
{
    let img = image::RgbaImage::from_raw(iw, ih, rgba.to_vec()).unwrap();
    image::imageops::crop_imm(&img, region.0, region.1, region.2, region.3).to_image().into_raw()
}

/// Fits the selection to a captured RGBA screen of `iw` by `ih` pixels and
/// cuts that block out; gives the pixels with their width and height.
pub fn crop_selection(rgba: &[u8], iw: u32, ih: u32, selection: Region) -> (r: Result<
    (Vec<u8>, u32, u32),
    String,
>)
    requires
        rgba@.len() == iw * ih * 4,
    ensures
        match spec_fit_region(selection, iw, ih) {
            Some(f) => r matches Ok((px, w, h)) && w == f.2 && h == f.3 && px@ == cropped_pixels(
                rgba@,
                iw as int,
                f.0 as int,
                f.1 as int,
                f.2 as int,
                f.3 as int,
            ),
            None => r is Err && r->Err_0@ == SELECTION_OFF_SCREEN@,
        },
{
    let f = fit_region(selection, iw, ih)?;
    let px = crop_rgba(rgba, iw, ih, f);
    Ok((px, f.2, f.3))
}

/// What `image::imageops::resize` with the `Triangle` filter makes of a `w` by
/// `h` RGBA image at `nw` by `nh`: a function of its arguments alone.
pub uninterp spec fn triangle_resized(rgba: Seq<u8>, w: u32, h: u32, nw: u32, nh: u32) -> Seq<u8>;

/// Calls `image::imageops::resize` with `FilterType::Triangle` on the RGBA
/// image in `rgba`; the pixels are taken to be `triangle_resized(..)`, an image
/// of `nw` by `nh` pixels. The filter's arithmetic is not restated here.
#[verifier::external_body]
fn resize_rgba(rgba: &[u8], w: u32, h: u32, nw: u32, nh: u32) -> (r: Vec<u8>)
    requires
        rgba@.len() == w * h * 4,
        nw * nh * 4 <= usize::MAX,
    ensures
        r@ == triangle_resized(rgba@, w, h, nw, nh),
        r@.len() == nw * nh * 4,
{
    let img = image::RgbaImage::from_raw(w, h, rgba.to_vec()).unwrap();
    image::imageops::resize(&img, nw, nh, image::imageops::FilterType::Triangle).into_raw()
}

/// Scales a selection that is too large for the vision model to `nw` by `nh`
/// pixels (the caller computes that size, keeping the aspect ratio, at least
/// one pixel each way).
pub fn downscale(rgba: &[u8], w: u32, h: u32, nw: u32, nh: u32) -> (r: Vec<u8>)
    requires
        rgba@.len() == w * h * 4,
        nw * nh * 4 <= usize::MAX,
    ensures
        r@ == triangle_resized(rgba@, w, h, nw, nh),
        r@.len() == nw * nh * 4,
{
    resize_rgba(rgba, w, h, nw, nh)
}

/// What encoding a `w` by `h` RGBA image as PNG with the `image` crate gives:
/// the file's bytes, or the encoder's error text; a function of the arguments.
pub uninterp spec fn png_encoding(rgba: Seq<u8>, w: u32, h: u32) -> Result<Seq<u8>, Seq<char>>;

/// Calls `image::DynamicImage::write_to` with `ImageFormat::Png` on the RGBA
/// image in `rgba`; the bytes (or the error's text) are taken to be
/// `png_encoding(rgba, w, h)`. The PNG encoder is not restated here.
#[verifier::external_body]
fn encode_png_bytes(rgba: &[u8], w: u32, h: u32) -> (r: Result<Vec<u8>, String>)
    requires
        rgba@.len() == w * h * 4,
    ensures
        match png_encoding(rgba@, w, h) {
            Ok(b) => r is Ok && r->Ok_0@ == b,
            Err(m) => r is Err && r->Err_0@ == m,
        },
{
    let img = image::RgbaImage::from_raw(w, h, rgba.to_vec()).unwrap();
    let mut png: Vec<u8> = Vec::new();
    match image::DynamicImage::ImageRgba8(img).write_to(
        &mut std::io::Cursor::new(&mut png),
        image::ImageFormat::Png,
    ) {
        Ok(()) => Ok(png),
        Err(e) => Err(e.to_string()),
    }
}

/// Prefix of the error when the screenshot cannot be encoded.
pub const ENCODE_FAILED: &'static str = "图片编码失败：";

/// Encodes the selection as a PNG file.
pub fn encode_png(rgba: &[u8], w: u32, h: u32) -> (r: Result<Vec<u8>, String>)
    requires
        rgba@.len() == w * h * 4,
    ensures
        match png_encoding(rgba@, w, h) {
            Ok(b) => r is Ok && r->Ok_0@ == b,
            Err(m) => r is Err && r->Err_0@ == ENCODE_FAILED@ + m,
        },
{
    match encode_png_bytes(rgba, w, h) {
        Ok(b) => Ok(b),
        Err(m) => Err(crate::config::prefixed(ENCODE_FAILED, m.as_str())),
    }
}

} // verus!

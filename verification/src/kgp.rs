//! Kitty graphics protocol: scaling an image to the cells it is shown in,
//! and framing it for the terminal. Reading the file and writing the frames
//! to the terminal are the caller's part.

use vstd::prelude::*;
use base64::Engine;
use image::ImageEncoder;
use crate::text::{chars_of, push_chars, push_str, slice_vec};

verus! {

/// Approximate pixel size of a terminal cell.
pub const CELL_PX_W: u32 = 8;
pub const CELL_PX_H: u32 = 16;

/// Characters of base64 payload per escape sequence.
pub const CHUNK: usize = 4096;

/// The length of standard padded base64 for `n` bytes.
pub open spec fn encoded_len(n: nat) -> int {
    (n / 3) * 4 + if n % 3 > 0 {
        4int
    } else {
        0int
    }
}

/// The character for a 6-bit value in the standard base64 alphabet
/// (RFC 4648: `A`-`Z`, `a`-`z`, `0`-`9`, `+`, `/`).
pub open spec fn b64_digit(v: int) -> char {
    if v < 26 {
        (65 + v) as char
    } else if v < 52 {
        (97 + v - 26) as char
    } else if v < 62 {
        (48 + v - 52) as char
    } else if v == 62 {
        '+'
    } else {
        '/'
    }
}

/// Standard base64 with `=` padding: each group of three bytes becomes four
/// characters of six bits each; a last group of one or two bytes is padded.
pub open spec fn base64_standard(bytes: Seq<u8>) -> Seq<char>
    decreases bytes.len(),
{
    if bytes.len() == 0 {
        Seq::empty()
    } else if bytes.len() == 1 {
        let b0 = bytes[0] as int;
        seq![b64_digit(b0 / 4), b64_digit((b0 % 4) * 16), '=', '=']
    } else if bytes.len() == 2 {
        let (b0, b1) = (bytes[0] as int, bytes[1] as int);
        seq![b64_digit(b0 / 4), b64_digit((b0 % 4) * 16 + b1 / 16), b64_digit((b1 % 16) * 4), '=']
    } else {
        let (b0, b1, b2) = (bytes[0] as int, bytes[1] as int, bytes[2] as int);
        seq![
            b64_digit(b0 / 4),
            b64_digit((b0 % 4) * 16 + b1 / 16),
            b64_digit((b1 % 16) * 4 + b2 / 64),
            b64_digit(b2 % 64),
        ] + base64_standard(bytes.skip(3))
    }
}

/// `base64::engine::general_purpose::STANDARD.encode`: the contract claims
/// it is the RFC 4648 standard encoding with padding. It panics when the
/// encoded length overflows `usize`, so such inputs are excluded.
#[verifier::external_body]
fn encode_standard(bytes: &[u8]) -> (r: String)
    requires
        encoded_len(bytes@.len()) <= usize::MAX,
    ensures
        r@ == base64_standard(bytes@),
{
    base64::engine::general_purpose::STANDARD.encode(bytes)
}

/// One escape sequence: the first carries the transmit-and-display command
/// (`a=T,f=100`), later ones only continue it; `m=1` while more follow.
pub open spec fn frame(first: bool, last: bool, chunk: Seq<char>) -> Seq<char> {
    let m = if last {
        "0"@
    } else {
        "1"@
    };
    if first {
        "\x1b_Ga=T,f=100,m="@ + m + ";"@ + chunk + "\x1b\\"@
    } else {
        "\x1b_Gm="@ + m + ";"@ + chunk + "\x1b\\"@
    }
}

/// The escape sequences carrying `b` from `pos` on, in chunks of 4096.
pub open spec fn frames_from(b: Seq<char>, pos: int) -> Seq<char>
    decreases b.len() - pos,
{
    if pos < 0 || pos >= b.len() {
        Seq::empty()
    } else {
        let end = if pos + CHUNK < b.len() {
            pos + CHUNK
        } else {
            b.len() as int
        };
        frame(pos == 0, end == b.len(), b.subrange(pos, end)) + frames_from(b, end)
    }
}

/// The bytes that make the terminal display the PNG image `png` at the
/// cursor: its base64, chunked into kitty graphics escape sequences.
pub fn kitty_payload(png: &[u8]) -> (r: String)
    requires
        encoded_len(png@.len()) <= usize::MAX,
    ensures
        r@ == frames_from(base64_standard(png@), 0),
{
    let b64 = encode_standard(png);
    let b = chars_of(b64.as_str());
    let n = b.len();
    let mut out = String::new();
    let mut pos: usize = 0;
    while pos < n
        invariant
            n == b@.len(),
            pos <= n,
            b@ == base64_standard(png@),
            out@ + frames_from(b@, pos as int) == frames_from(b@, 0),
        decreases n - pos,
    {
        let end = if CHUNK < n - pos {
            pos + CHUNK
        } else {
            n
        };
        let chunk = slice_vec(b.as_slice(), pos, end);
        let ghost before = out@;
        if pos == 0 {
            push_str(&mut out, "\x1b_Ga=T,f=100,m=");
        } else {
            push_str(&mut out, "\x1b_Gm=");
        }
        if end == n {
            push_str(&mut out, "0");
        } else {
            push_str(&mut out, "1");
        }
        push_str(&mut out, ";");
        push_chars(&mut out, chunk.as_slice());
        push_str(&mut out, "\x1b\\");
        proof {
            assert(out@ =~= before + frame(pos == 0, end == n, b@.subrange(pos as int, end as int)));
        }
        pos = end;
    }
    assert(out@ + frames_from(b@, pos as int) =~= out@);
    out
}

/// The pixel box that `cell_w` x `cell_h` cells cover.
pub open spec fn cell_box(cell_w: u16, cell_h: u16) -> (u32, u32) {
    ((cell_w * 8) as u32, (cell_h * 16) as u32)
}

/// The size to scale a `w` x `h` image to so it fits `cell_w` x `cell_h`
/// cells (keeping its aspect), or `None` when it already fits.
pub open spec fn fit_spec(w: u32, h: u32, cell_w: u16, cell_h: u16) -> Option<(u32, u32)> {
    let (mw, mh) = cell_box(cell_w, cell_h);
    if w <= mw && h <= mh {
        None
    } else {
        Some((if mw > 1 { mw } else { 1u32 }, if mh > 1 { mh } else { 1u32 }))
    }
}

/// The size to scale a `w` x `h` image to so it fits `cell_w` x `cell_h`
/// cells (keeping its aspect), or `None` when it already fits.
pub fn fit_box(w: u32, h: u32, cell_w: u16, cell_h: u16) -> (r: Option<(u32, u32)>)
    ensures
        r == fit_spec(w, h, cell_w, cell_h),
{
    let mw: u32 = (cell_w as u32) * CELL_PX_W;
    let mh: u32 = (cell_h as u32) * CELL_PX_H;
    if w <= mw && h <= mh {
        None
    } else {
        Some((if mw > 1 { mw } else { 1 }, if mh > 1 { mh } else { 1 }))
    }
}

/// What `image::load_from_memory` decodes from `bytes` (the format guessed
/// from the content), as RGBA8: width, height and pixel bytes; `None` when
/// the bytes are no image it can read.
pub uninterp spec fn decoded(bytes: Seq<u8>) -> Option<(u32, u32, Seq<u8>)>;

/// What `DynamicImage::resize` with the `Triangle` filter makes of the RGBA8
/// image `img` for the box `mw` x `mh` (aspect kept), as RGBA8.
pub uninterp spec fn scaled(img: (u32, u32, Seq<u8>), mw: u32, mh: u32) -> (u32, u32, Seq<u8>);

/// What `PngEncoder::write_image` writes for the RGBA8 image `img`; `None`
/// when it fails.
pub uninterp spec fn png_of(img: (u32, u32, Seq<u8>)) -> Option<Seq<u8>>;

/// `image::load_from_memory`, the result converted to RGBA8 (`into_rgba8`,
/// `into_raw`). Beside naming the result, the contract states that an RGBA8
/// image holds four bytes per pixel, as the decoded buffer does.
#[verifier::external_body]
fn decode(bytes: &[u8]) -> (r: Option<(u32, u32, Vec<u8>)>)
    ensures
        match r {
            Some((w, h, p)) => decoded(bytes@) == Some((w, h, p@)) && p@.len() == w * h * 4,
            None => decoded(bytes@) is None,
        },
{
    match image::load_from_memory(bytes) {
        Ok(img) => {
            let rgba = img.into_rgba8();
            let (w, h) = rgba.dimensions();
            Some((w, h, rgba.into_raw()))
        },
        Err(_) => None,
    }
}

/// `DynamicImage::resize` (Triangle filter) of the RGBA8 image `w` x `h`
/// with `pixels` to fit `mw` x `mh`, as RGBA8 again. The contract names the
/// result and states that it holds four bytes per pixel. The buffer must
/// hold four bytes per pixel for `RgbaImage::from_raw` to take it.
#[verifier::external_body]
fn scale(w: u32, h: u32, pixels: Vec<u8>, mw: u32, mh: u32) -> (r: (u32, u32, Vec<u8>))
    requires
        pixels@.len() == w * h * 4,
    ensures
        scaled((w, h, pixels@), mw, mh) == (r.0, r.1, r.2@),
        r.2@.len() == r.0 * r.1 * 4,
{
    let img = image::DynamicImage::ImageRgba8(image::RgbaImage::from_raw(w, h, pixels).unwrap());
    let out = img.resize(mw, mh, image::imageops::FilterType::Triangle).into_rgba8();
    let (w2, h2) = out.dimensions();
    (w2, h2, out.into_raw())
}

/// `PngEncoder::write_image` of the RGBA8 image `w` x `h` with `pixels`;
/// `None` when encoding fails. It panics unless the buffer holds four bytes
/// per pixel, so other inputs are excluded.
#[verifier::external_body]
fn encode_png(w: u32, h: u32, pixels: &[u8]) -> (r: Option<Vec<u8>>)
    requires
        pixels@.len() == w * h * 4,
    ensures
        match r {
            Some(b) => png_of((w, h, pixels@)) == Some(b@),
            None => png_of((w, h, pixels@)) is None,
        },
{
    let mut buf: Vec<u8> = Vec::new();
    let encoder = image::codecs::png::PngEncoder::new(&mut buf);
    match encoder.write_image(pixels, w, h, image::ExtendedColorType::Rgba8) {
        Ok(()) => Some(buf),
        Err(_) => None,
    }
}

/// The image in `bytes` as PNG, scaled down (keeping its aspect) to fit
/// `cell_w` x `cell_h` cells when it is larger; `None` when it cannot be
/// decoded or encoded.
pub fn resize_for_cells(bytes: &[u8], cell_w: u16, cell_h: u16) -> (r: Option<Vec<u8>>)
    ensures
        match decoded(bytes@) {
            None => r is None,
            Some(img) => {
                let shown = match fit_spec(img.0, img.1, cell_w, cell_h) {
                    None => img,
                    Some((mw, mh)) => scaled(img, mw, mh),
                };
                match r {
                    Some(b) => png_of(shown) == Some(b@),
                    None => png_of(shown) is None,
                }
            },
        },
{
    match decode(bytes) {
        None => None,
        Some((w, h, p)) => {
            let (w2, h2, p2) = match fit_box(w, h, cell_w, cell_h) {
                None => (w, h, p),
                Some((mw, mh)) => scale(w, h, p, mw, mh),
            };
            encode_png(w2, h2, p2.as_slice())
        },
    }
}

} // verus!

//! Bitmaps of the Windows clipboard, and their exchange as PNG.

use vstd::prelude::*;

use crate::bytes::{
    as_signed, push_u16_le, push_u32_le, read_u16_le, read_u32_be, read_u32_le, u16_at_le, u16_le,
    u32_at_be, u32_at_le, u32_le,
};
use crate::platform::opt_bytes;

verus! {

/// The size of the header of a bitmap.
pub const HEADER: usize = 40;

/// The width that a bitmap's header gives.
pub open spec fn dib_width(data: Seq<u8>) -> int {
    u32_at_le(data, 4)
}

/// Whether the rows of a bitmap come from the top.
pub open spec fn dib_top_down(data: Seq<u8>) -> bool {
    as_signed(u32_at_le(data, 8)) < 0
}

/// The height that a bitmap's header gives, without its sign.
pub open spec fn dib_height(data: Seq<u8>) -> int {
    let h = as_signed(u32_at_le(data, 8));
    if h < 0 { -h } else { h }
}

/// The bits of a pixel.
pub open spec fn dib_bits(data: Seq<u8>) -> int {
    u16_at_le(data, 14)
}

/// The bytes of a row, which are padded to a multiple of four.
pub open spec fn dib_row(data: Seq<u8>) -> int {
    (dib_bits(data) * dib_width(data) + 31) / 32 * 4
}

/// Whether `data` is a bitmap that can be read: 24 or 32 bits for a pixel, and
/// nothing missing.
pub open spec fn dib_readable(data: Seq<u8>) -> bool {
    &&& data.len() >= HEADER
    &&& dib_bits(data) == 24 || dib_bits(data) == 32
    &&& data.len() >= HEADER + dib_row(data) * dib_height(data)
}

/// Whether the size of the image in memory can be said in 32 bits.
pub open spec fn dib_fits(data: Seq<u8>) -> bool {
    dib_readable(data) ==> dib_width(data) * dib_height(data) * 4 <= u32::MAX
}

/// Where the pixel `(x, y)` stands in the bitmap.
pub open spec fn dib_at(data: Seq<u8>, x: int, y: int) -> int {
    let row = if dib_top_down(data) { y } else { dib_height(data) - 1 - y };
    HEADER + row * dib_row(data) + x * (dib_bits(data) / 8)
}

/// The channel `c` (red, green, blue, opacity) of the pixel `(x, y)` of a bitmap,
/// which holds blue first. Without a channel for it a pixel is opaque.
pub open spec fn dib_channel(data: Seq<u8>, x: int, y: int, c: int) -> u8 {
    if c < 3 {
        data[dib_at(data, x, y) + 2 - c]
    } else if dib_bits(data) == 32 {
        data[dib_at(data, x, y) + 3]
    } else {
        255
    }
}

/// The pixels of a bitmap from the top, red first, four bytes for each.
pub open spec fn dib_pixels(data: Seq<u8>) -> Seq<u8> {
    let w = dib_width(data);
    Seq::new(
        (w * dib_height(data) * 4) as nat,
        |i: int| dib_channel(data, (i / 4) % w, (i / 4) / w, i % 4),
    )
}

/// Rows of up to this many pixels are well within the decoder's limits.
pub const WIDEST: u32 = 0x10_0000;

/// What `png::Encoder` makes of an image of 8-bit RGBA pixels: with its default
/// settings, colour type `Rgba` and depth `Eight`.
pub uninterp spec fn png_bytes(width: u32, height: u32, rgba: Seq<u8>) -> Option<Seq<u8>>;

/// What `png::Decoder` reads from a PNG without any transformation: the width and
/// height of the first frame, and the bytes of its rows.
pub uninterp spec fn png_image(png: Seq<u8>) -> Option<(u32, u32, Seq<u8>)>;

/// Whether the size in a PNG's header (its first chunk) is one whose pixels can be
/// held in memory, at up to eight bytes for each, and counted in 32 bits.
pub open spec fn png_size_fits(png: Seq<u8>) -> bool {
    png.len() >= 24 ==> {
        let n = u32_at_be(png, 16) * u32_at_be(png, 20);
        n * 4 <= u32::MAX && n * 8 <= isize::MAX
    }
}

/// Writes a PNG with `png::Encoder`. It succeeds unless the image is empty. The
/// header, which comes first, gives the size. An image that is not too wide for the
/// decoder's limit on the length of a row is read back as it was.
#[verifier::external_body]
fn encode_png(width: u32, height: u32, rgba: &[u8]) -> (r: Option<Vec<u8>>)
    requires
        rgba@.len() == width * height * 4,
        rgba@.len() <= u32::MAX,
    ensures
        r is Some == (width > 0 && height > 0),
        match r {
            Some(png) => png_bytes(width, height, rgba@) == Some(png@),
            None => png_bytes(width, height, rgba@) is None,
        },
        r matches Some(png) ==> png@.len() >= 24 && u32_at_be(png@, 16) == width && u32_at_be(
            png@,
            20,
        ) == height,
        r matches Some(png) ==> (width <= WIDEST && width * height * 8 <= isize::MAX
            ==> png_image(png@) == Some((width, height, rgba@))),
{
    let mut out = Vec::new();
    {
        let mut enc = png::Encoder::new(&mut out, width, height);
        enc.set_color(png::ColorType::Rgba);
        enc.set_depth(png::BitDepth::Eight);
        let mut writer = enc.write_header().ok()?;
        writer.write_image_data(rgba).ok()?;
    }
    Some(out)
}

/// Reads a PNG with `png::Decoder`. What it reads, and whether it can read the PNG
/// at all, is not stated further. The size in the header is bounded, since the
/// decoder would otherwise ask for more memory than there can be.
#[verifier::external_body]
fn decode_png(png: &[u8]) -> (r: Option<(u32, u32, Vec<u8>)>)
    requires
        png_size_fits(png@),
    ensures
        match r {
            Some((w, h, pixels)) => png_image(png@) == Some((w, h, pixels@)),
            None => png_image(png@) is None,
        },
{
    let mut reader = png::Decoder::new(std::io::Cursor::new(png)).read_info().ok()?;
    let mut buf = vec![0u8; reader.output_buffer_size()];
    let info = reader.next_frame(&mut buf).ok()?;
    Some((info.width, info.height, buf))
}

proof fn lemma_row_holds_pixels(bits: int, w: int)
    requires
        bits == 24 || bits == 32,
        0 <= w,
    ensures
        w * (bits / 8) <= (bits * w + 31) / 32 * 4,
        0 <= (bits * w + 31) / 32 * 4 <= 4 * w + 4,
        0 <= bits * w <= 32 * w,
{
    if bits == 24 {
        assert(bits / 8 == 3 && bits * w == 24 * w && w * (bits / 8) == w * 3);
    } else {
        assert(bits / 8 == 4 && bits * w == 32 * w && w * (bits / 8) == w * 4);
    }
}

proof fn lemma_pixel_is_inside(data: Seq<u8>, x: int, y: int)
    requires
        dib_readable(data),
        0 <= x < dib_width(data),
        0 <= y < dib_height(data),
    ensures
        HEADER <= dib_at(data, x, y),
        dib_at(data, x, y) + dib_bits(data) / 8 <= data.len(),
{
    let bits = dib_bits(data);
    let w = dib_width(data);
    let h = dib_height(data);
    let row = dib_row(data);
    lemma_row_holds_pixels(bits, w);
    let r = if dib_top_down(data) { y } else { h - 1 - y };
    let b = bits / 8;
    assert(r * row + row <= h * row) by (nonlinear_arith)
        requires
            0 <= r < h,
            0 <= row,
    ;
    assert(x * b + b <= w * b) by (nonlinear_arith)
        requires
            0 <= x < w,
            0 <= b,
    ;
    assert(0 <= r * row) by (nonlinear_arith)
        requires
            0 <= r,
            0 <= row,
    ;
    assert(0 <= x * b) by (nonlinear_arith)
        requires
            0 <= x,
            0 <= b,
    ;
    assert(row * h == h * row) by (nonlinear_arith);
}

/// The pixel `(x, y)` of an image that is `w` wide starts at `(y * w + x) * 4`.
proof fn lemma_pixel_index(x: int, y: int, w: int, i: int)
    requires
        0 <= x < w,
        0 <= y,
        (y * w + x) * 4 <= i < (y * w + x) * 4 + 4,
    ensures
        i / 4 == y * w + x,
        (i / 4) % w == x,
        (i / 4) / w == y,
        i % 4 == i - (y * w + x) * 4,
{
    assert(y * w == w * y) by (nonlinear_arith);
    vstd::arithmetic::div_mod::lemma_fundamental_div_mod_converse(y * w + x, w, y, x);
}

/// Whether the header of a bitmap is one that `dib_bytes_to_png` takes: the image
/// would fit in memory.
pub fn dib_size_fits(data: &[u8]) -> (r: bool)
    ensures
        r == dib_fits(data@),
{
    match read_header(data) {
        Some((w, h, _, _, _)) => {
            proof {
                assert(0 <= w * h <= 0xffff_ffff * 0x8000_0000) by (nonlinear_arith)
                    requires
                        0 <= w <= 0xffff_ffff,
                        0 <= h <= 0x8000_0000,
                ;
            }
            let n: u64 = w as u64 * h as u64;
            n <= 0x3fff_ffff
        },
        None => true,
    }
}

/// The width, the height, whether the rows come from the top, the bytes of a pixel
/// and those of a row, if the bitmap can be read.
fn read_header(data: &[u8]) -> (r: Option<(u32, u32, bool, usize, usize)>)
    ensures
        r is Some == dib_readable(data@),
        r matches Some((w, h, top_down, bpp, row)) ==> {
            &&& w == dib_width(data@)
            &&& h == dib_height(data@) <= 0x8000_0000
            &&& top_down == dib_top_down(data@)
            &&& bpp == dib_bits(data@) / 8
            &&& h > 0 ==> row == dib_row(data@)
        },
{
    if data.len() < HEADER {
        return None;
    }
    let w: u32 = read_u32_le(data, 4);
    let raw: u32 = read_u32_le(data, 8);
    let bits: u16 = read_u16_le(data, 14);
    let top_down = raw >= 0x8000_0000;
    let h: u32 = if top_down { (0xffff_ffff - raw) + 1 } else { raw };
    if bits != 24 && bits != 32 {
        return None;
    }
    proof {
        lemma_row_holds_pixels(bits as int, w as int);
    }
    let row: u64 = (bits as u64 * w as u64 + 31) / 32 * 4;
    proof {
        assert(row as int * h as int <= 0x8_0000_0000 * 0x8000_0000) by (nonlinear_arith)
            requires
                0 <= row as int <= 0x8_0000_0000,
                0 <= h as int <= 0x8000_0000,
        ;
    }
    let size: u128 = row as u128 * h as u128;
    proof {
        assert(dib_row(data@) == row);
        assert(size == dib_row(data@) * dib_height(data@));
        if h > 0 {
            assert(size >= row) by (nonlinear_arith)
                requires
                    size as int == row as int * h as int,
                    h > 0,
                    row >= 0,
            ;
        }
    }
    if (data.len() - HEADER) as u128 >= size {
        Some((w, h, top_down, bits as usize / 8, row as usize))
    } else {
        None
    }
}

/// Reads the pixels of a bitmap.
fn read_pixels(data: &[u8], w: u32, h: u32, top_down: bool, bpp: usize, row: usize) -> (rgba: Vec<
    u8,
>)
    requires
        dib_readable(data@),
        w == dib_width(data@),
        h == dib_height(data@),
        top_down == dib_top_down(data@),
        bpp == dib_bits(data@) / 8,
        h > 0 ==> row == dib_row(data@),
    ensures
        rgba@ == dib_pixels(data@),
{
    let ghost whole = dib_pixels(data@);
    let mut out: Vec<u8> = Vec::new();
    let mut y: u32 = 0;
    assert(0 <= w * h * 4) by (nonlinear_arith)
        requires
            0 <= w,
            0 <= h,
    ;
    assert(w * 0 == 0) by (nonlinear_arith);
    assert(whole.take(0) =~= Seq::<u8>::empty());
    while y < h
        invariant
            dib_readable(data@),
            w == dib_width(data@),
            h == dib_height(data@),
            top_down == dib_top_down(data@),
            bpp == dib_bits(data@) / 8,
            h > 0 ==> row == dib_row(data@),
            whole == dib_pixels(data@),
            whole.len() == w * h * 4,
            y <= h,
            out@ == whole.take(w * y * 4),
        decreases h - y,
    {
        let from_top: u32 = if top_down { y } else { h - 1 - y };
        let mut x: u32 = 0;
        assert(y * w == w * y) by (nonlinear_arith);
        while x < w
            invariant
                dib_readable(data@),
                w == dib_width(data@),
                h == dib_height(data@),
                top_down == dib_top_down(data@),
                bpp == dib_bits(data@) / 8,
                row == dib_row(data@),
                whole == dib_pixels(data@),
                whole.len() == w * h * 4,
                y < h,
                from_top == if top_down { y as int } else { h - 1 - y },
                x <= w,
                out@ == whole.take((y * w + x) * 4),
            decreases w - x,
        {
            let ghost k = (y * w + x) * 4;
            proof {
                lemma_pixel_is_inside(data@, x as int, y as int);
                assert(from_top * row >= 0 && x * bpp >= 0) by (nonlinear_arith)
                    requires
                        0 <= from_top,
                        0 <= row,
                        0 <= x,
                        0 <= bpp,
                ;
                lemma_pixel_index(x as int, y as int, w as int, k);
                lemma_pixel_index(x as int, y as int, w as int, k + 1);
                lemma_pixel_index(x as int, y as int, w as int, k + 2);
                lemma_pixel_index(x as int, y as int, w as int, k + 3);
                assert(k + 4 <= w * h * 4 && 0 <= k) by (nonlinear_arith)
                    requires
                        k == (y * w + x) * 4,
                        0 <= x < w,
                        0 <= y < h,
                ;
            }
            assert(dib_at(data@, x as int, y as int) == HEADER + from_top * row + x * bpp);
            assert(data.len() == data@.len());
            let s: usize = HEADER + from_top as usize * row + x as usize * bpp;
            out.push(data[s + 2]);
            out.push(data[s + 1]);
            out.push(data[s]);
            out.push(if bpp == 4 { data[s + 3] } else { 255 });
            x += 1;
            proof {
                assert(out@ =~= whole.take(k + 4));
                assert((y * w + x) * 4 == k + 4);
            }
        }
        y += 1;
        assert((y - 1) * w + w == w * y) by (nonlinear_arith);
    }
    assert(whole.take(w * h * 4) =~= whole);
    out
}

/// What PNG a bitmap is sent as.
pub open spec fn dib_png(data: Seq<u8>) -> Option<Seq<u8>> {
    if dib_readable(data) {
        png_bytes(dib_width(data) as u32, dib_height(data) as u32, dib_pixels(data))
    } else {
        None
    }
}

/// Makes a PNG of a bitmap of the clipboard. `None` where the bitmap cannot be read
/// or is empty.
pub fn dib_bytes_to_png(data: &[u8]) -> (r: Option<Vec<u8>>)
    requires
        dib_fits(data@),
    ensures
        r is Some == (dib_readable(data@) && dib_width(data@) > 0 && dib_height(data@) > 0),
        match r {
            Some(png) => dib_png(data@) == Some(png@),
            None => dib_png(data@) is None,
        },
        r matches Some(png) ==> {
            let w = dib_width(data@);
            let h = dib_height(data@);
            &&& w * h * 8 <= isize::MAX ==> png_size_fits(png@)
            &&& w <= WIDEST && w * h * 8 <= isize::MAX ==> png_image(png@) == Some(
                (w as u32, h as u32, dib_pixels(data@)),
            )
        },
{
    match read_header(data) {
        Some((w, h, top_down, bpp, row)) => {
            proof {
                assert(w * h == dib_width(data@) * dib_height(data@));
                assert(0 <= w * h * 4) by (nonlinear_arith)
                    requires
                        0 <= w,
                        0 <= h,
                ;
            }
            let rgba = read_pixels(data, w, h, top_down, bpp, row);
            encode_png(w, h, &rgba)
        },
        None => None,
    }
}

/// The header of a bitmap with 32 bits for a pixel and rows from the bottom.
pub open spec fn dib_header(w: int, h: int) -> Seq<u8> {
    u32_le(HEADER as int) + u32_le(w) + u32_le(h) + u16_le(1) + u16_le(32) + u32_le(0) + u32_le(
        w * h * 4,
    ) + u32_le(0) + u32_le(0) + u32_le(0) + u32_le(0)
}

/// The byte `i` of the rows of such a bitmap, with the pixels `rgba`: rows from the
/// bottom, blue first.
pub open spec fn dib_byte(w: int, h: int, rgba: Seq<u8>, i: int) -> u8 {
    let x = (i / 4) % w;
    let y = h - 1 - (i / 4) / w;
    let c = if i % 4 < 3 { 2 - i % 4 } else { 3 };
    rgba[(y * w + x) * 4 + c]
}

/// A bitmap of `w` by `h` pixels for the clipboard.
pub open spec fn dib_of(w: int, h: int, rgba: Seq<u8>) -> Seq<u8> {
    dib_header(w, h) + Seq::new((w * h * 4) as nat, |i: int| dib_byte(w, h, rgba, i))
}

/// Makes a bitmap for the clipboard of pixels with red first.
pub fn rgba_to_dib(width: u32, height: u32, rgba: &[u8]) -> (dib: Vec<u8>)
    requires
        width * height * 4 <= u32::MAX,
        rgba@.len() >= width * height * 4,
    ensures
        dib@ == dib_of(width as int, height as int, rgba@),
{
    let w: usize = width as usize;
    let h: usize = height as usize;
    let ghost head = dib_header(width as int, height as int);
    let ghost body = Seq::new(
        (width * height * 4) as nat,
        |i: int| dib_byte(width as int, height as int, rgba@, i),
    );
    let mut dib: Vec<u8> = Vec::new();
    assert(0 <= width * height) by (nonlinear_arith)
        requires
            0 <= width,
            0 <= height,
    ;
    push_u32_le(&mut dib, 40);
    push_u32_le(&mut dib, width);
    push_u32_le(&mut dib, height);
    push_u16_le(&mut dib, 1);
    push_u16_le(&mut dib, 32);
    push_u32_le(&mut dib, 0);
    push_u32_le(&mut dib, width * height * 4);
    push_u32_le(&mut dib, 0);
    push_u32_le(&mut dib, 0);
    push_u32_le(&mut dib, 0);
    push_u32_le(&mut dib, 0);
    assert(dib@ =~= head);
    let mut row: usize = 0;
    assert(w * 0 == 0) by (nonlinear_arith);
    assert(body.take(0) =~= Seq::<u8>::empty());
    assert(head + Seq::<u8>::empty() =~= head);
    while row < h
        invariant
            w == width,
            h == height,
            width * height * 4 <= u32::MAX,
            rgba@.len() >= width * height * 4,
            body.len() == width * height * 4,
            body == Seq::new(
                (width * height * 4) as nat,
                |i: int| dib_byte(width as int, height as int, rgba@, i),
            ),
            row <= h,
            dib@ == head + body.take(w * row * 4),
        decreases h - row,
    {
        let y: usize = h - 1 - row;
        let mut x: usize = 0;
        assert(row * w == w * row) by (nonlinear_arith);
        while x < w
            invariant
                w == width,
                h == height,
                width * height * 4 <= u32::MAX,
                rgba@.len() >= width * height * 4,
                body.len() == width * height * 4,
                body == Seq::new(
                    (width * height * 4) as nat,
                    |i: int| dib_byte(width as int, height as int, rgba@, i),
                ),
                row < h,
                y == h - 1 - row,
                x <= w,
                dib@ == head + body.take((row * w + x) * 4),
            decreases w - x,
        {
            let ghost k = (row * w + x) * 4;
            proof {
                lemma_pixel_index(x as int, row as int, w as int, k);
                lemma_pixel_index(x as int, row as int, w as int, k + 1);
                lemma_pixel_index(x as int, row as int, w as int, k + 2);
                lemma_pixel_index(x as int, row as int, w as int, k + 3);
                assert(k + 4 <= w * h * 4 && 0 <= k) by (nonlinear_arith)
                    requires
                        k == (row * w + x) * 4,
                        0 <= x < w,
                        0 <= row < h,
                ;
                assert((y * w + x) * 4 + 4 <= w * h * 4 && 0 <= y * w) by (nonlinear_arith)
                    requires
                        0 <= x < w,
                        0 <= y < h,
                ;
            }
            let s: usize = (y * w + x) * 4;
            dib.push(rgba[s + 2]);
            dib.push(rgba[s + 1]);
            dib.push(rgba[s]);
            dib.push(rgba[s + 3]);
            x += 1;
            proof {
                assert(dib@ =~= head + body.take(k + 4));
                assert((row * w + x) * 4 == k + 4);
            }
        }
        row += 1;
        assert((row - 1) * w + w == w * row) by (nonlinear_arith);
    }
    assert(body.take(w * h * 4) =~= body);
    dib
}

/// The bitmap for the clipboard that a decoded image gives. `None` where there is no
/// image, or where it has fewer than four bytes for a pixel.
pub open spec fn image_dib(image: Option<(u32, u32, Seq<u8>)>) -> Option<Seq<u8>> {
    match image {
        Some((w, h, pixels)) => if w * h * 4 <= u32::MAX && w * h * 4 <= pixels.len() {
            Some(dib_of(w as int, h as int, pixels))
        } else {
            None
        },
        None => None,
    }
}

/// The bitmap for the clipboard that a decoded image gives, if it can be made.
pub fn image_to_dib(image: Option<(u32, u32, Vec<u8>)>) -> (r: Option<Vec<u8>>)
    ensures
        opt_bytes(r) == image_dib(
            match image {
                Some((w, h, pixels)) => Some((w, h, pixels@)),
                None => None,
            },
        ),
{
    match image {
        Some((w, h, pixels)) => {
            assert(0 <= w * h <= 0xffff_ffff * 0xffff_ffff) by (nonlinear_arith)
                requires
                    0 <= w <= 0xffff_ffff,
                    0 <= h <= 0xffff_ffff,
            ;
            let n: u64 = w as u64 * h as u64;
            if n <= 0x3fff_ffff && n * 4 <= pixels.len() as u64 {
                Some(rgba_to_dib(w, h, &pixels))
            } else {
                None
            }
        },
        None => None,
    }
}

/// Makes a bitmap for the clipboard of a PNG. `None` where it cannot be read, where
/// it is too large, or where it has fewer than four bytes for a pixel.
pub fn png_to_dib(png: &[u8]) -> (r: Option<Vec<u8>>)
    ensures
        opt_bytes(r) == if png_size_fits(png@) {
            image_dib(png_image(png@))
        } else {
            None
        },
{
    if png.len() >= 24 {
        let w: u32 = read_u32_be(png, 16);
        let h: u32 = read_u32_be(png, 20);
        assert(0 <= w * h <= 0xffff_ffff * 0xffff_ffff) by (nonlinear_arith)
            requires
                0 <= w <= 0xffff_ffff,
                0 <= h <= 0xffff_ffff,
        ;
        let n: u64 = w as u64 * h as u64;
        if n > 0x3fff_ffff || n * 8 > isize::MAX as u64 {
            return None;
        }
    }
    image_to_dib(decode_png(png))
}

/// A bitmap that was made of pixels holds exactly these pixels.
pub proof fn law_bitmap_keeps_pixels(w: int, h: int, rgba: Seq<u8>)
    requires
        0 < w <= i32::MAX,
        0 < h <= i32::MAX,
        rgba.len() == w * h * 4,
        w * h * 4 <= u32::MAX,
    ensures
        dib_readable(dib_of(w, h, rgba)),
        dib_width(dib_of(w, h, rgba)) == w,
        dib_height(dib_of(w, h, rgba)) == h,
        dib_pixels(dib_of(w, h, rgba)) == rgba,
{
    let d = dib_of(w, h, rgba);
    let head = dib_header(w, h);
    assert(head.len() == HEADER);
    assert(d[4] == u32_le(w)[0] && d[5] == u32_le(w)[1] && d[6] == u32_le(w)[2] && d[7] == u32_le(
        w,
    )[3]);
    assert(d[8] == u32_le(h)[0] && d[9] == u32_le(h)[1] && d[10] == u32_le(h)[2] && d[11]
        == u32_le(h)[3]);
    assert(d[14] == u16_le(32)[0] && d[15] == u16_le(32)[1]);
    assert(dib_width(d) == w);
    assert(dib_height(d) == h && !dib_top_down(d));
    assert(dib_bits(d) == 32);
    assert(dib_row(d) == 4 * w);
    assert(dib_row(d) * h == w * h * 4) by (nonlinear_arith)
        requires
            dib_row(d) == 4 * w,
    ;
    assert forall|i: int| 0 <= i < rgba.len() implies dib_pixels(d)[i] == rgba[i] by {
        let p = i / 4;
        let c = i % 4;
        let x = p % w;
        let y = p / w;
        assert(0 <= p < w * h) by (nonlinear_arith)
            requires
                p == i / 4,
                0 <= i < w * h * 4,
        ;
        vstd::arithmetic::div_mod::lemma_fundamental_div_mod(p, w);
        assert(0 <= y < h) by (nonlinear_arith)
            requires
                p == w * y + x,
                0 <= x < w,
                0 <= p < w * h,
                w > 0,
        ;
        let r = h - 1 - y;
        assert(r * (4 * w) + x * 4 == (r * w + x) * 4) by (nonlinear_arith);
        let b = (r * w + x) * 4;
        assert(0 <= b && b + 4 <= w * h * 4) by (nonlinear_arith)
            requires
                b == (r * w + x) * 4,
                0 <= x < w,
                0 <= r < h,
        ;
        let o = if c < 3 { 2 - c } else { 3 };
        assert(dib_at(d, x, y) == HEADER + b);
        lemma_pixel_index(x, r, w, b + o);
        assert(d[HEADER + b + o] == dib_byte(w, h, rgba, b + o));
        assert(h - 1 - r == y);
        assert(y * w == w * y) by (nonlinear_arith);
        assert((y * w + x) * 4 + c == i);
    }
    assert(dib_pixels(d) =~= rgba);
}

/// Where every pixel of the picture is read from. A bitmap has a header of 40 bytes with
/// the width at 4, the height at 8 and the bits of a pixel at 14. Its rows are padded to
/// multiples of four bytes and come from the bottom, unless the height is negative. A
/// pixel is blue, green, red and, with 32 bits, its opacity; of 24 bits as of 32 the
/// colours come out the same.
pub proof fn law_pixels_are_read_from_their_places(
    data: Seq<u8>,
    w: int,
    h: int,
    bytes: int,
    row: int,
    x: int,
    y: int,
)
    requires
        data.len() >= 40,
        w == data[4] + 256 * data[5] + 65536 * data[6] + 16777216 * data[7],
        h > 0,
        ({
            let n = data[8] + 256 * data[9] + 65536 * data[10] + 16777216 * data[11];
            if data[11] < 128 {
                h == n
            } else {
                h == 4294967296 - n
            }
        }),
        bytes == 3 || bytes == 4,
        data[14] + 256 * data[15] == 8 * bytes,
        row % 4 == 0,
        w * bytes <= row < w * bytes + 4,
        data.len() >= 40 + row * h,
        0 <= x < w,
        0 <= y < h,
    ensures
        dib_readable(data),
        dib_width(data) == w,
        dib_height(data) == h,
        dib_pixels(data).len() == w * h * 4,
        ({
            let from_top = data[11] >= 128;
            let start = 40 + (if from_top {
                y
            } else {
                h - 1 - y
            }) * row + x * bytes;
            let at = (y * w + x) * 4;
            &&& 40 <= start && start + bytes <= data.len()
            &&& dib_pixels(data)[at] == data[start + 2]
            &&& dib_pixels(data)[at + 1] == data[start + 1]
            &&& dib_pixels(data)[at + 2] == data[start]
            &&& dib_pixels(data)[at + 3] == if bytes == 4 {
                data[start + 3]
            } else {
                255
            }
        }),
{
    assert(dib_bits(data) == 8 * bytes);
    if bytes == 3 {
        assert(w * bytes == w * 3);
        assert(dib_bits(data) * dib_width(data) == 24 * w);
    } else {
        assert(w * bytes == w * 4);
        assert(dib_bits(data) * dib_width(data) == 32 * w);
    }
    assert(dib_row(data) == row);
    lemma_pixel_is_inside(data, x, y);
    let k = (y * w + x) * 4;
    lemma_pixel_index(x, y, w, k);
    lemma_pixel_index(x, y, w, k + 1);
    lemma_pixel_index(x, y, w, k + 2);
    lemma_pixel_index(x, y, w, k + 3);
    assert(0 <= k && k + 4 <= w * h * 4) by (nonlinear_arith)
        requires
            k == (y * w + x) * 4,
            0 <= x < w,
            0 <= y < h,
    ;
}

/// Which bitmaps cannot be read: one that is shorter than its header or than its rows, or
/// one that has neither 24 nor 32 bits for a pixel.
pub proof fn law_unreadable_bitmaps(data: Seq<u8>)
    ensures
        data.len() < 40 ==> !dib_readable(data),
        data.len() >= 40 && data[14] + 256 * data[15] != 24 && data[14] + 256 * data[15] != 32
            ==> !dib_readable(data),
        dib_readable(data) ==> data.len() >= 40 + dib_width(data) * dib_height(data) * (
        dib_bits(data) / 8),
{
    if dib_readable(data) {
        let w = dib_width(data);
        let h = dib_height(data);
        let b = dib_bits(data) / 8;
        let row = dib_row(data);
        lemma_row_holds_pixels(dib_bits(data), w);
        assert(w * h * b <= row * h) by (nonlinear_arith)
            requires
                w * b <= row,
                0 <= h,
        ;
    }
}

/// Where every pixel of a picture is written to in a bitmap for the clipboard, and what
/// its header says: 32 bits, the size, rows from the bottom, blue first.
pub proof fn law_pixels_are_written_to_their_places(w: int, h: int, rgba: Seq<u8>, x: int, y: int)
    requires
        0 < w <= i32::MAX,
        0 < h <= i32::MAX,
        w * h * 4 <= u32::MAX,
        rgba.len() >= w * h * 4,
        0 <= x < w,
        0 <= y < h,
    ensures
        ({
            let d = dib_of(w, h, rgba);
            let at = 40 + ((h - 1 - y) * w + x) * 4;
            let from = (y * w + x) * 4;
            &&& d.len() == 40 + w * h * 4
            &&& d[0] == 40 && d[1] == 0 && d[2] == 0 && d[3] == 0
            &&& d[4] + 256 * d[5] + 65536 * d[6] + 16777216 * d[7] == w
            &&& d[8] + 256 * d[9] + 65536 * d[10] + 16777216 * d[11] == h
            &&& d[12] == 1 && d[13] == 0 && d[14] == 32 && d[15] == 0
            &&& d[16] == 0 && d[17] == 0 && d[18] == 0 && d[19] == 0
            &&& d[20] + 256 * d[21] + 65536 * d[22] + 16777216 * d[23] == w * h * 4
            &&& forall|i: int| 24 <= i < 40 ==> #[trigger] d[i] == 0
            &&& 40 <= at && at + 4 <= d.len()
            &&& d[at] == rgba[from + 2]
            &&& d[at + 1] == rgba[from + 1]
            &&& d[at + 2] == rgba[from]
            &&& d[at + 3] == rgba[from + 3]
        }),
{
    let d = dib_of(w, h, rgba);
    let head = dib_header(w, h);
    let r = h - 1 - y;
    let k = (r * w + x) * 4;
    assert(head.len() == 40);
    assert(0 <= w * h) by (nonlinear_arith)
        requires
            0 < w,
            0 < h,
    ;
    assert forall|i: int| 0 <= i < 40 implies d[i] == head[i] by {}
    assert(0 <= k && k + 4 <= w * h * 4) by (nonlinear_arith)
        requires
            k == (r * w + x) * 4,
            0 <= x < w,
            0 <= r < h,
    ;
    lemma_pixel_index(x, r, w, k);
    lemma_pixel_index(x, r, w, k + 1);
    lemma_pixel_index(x, r, w, k + 2);
    lemma_pixel_index(x, r, w, k + 3);
    assert(h - 1 - r == y);
    assert forall|j: int| 0 <= j < 4 implies #[trigger] d[40 + k + j] == dib_byte(
        w,
        h,
        rgba,
        k + j,
    ) by {}
    assert(d[40 + k + 0] == dib_byte(w, h, rgba, k + 0));
    assert(d[40 + k + 1] == dib_byte(w, h, rgba, k + 1));
    assert(d[40 + k + 2] == dib_byte(w, h, rgba, k + 2));
    assert(d[40 + k + 3] == dib_byte(w, h, rgba, k + 3));
}

/// A picture of the peer becomes a bitmap of just its pixels, where it has four bytes for
/// each and fits; otherwise there is none.
pub proof fn law_pictures_become_bitmaps(w: u32, h: u32, pixels: Seq<u8>)
    ensures
        image_dib(None) is None,
        w * h * 4 <= 0xffff_ffff && pixels.len() >= w * h * 4 ==> image_dib(Some((w, h, pixels)))
            == Some(dib_of(w as int, h as int, pixels)),
        w * h * 4 > 0xffff_ffff || pixels.len() < w * h * 4 ==> image_dib(Some((w, h, pixels)))
            is None,
{
}

} // verus!

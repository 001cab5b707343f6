//! The pixel decoder: turns the device's raw little-endian framebuffer dump
//! into a displayable RGBA frame.
//!
//! The raw buffer carries one 4-byte group per pixel in row-major order, with
//! channel order blue, green, red, padding. Decoding swaps blue and red,
//! forces full opacity, drops any truncated trailing group, and crops the
//! image to the top-left visible display region.

use vstd::arithmetic::div_mod::lemma_fundamental_div_mod_converse;
use vstd::prelude::*;

use crate::geometry::ScreenGeometry;

verus! {

/// Decoding failed because the usable byte count (whole 4-byte groups) of the
/// raw buffer was not exactly the raw framebuffer size.
#[derive(Clone, Copy, Debug, PartialEq, Eq, Structural)]
pub struct DecodeError {
    /// The raw framebuffer byte count the geometry calls for.
    pub expected: usize,
    /// The usable byte count the rejected buffer actually had.
    pub usable: usize,
}

/// A decoded RGBA image: `width * height` pixels in row-major order, four
/// bytes per pixel in channel order red, green, blue, alpha.
#[derive(Clone, Debug, PartialEq, Eq)]
pub struct Frame {
    pub width: usize,
    pub height: usize,
    pub bytes: Vec<u8>,
}

impl Frame {
    /// A frame is well formed when it holds exactly four bytes per pixel.
    pub open spec fn wf(self) -> bool {
        self.bytes@.len() == self.width * self.height * 4
    }
}

/// The usable portion of a raw buffer of `n` bytes: the bytes belonging to
/// whole 4-byte pixel groups; a truncated trailing group is dropped.
pub open spec fn usable_len(n: int) -> int {
    (n / 4) * 4
}

/// A raw buffer decodes successfully exactly when its usable length is the
/// raw framebuffer size of the geometry.
pub open spec fn decodable(raw: Seq<u8>, g: ScreenGeometry) -> bool {
    usable_len(raw.len() as int) == g.raw_len()
}

/// Byte `i` of the decoded frame. The byte belongs to channel `i % 4` of
/// frame pixel `i / 4`, which sits at column `x` and row `y` of the display
/// region and therefore at offset `(y * raw_width + x) * 4` in the raw
/// buffer. Red and blue come from the opposite ends of the raw group and the
/// alpha channel is always 255.
pub open spec fn decoded_byte(raw: Seq<u8>, g: ScreenGeometry, i: int) -> u8 {
    let pixel = i / 4;
    let chan = i % 4;
    let x = pixel % (g.display_width as int);
    let y = pixel / (g.display_width as int);
    let src = (y * g.raw_width + x) * 4;
    if chan == 3 {
        255u8
    } else {
        raw[src + 2 - chan]
    }
}

/// The full byte sequence of the frame decoded from `raw`.
pub open spec fn decode_spec(raw: Seq<u8>, g: ScreenGeometry) -> Seq<u8> {
    Seq::new(g.frame_len() as nat, |i: int| decoded_byte(raw, g, i))
}

/// Decodes a raw capture buffer into a frame of the geometry's display size,
/// or reports exactly how the buffer's usable length missed the raw
/// framebuffer size. Every well-formed buffer of the raw size decodes
/// successfully, and the decoded bytes are pinned down pixel by pixel by
/// `decode_spec`.
pub fn decode_frame(raw: &Vec<u8>, g: &ScreenGeometry) -> (r: Result<Frame, DecodeError>)
    requires
        g.wf(),
    ensures
        r is Ok <==> decodable(raw@, *g),
        r matches Ok(frame) ==> frame.width == g.display_width && frame.height
            == g.display_height && frame.bytes@ == decode_spec(raw@, *g) && frame.wf(),
        r matches Err(e) ==> e.expected == g.raw_len() && e.usable == usable_len(
            raw@.len() as int,
        ),
{
    let len: usize = raw.len();
    let usable: usize = (len / 4) * 4;
    let expected: usize = g.raw_len_exec();
    if usable != expected {
        return Err(DecodeError { expected, usable });
    }
    let dw: usize = g.display_width;
    let dh: usize = g.display_height;
    let rw: usize = g.raw_width;
    let mut out: Vec<u8> = Vec::new();
    let mut y: usize = 0;
    while y < dh
        invariant
            g.wf(),
            dw == g.display_width,
            dh == g.display_height,
            rw == g.raw_width,
            decodable(raw@, *g),
            raw@.len() >= g.raw_len(),
            y <= dh,
            out@.len() == y * dw * 4,
            forall|k: int| 0 <= k < out@.len() ==> out@[k] == decoded_byte(raw@, *g, k),
        decreases dh - y,
    {
        let mut x: usize = 0;
        proof {
            lemma_pixel_index_bounds(*g, y as int, 0);
        }
        while x < dw
            invariant
                g.wf(),
                dw == g.display_width,
                dh == g.display_height,
                rw == g.raw_width,
                decodable(raw@, *g),
                raw@.len() >= g.raw_len(),
                y < dh,
                x <= dw,
                out@.len() == (y * dw + x) * 4,
                forall|k: int| 0 <= k < out@.len() ==> out@[k] == decoded_byte(raw@, *g, k),
            decreases dw - x,
        {
            proof {
                lemma_pixel_index_bounds(*g, y as int, x as int);
            }
            let src: usize = (y * rw + x) * 4;
            out.push(raw[src + 2]);
            out.push(raw[src + 1]);
            out.push(raw[src]);
            out.push(255);
            proof {
                lemma_group_decodes(raw@, *g, x as int, y as int);
                assert(out@.len() == (y * dw + x) * 4 + 4);
                assert((y * dw + x + 1) * 4 == (y * dw + x) * 4 + 4) by (nonlinear_arith);
            }
            x = x + 1;
        }
        proof {
            assert((y * dw + dw) * 4 == (y + 1) * dw * 4) by (nonlinear_arith);
        }
        y = y + 1;
    }
    proof {
        assert(dh * dw * 4 == dw * dh * 4) by (nonlinear_arith);
        assert(out@ =~= decode_spec(raw@, *g));
    }
    Ok(Frame { width: dw, height: dh, bytes: out })
}

/// A display pixel's group offsets stay inside the raw buffer and inside the
/// frame being built: pixel `(x, y)` of the display region sits strictly
/// inside both the raw framebuffer's pixel grid and the display grid.
proof fn lemma_pixel_index_bounds(g: ScreenGeometry, y: int, x: int)
    requires
        g.wf(),
        0 <= y < g.display_height,
        0 <= x <= g.display_width,
    ensures
        0 <= y * g.display_width + x <= g.display_width * g.display_height,
        x < g.display_width ==> y * g.display_width + x < g.display_width * g.display_height,
        x < g.display_width ==> 0 <= y * g.raw_width + x < g.raw_width * g.raw_height,
        (y * g.display_width + x) * 4 <= g.frame_len(),
        x < g.display_width ==> (y * g.raw_width + x) * 4 + 4 <= g.raw_len(),
        g.frame_len() <= g.raw_len(),
{
    let dw = g.display_width as int;
    let dh = g.display_height as int;
    let rw = g.raw_width as int;
    let rh = g.raw_height as int;
    crate::geometry::lemma_frame_len_le_raw_len(g);
    assert(y * dw + x <= dw * dh) by (nonlinear_arith)
        requires
            0 <= y < dh,
            0 <= x <= dw,
            0 < dw,
    ;
    assert(x < dw ==> y * dw + x < dw * dh) by (nonlinear_arith)
        requires
            0 <= y < dh,
            0 <= x,
            0 < dw,
    ;
    assert(x < dw ==> 0 <= y * rw + x < rw * rh) by (nonlinear_arith)
        requires
            0 <= y < dh,
            dh <= rh,
            0 <= x,
            x < dw ==> x < rw,
            0 < rw,
    ;
}

/// The four bytes pushed for display pixel `(x, y)` are exactly the bytes
/// `decode_spec` calls for at frame positions `(y * dw + x) * 4` through
/// `(y * dw + x) * 4 + 3`: blue and red swapped, then full alpha.
proof fn lemma_group_decodes(raw: Seq<u8>, g: ScreenGeometry, x: int, y: int)
    requires
        g.wf(),
        0 <= x < g.display_width,
        0 <= y < g.display_height,
    ensures
        decoded_byte(raw, g, (y * g.display_width + x) * 4) == raw[(y * g.raw_width + x) * 4 + 2],
        decoded_byte(raw, g, (y * g.display_width + x) * 4 + 1) == raw[(y * g.raw_width + x) * 4
            + 1],
        decoded_byte(raw, g, (y * g.display_width + x) * 4 + 2) == raw[(y * g.raw_width + x) * 4],
        decoded_byte(raw, g, (y * g.display_width + x) * 4 + 3) == 255u8,
{
    let dw = g.display_width as int;
    let p = y * dw + x;
    lemma_fundamental_div_mod_converse(p, dw, y, x);
    assert(p * 4 == p * 4 + 0);
    lemma_fundamental_div_mod_converse(p * 4, 4, p, 0);
    lemma_fundamental_div_mod_converse(p * 4 + 1, 4, p, 1);
    lemma_fundamental_div_mod_converse(p * 4 + 2, 4, p, 2);
    lemma_fundamental_div_mod_converse(p * 4 + 3, 4, p, 3);
}

/// The pixel of a frame's byte sequence at display column `x` and row `y`:
/// four consecutive bytes starting at `(y * width + x) * 4`.
pub open spec fn frame_pixel(bytes: Seq<u8>, width: int, x: int, y: int) -> Seq<u8> {
    bytes.subrange((y * width + x) * 4, (y * width + x) * 4 + 4)
}

/// What the decoder owes for raw pixel `(x, y)`: the raw group's blue and red
/// bytes swapped into place, the green byte kept, and alpha forced to 255.
pub open spec fn swapped_raw_pixel(raw: Seq<u8>, g: ScreenGeometry, x: int, y: int) -> Seq<u8> {
    let src = (y * g.raw_width + x) * 4;
    seq![raw[src + 2], raw[src + 1], raw[src], 255u8]
}

/// The decoded frame has exactly `display_width * display_height` pixels, and
/// pixel `(x, y)` of the frame equals the channel-swapped pixel `(x, y)` of
/// the raw buffer for every display coordinate, with alpha always 255.
pub proof fn lemma_decode_pixelwise(raw: Seq<u8>, g: ScreenGeometry)
    requires
        g.wf(),
        decodable(raw, g),
    ensures
        decode_spec(raw, g).len() == g.display_width * g.display_height * 4,
        forall|x: int, y: int|
            0 <= x < g.display_width && 0 <= y < g.display_height ==> frame_pixel(
                decode_spec(raw, g),
                g.display_width as int,
                x,
                y,
            ) == swapped_raw_pixel(raw, g, x, y),
{
    let dw = g.display_width as int;
    assert forall|x: int, y: int|
        0 <= x < g.display_width && 0 <= y < g.display_height implies frame_pixel(
        decode_spec(raw, g),
        dw,
        x,
        y,
    ) == swapped_raw_pixel(raw, g, x, y) by {
        lemma_pixel_index_bounds(g, y, x);
        lemma_group_decodes(raw, g, x, y);
        let p = y * dw + x;
        assert((p + 1) * 4 == p * 4 + 4) by (nonlinear_arith);
        assert(frame_pixel(decode_spec(raw, g), dw, x, y) =~= swapped_raw_pixel(raw, g, x, y));
    }
}

/// Decoding is idempotent: any two frames decoded from the same raw buffer
/// are byte-identical, because `decode_frame` pins each result down to
/// `decode_spec` of the raw bytes alone.
pub proof fn lemma_decode_idempotent(raw: Seq<u8>, g: ScreenGeometry, first: Frame, second: Frame)
    requires
        first.bytes@ == decode_spec(raw, g),
        second.bytes@ == decode_spec(raw, g),
    ensures
        first.bytes@ == second.bytes@,
{
}

} // verus!

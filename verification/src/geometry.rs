//! Frame geometry: the dimensions of the device's raw framebuffer and of the
//! visible display region cropped out of it.

use vstd::prelude::*;

verus! {

/// Width in pixels of the raw framebuffer the device sends.
pub const RAW_SCREEN_WIDTH: usize = 512;

/// Height in pixels of the raw framebuffer the device sends.
pub const RAW_SCREEN_HEIGHT: usize = 272;

/// Width in pixels of the visible display region.
pub const DISPLAY_WIDTH: usize = 480;

/// Height in pixels of the visible display region.
pub const DISPLAY_HEIGHT: usize = 272;

/// Immutable description of the capture geometry: the raw framebuffer
/// dimensions and the top-left-aligned visible sub-region cropped from it.
/// Each pixel occupies four bytes in both the raw buffer and a decoded frame.
#[derive(Clone, Copy, Debug, PartialEq, Eq, Structural)]
pub struct ScreenGeometry {
    pub raw_width: usize,
    pub raw_height: usize,
    pub display_width: usize,
    pub display_height: usize,
}

impl ScreenGeometry {
    /// A geometry is well formed when the display region is a non-empty
    /// sub-rectangle of the raw framebuffer and the raw buffer's byte count
    /// fits in `usize`.
    pub open spec fn wf(self) -> bool {
        &&& 0 < self.display_width <= self.raw_width
        &&& 0 < self.display_height <= self.raw_height
        &&& self.raw_width * self.raw_height * 4 <= usize::MAX
    }

    /// Byte length of a raw capture buffer for this geometry.
    pub open spec fn raw_len(self) -> int {
        self.raw_width * self.raw_height * 4
    }

    /// Byte length of a decoded frame for this geometry.
    pub open spec fn frame_len(self) -> int {
        self.display_width * self.display_height * 4
    }

    /// Computes the raw buffer byte length.
    pub fn raw_len_exec(&self) -> (n: usize)
        requires
            self.wf(),
        ensures
            n == self.raw_len(),
    {
        proof {
            lemma_quarter_of_len(self.raw_width as int, self.raw_height as int);
        }
        self.raw_width * self.raw_height * 4
    }

    /// Computes the decoded frame byte length.
    pub fn frame_len_exec(&self) -> (n: usize)
        requires
            self.wf(),
        ensures
            n == self.frame_len(),
    {
        proof {
            lemma_frame_len_le_raw_len(*self);
            lemma_quarter_of_len(self.display_width as int, self.display_height as int);
        }
        self.display_width * self.display_height * 4
    }

    /// The geometry of the device this system mirrors: a 512 by 272 raw
    /// framebuffer cropped to a 480 by 272 visible display.
    pub fn device_default() -> (g: ScreenGeometry)
        ensures
            g == (ScreenGeometry {
                raw_width: RAW_SCREEN_WIDTH,
                raw_height: RAW_SCREEN_HEIGHT,
                display_width: DISPLAY_WIDTH,
                display_height: DISPLAY_HEIGHT,
            }),
            g.wf(),
    {
        ScreenGeometry {
            raw_width: RAW_SCREEN_WIDTH,
            raw_height: RAW_SCREEN_HEIGHT,
            display_width: DISPLAY_WIDTH,
            display_height: DISPLAY_HEIGHT,
        }
    }
}

/// For non-negative factors, a product is bounded by the same product with an
/// extra factor of four; used to justify the intermediate multiplication when
/// computing byte lengths.
proof fn lemma_quarter_of_len(w: int, h: int)
    requires
        0 <= w,
        0 <= h,
    ensures
        w * h <= w * h * 4,
        0 <= w * h,
{
    vstd::arithmetic::mul::lemma_mul_nonnegative(w, h);
}

/// A decoded frame never takes more bytes than the raw buffer it came from,
/// because the display region is contained in the raw framebuffer.
pub proof fn lemma_frame_len_le_raw_len(g: ScreenGeometry)
    requires
        g.wf(),
    ensures
        g.frame_len() <= g.raw_len(),
        0 <= g.frame_len(),
{
    let dw = g.display_width as int;
    let dh = g.display_height as int;
    let rw = g.raw_width as int;
    let rh = g.raw_height as int;
    vstd::arithmetic::mul::lemma_mul_inequality(dw, rw, dh);
    vstd::arithmetic::mul::lemma_mul_is_commutative(rw, dh);
    vstd::arithmetic::mul::lemma_mul_inequality(dh, rh, rw);
    vstd::arithmetic::mul::lemma_mul_is_commutative(rh, rw);
    vstd::arithmetic::mul::lemma_mul_inequality(dw * dh, rw * rh, 4);
    vstd::arithmetic::mul::lemma_mul_nonnegative(dw, dh);
}

} // verus!

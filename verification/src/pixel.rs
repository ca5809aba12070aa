//! Pixel buffers, frames, and the grayscale reduction used by the
//! difference metric.

use vstd::prelude::*;

verus! {

/// Channel layout of a pixel buffer's payload.
#[derive(Clone, Copy, PartialEq, Eq, Structural, Debug)]
pub enum Channels {
    /// One intensity byte per pixel.
    Gray,
    /// Three bytes per pixel, red first.
    Rgb,
    /// Three bytes per pixel, blue first.
    Bgr,
}

impl Channels {
    /// Bytes per pixel for this layout.
    pub open spec fn spec_count(self) -> nat {
        match self {
            Channels::Gray => 1,
            Channels::Rgb => 3,
            Channels::Bgr => 3,
        }
    }

    /// Bytes per pixel for this layout.
    pub fn count(self) -> (n: u32)
        ensures
            n == self.spec_count(),
    {
        match self {
            Channels::Gray => 1,
            Channels::Rgb => 3,
            Channels::Bgr => 3,
        }
    }

    /// The layout with the first and third channel exchanged.
    pub open spec fn spec_swapped(self) -> Channels {
        match self {
            Channels::Gray => Channels::Gray,
            Channels::Rgb => Channels::Bgr,
            Channels::Bgr => Channels::Rgb,
        }
    }

    /// The layout with the first and third channel exchanged.
    pub fn swapped(self) -> (c: Channels)
        ensures
            c == self.spec_swapped(),
    {
        match self {
            Channels::Gray => Channels::Gray,
            Channels::Rgb => Channels::Bgr,
            Channels::Bgr => Channels::Rgb,
        }
    }
}

/// An immutable-once-captured 2D grid of pixels: dimensions, channel
/// layout, and a linear byte payload in row-major order.
#[derive(Debug)]
pub struct PixelBuffer {
    pub width: u32,
    pub height: u32,
    pub channels: Channels,
    pub data: Vec<u8>,
}

impl PixelBuffer {
    /// The payload holds exactly one record of `channels` bytes per pixel.
    pub open spec fn wf(self) -> bool {
        self.data@.len() == self.width * self.height * self.channels.spec_count()
    }
}

/// Fixed-point BT.601 luminance: 0.299 red + 0.587 green + 0.114 blue,
/// with the weights scaled by 16384 and the quotient rounded to nearest.
pub open spec fn luma(r: u8, g: u8, b: u8) -> u8 {
    ((4899 * r + 9617 * g + 1868 * b + 8192) / 16384) as u8
}

/// Fixed-point BT.601 luminance of one pixel.
pub fn luma_of(r: u8, g: u8, b: u8) -> (y: u8)
    ensures
        y == luma(r, g, b),
{
    let v: u32 = (4899 * (r as u32) + 9617 * (g as u32) + 1868 * (b as u32) + 8192) / 16384;
    v as u8
}

/// Intensity of pixel `p` of `b`: the byte itself for `Gray`, otherwise
/// the luminance of the pixel's red, green, and blue bytes.
pub open spec fn gray_at(b: PixelBuffer, p: int) -> u8 {
    match b.channels {
        Channels::Gray => b.data@[p],
        Channels::Rgb => luma(b.data@[3 * p], b.data@[3 * p + 1], b.data@[3 * p + 2]),
        Channels::Bgr => luma(b.data@[3 * p + 2], b.data@[3 * p + 1], b.data@[3 * p]),
    }
}

/// The single-channel intensity reduction of a buffer, one byte per pixel.
pub open spec fn gray_view(b: PixelBuffer) -> Seq<u8> {
    Seq::new((b.width * b.height) as nat, |p: int| gray_at(b, p))
}

/// Reduces a buffer to its single-channel intensity payload.
pub fn to_gray(b: &PixelBuffer) -> (r: Vec<u8>)
    requires
        b.wf(),
    ensures
        r@ == gray_view(*b),
{
    proof {
        let w = b.width as int;
        let h = b.height as int;
        let c = b.channels.spec_count() as int;
        assert(w * h <= w * h * c && w * h * 3 == 3 * (w * h)) by (nonlinear_arith)
            requires
                1 <= c,
                0 <= w,
                0 <= h,
        ;
    }
    let len: usize = b.data.len();
    proof {
        assert(b.width * b.height <= len);
    }
    let n: usize = (b.width as usize) * (b.height as usize);
    let mut out: Vec<u8> = Vec::new();
    let mut p: usize = 0;
    while p < n
        invariant
            n == b.width * b.height,
            b.wf(),
            len == b.data@.len(),
            b.channels.spec_count() == 3 ==> len == 3 * n,
            b.channels.spec_count() == 1 ==> len == n,
            p <= n,
            out@.len() == p,
            forall|j: int| 0 <= j < p ==> out@[j] == gray_at(*b, j),
        decreases n - p,
    {
        let y: u8 = match b.channels {
            Channels::Gray => b.data[p],
            Channels::Rgb => luma_of(b.data[3 * p], b.data[3 * p + 1], b.data[3 * p + 2]),
            Channels::Bgr => luma_of(b.data[3 * p + 2], b.data[3 * p + 1], b.data[3 * p]),
        };
        out.push(y);
        p = p + 1;
    }
    proof {
        assert(out@ =~= gray_view(*b));
    }
    out
}

/// A decoded frame together with its 1-based position in the source
/// stream.
#[derive(Debug)]
pub struct Frame {
    pub buffer: PixelBuffer,
    pub index: i64,
}

/// What the segmentation pipeline expects of every incoming frame: a
/// well-formed three-channel buffer with at least one pixel, carrying a
/// 1-based stream position.
pub open spec fn frame_ok(f: Frame) -> bool {
    &&& f.buffer.wf()
    &&& f.buffer.channels.spec_count() == 3
    &&& 1 <= f.buffer.width
    &&& 1 <= f.buffer.height
    &&& 1 <= f.index
}

} // verus!

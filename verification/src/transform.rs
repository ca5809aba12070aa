//! The frame transformer: reorders color channels to the output order
//! and resamples to the target resolution with linear interpolation.
//! Coordinates and interpolation weights are 16.16 fixed point, mapping
//! pixel centers to pixel centers; aspect ratio is not preserved.

use vstd::prelude::*;

use crate::pixel::PixelBuffer;

verus! {

/// The payload with the first and third byte of every pixel triple
/// exchanged (blue-first to red-first order, and back).
pub open spec fn swap_rb(data: Seq<u8>) -> Seq<u8> {
    Seq::new(
        data.len(),
        |i: int|
            if i % 3 == 0 {
                data[i + 2]
            } else if i % 3 == 2 {
                data[i - 2]
            } else {
                data[i]
            },
    )
}

/// 16.16 fixed-point source coordinate for destination index `d`, under
/// the pixel-center mapping `(d + 1/2) * s_len / d_len - 1/2`, clamped
/// below at zero.
pub open spec fn src_coord_q16(d: int, s_len: int, d_len: int) -> int {
    let q = ((2 * d + 1) * s_len * 32768) / d_len - 32768;
    if q < 0 {
        0
    } else {
        q
    }
}

/// Index of the lower of the two source samples for destination index
/// `d`, clamped to the last source index.
pub open spec fn coord_lo(d: int, s_len: int, d_len: int) -> int {
    let x = src_coord_q16(d, s_len, d_len) / 65536;
    if x > s_len - 1 {
        s_len - 1
    } else {
        x
    }
}

/// Index of the upper of the two source samples, clamped likewise.
pub open spec fn coord_hi(d: int, s_len: int, d_len: int) -> int {
    if coord_lo(d, s_len, d_len) + 1 > s_len - 1 {
        s_len - 1
    } else {
        coord_lo(d, s_len, d_len) + 1
    }
}

/// Fractional part of the source coordinate: the weight of the upper
/// sample, in 65536ths.
pub open spec fn coord_frac(d: int, s_len: int, d_len: int) -> int {
    src_coord_q16(d, s_len, d_len) % 65536
}

/// Bilinear blend of four samples with fixed-point weights `fx`, `fy` in
/// `[0, 65536)`, rounded to the nearest intensity.
pub open spec fn lerp2(p00: u8, p01: u8, p10: u8, p11: u8, fx: int, fy: int) -> u8 {
    (((p00 * (65536 - fx) + p01 * fx) * (65536 - fy) + (p10 * (65536 - fx) + p11 * fx) * fy
        + 0x8000_0000) / 0x1_0000_0000) as u8
}

/// Byte `ch` of the source pixel at column `x`, row `y`.
pub open spec fn sample(src: Seq<u8>, s_w: int, c: int, x: int, y: int, ch: int) -> u8 {
    src[(y * s_w + x) * c + ch]
}

/// Byte `ch` of the destination pixel at column `dx`, row `dy`: the
/// bilinear blend of the four nearest source samples.
pub open spec fn resize_px(
    src: Seq<u8>,
    s_w: int,
    s_h: int,
    c: int,
    d_w: int,
    d_h: int,
    dx: int,
    dy: int,
    ch: int,
) -> u8 {
    lerp2(
        sample(src, s_w, c, coord_lo(dx, s_w, d_w), coord_lo(dy, s_h, d_h), ch),
        sample(src, s_w, c, coord_hi(dx, s_w, d_w), coord_lo(dy, s_h, d_h), ch),
        sample(src, s_w, c, coord_lo(dx, s_w, d_w), coord_hi(dy, s_h, d_h), ch),
        sample(src, s_w, c, coord_hi(dx, s_w, d_w), coord_hi(dy, s_h, d_h), ch),
        coord_frac(dx, s_w, d_w),
        coord_frac(dy, s_h, d_h),
    )
}

/// The whole resampled payload, row-major with `c` bytes per pixel.
pub open spec fn resized(src: Seq<u8>, s_w: int, s_h: int, c: int, d_w: int, d_h: int) -> Seq<
    u8,
> {
    Seq::new(
        (d_w * d_h * c) as nat,
        |i: int|
            resize_px(
                src,
                s_w,
                s_h,
                c,
                d_w,
                d_h,
                (i % (d_w * c)) / c,
                i / (d_w * c),
                i % (d_w * c) % c,
            ),
    )
}

/// Exchanges the first and third byte of every pixel triple.
fn swap_rb_exec(data: &Vec<u8>) -> (r: Vec<u8>)
    requires
        data@.len() % 3 == 0,
    ensures
        r@ == swap_rb(data@),
{
    let len: usize = data.len();
    let n: usize = len / 3;
    let mut out: Vec<u8> = Vec::new();
    let mut p: usize = 0;
    while p < n
        invariant
            len == data@.len(),
            len == 3 * n,
            p <= n,
            out@.len() == 3 * p,
            forall|j: int| 0 <= j < 3 * p ==> out@[j] == swap_rb(data@)[j],
        decreases n - p,
    {
        out.push(data[3 * p + 2]);
        out.push(data[3 * p + 1]);
        out.push(data[3 * p]);
        p = p + 1;
    }
    proof {
        assert(out@ =~= swap_rb(data@));
    }
    out
}

/// The two source sample indices and the fixed-point weight for one
/// destination index.
fn coords(d: u32, s_len: u32, d_len: u32) -> (r: (usize, usize, u64))
    requires
        1 <= s_len,
        1 <= d_len,
        d < d_len,
    ensures
        r.0 == coord_lo(d as int, s_len as int, d_len as int),
        r.1 == coord_hi(d as int, s_len as int, d_len as int),
        r.2 == coord_frac(d as int, s_len as int, d_len as int),
        r.0 <= r.1 < s_len,
        r.2 < 65536,
{
    proof {
        assert(0 <= (2 * (d as int) + 1) * (s_len as int) * 32768 < 0x1_0000_0000_0000_0000_0000)
            by (nonlinear_arith)
            requires
                0 <= (d as int) < 0x1_0000_0000,
                1 <= (s_len as int) < 0x1_0000_0000,
        ;
    }
    let num: i128 = (2 * (d as i128) + 1) * (s_len as i128) * 32768;
    proof {
        assert(0 <= (num as int) / (d_len as int) <= num) by (nonlinear_arith)
            requires
                0 <= num,
                1 <= d_len as int,
        ;
    }
    let q_raw: i128 = num / (d_len as i128) - 32768;
    let q: i128 = if q_raw < 0 {
        0
    } else {
        q_raw
    };
    let x_raw: i128 = q / 65536;
    let lo: usize = if x_raw > (s_len as i128) - 1 {
        (s_len - 1) as usize
    } else {
        x_raw as usize
    };
    let hi: usize = if lo + 1 > (s_len as usize) - 1 {
        (s_len as usize) - 1
    } else {
        lo + 1
    };
    let frac: u64 = (q % 65536) as u64;
    (lo, hi, frac)
}

/// Rounded bilinear blend of four intensities.
fn lerp_channel(p00: u8, p01: u8, p10: u8, p11: u8, fx: u64, fy: u64) -> (v: u8)
    requires
        fx < 65536,
        fy < 65536,
    ensures
        v == lerp2(p00, p01, p10, p11, fx as int, fy as int),
{
    proof {
        assert(0 <= (p00 as int) * (65536 - fx) + (p01 as int) * fx <= 255 * 65536 && 0 <= (
        p10 as int) * (65536 - fx) + (p11 as int) * fx <= 255 * 65536) by (nonlinear_arith)
            requires
                p00 <= 255,
                p01 <= 255,
                p10 <= 255,
                p11 <= 255,
                0 <= (fx as int) < 65536,
        ;
    }
    let a: u64 = (p00 as u64) * (65536 - fx) + (p01 as u64) * fx;
    let b: u64 = (p10 as u64) * (65536 - fx) + (p11 as u64) * fx;
    proof {
        assert(0 <= (a as int) * (65536 - fy) + (b as int) * fy <= 255 * 65536 * 65536)
            by (nonlinear_arith)
            requires
                0 <= (a as int) <= 255 * 65536,
                0 <= (b as int) <= 255 * 65536,
                0 <= (fy as int) < 65536,
        ;
    }
    let v: u64 = (a * (65536 - fy) + b * fy + 0x8000_0000) / 0x1_0000_0000;
    v as u8
}

/// Resamples a row-major payload of `c`-byte pixels from `s_w` x `s_h`
/// to `d_w` x `d_h` by bilinear interpolation.
pub fn resize_linear(src: &Vec<u8>, s_w: u32, s_h: u32, c: u32, d_w: u32, d_h: u32) -> (r: Vec<
    u8,
>)
    requires
        1 <= s_w,
        1 <= s_h,
        1 <= c,
        1 <= d_w,
        1 <= d_h,
        src@.len() == s_w * s_h * c,
        d_w * d_h * c <= usize::MAX,
    ensures
        r@.len() == d_w * d_h * c,
        r@ == resized(src@, s_w as int, s_h as int, c as int, d_w as int, d_h as int),
{
    let ghost gres = resized(src@, s_w as int, s_h as int, c as int, d_w as int, d_h as int);
    proof {
        assert(d_w * c <= d_w * d_h * c && d_w * c * d_h == d_w * d_h * c) by (nonlinear_arith)
            requires
                1 <= d_h,
                0 <= d_w,
                0 <= c,
        ;
    }
    let row: usize = (d_w as usize) * (c as usize);
    let s_len: usize = src.len();
    let mut out: Vec<u8> = Vec::new();
    let mut dy: u32 = 0;
    while dy < d_h
        invariant
            1 <= s_w && 1 <= s_h && 1 <= c && 1 <= d_w && 1 <= d_h,
            src@.len() == s_w * s_h * c,
            s_len == src@.len(),
            d_w * d_h * c <= usize::MAX,
            row == d_w * c,
            gres == resized(src@, s_w as int, s_h as int, c as int, d_w as int, d_h as int),
            dy <= d_h,
            out@.len() == dy * row,
            forall|j: int| 0 <= j < out@.len() ==> out@[j] == gres[j],
        decreases d_h - dy,
    {
        let (y0, y1, fy) = coords(dy, s_h, d_h);
        let mut dx: u32 = 0;
        while dx < d_w
            invariant
                1 <= s_w && 1 <= s_h && 1 <= c && 1 <= d_w && 1 <= d_h,
                dy < d_h,
                src@.len() == s_w * s_h * c,
                s_len == src@.len(),
                d_w * d_h * c <= usize::MAX,
                row == d_w * c,
                gres == resized(src@, s_w as int, s_h as int, c as int, d_w as int, d_h as int),
                y0 == coord_lo(dy as int, s_h as int, d_h as int),
                y1 == coord_hi(dy as int, s_h as int, d_h as int),
                fy == coord_frac(dy as int, s_h as int, d_h as int),
                y0 <= y1 < s_h,
                fy < 65536,
                dx <= d_w,
                out@.len() == dy * row + dx * c,
                forall|j: int| 0 <= j < out@.len() ==> out@[j] == gres[j],
            decreases d_w - dx,
        {
            let (x0, x1, fx) = coords(dx, s_w, d_w);
            let mut ch: u32 = 0;
            proof {
                lemma_row_bound(dy as int, dx as int, d_w as int, d_h as int, c as int);
            }
            while ch < c
                invariant
                    1 <= s_w && 1 <= s_h && 1 <= c && 1 <= d_w && 1 <= d_h,
                    dy < d_h,
                    dx < d_w,
                    src@.len() == s_w * s_h * c,
                    s_len == src@.len(),
                    d_w * d_h * c <= usize::MAX,
                    row == d_w * c,
                    gres == resized(
                        src@,
                        s_w as int,
                        s_h as int,
                        c as int,
                        d_w as int,
                        d_h as int,
                    ),
                    y0 == coord_lo(dy as int, s_h as int, d_h as int),
                    y1 == coord_hi(dy as int, s_h as int, d_h as int),
                    fy == coord_frac(dy as int, s_h as int, d_h as int),
                    x0 == coord_lo(dx as int, s_w as int, d_w as int),
                    x1 == coord_hi(dx as int, s_w as int, d_w as int),
                    fx == coord_frac(dx as int, s_w as int, d_w as int),
                    y0 <= y1 < s_h,
                    x0 <= x1 < s_w,
                    fx < 65536,
                    fy < 65536,
                    (dy * d_w + dx + 1) * c <= d_w * d_h * c,
                    ch <= c,
                    out@.len() == dy * row + dx * c + ch,
                    forall|j: int| 0 <= j < out@.len() ==> out@[j] == gres[j],
                decreases c - ch,
            {
                proof {
                    lemma_flat_index_bound(x0 as int, y0 as int, ch as int, s_w as int, s_h as int, c as int);
                    lemma_flat_index_bound(x1 as int, y0 as int, ch as int, s_w as int, s_h as int, c as int);
                    lemma_flat_index_bound(x0 as int, y1 as int, ch as int, s_w as int, s_h as int, c as int);
                    lemma_flat_index_bound(x1 as int, y1 as int, ch as int, s_w as int, s_h as int, c as int);
                }
                let p00: u8 = src[(y0 * (s_w as usize) + x0) * (c as usize) + (ch as usize)];
                let p01: u8 = src[(y0 * (s_w as usize) + x1) * (c as usize) + (ch as usize)];
                let p10: u8 = src[(y1 * (s_w as usize) + x0) * (c as usize) + (ch as usize)];
                let p11: u8 = src[(y1 * (s_w as usize) + x1) * (c as usize) + (ch as usize)];
                let v: u8 = lerp_channel(p00, p01, p10, p11, fx, fy);
                proof {
                    let i = out@.len() as int;
                    lemma_row_bound(dy as int, dx as int, d_w as int, d_h as int, c as int);
                    lemma_out_index_decompose(dy as int, dx as int, ch as int, d_w as int, c as int);
                    assert(i == dy * ((d_w as int) * (c as int)) + dx * c + ch);
                    assert(0 <= i < d_w * d_h * c);
                    assert(gres[i] == resize_px(
                        src@,
                        s_w as int,
                        s_h as int,
                        c as int,
                        d_w as int,
                        d_h as int,
                        dx as int,
                        dy as int,
                        ch as int,
                    ));
                    assert(gres[i] == v);
                }
                out.push(v);
                ch = ch + 1;
            }
            dx = dx + 1;
            proof {
                assert(dx * (c as int) == (dx - 1) * c + c) by (nonlinear_arith)
                    requires
                        1 <= dx,
                ;
            }
        }
        dy = dy + 1;
        proof {
            assert((dy - 1) * row + d_w * c == dy * row) by (nonlinear_arith)
                requires
                    row == d_w * c,
                    1 <= dy,
            ;
        }
    }
    proof {
        assert(out@.len() == d_h * row);
        assert(d_h * row == d_w * d_h * c) by (nonlinear_arith)
            requires
                row == d_w * c,
        ;
        assert(out@ =~= gres);
    }
    out
}

/// A pixel's flat byte index lies inside the payload.
proof fn lemma_flat_index_bound(x: int, y: int, ch: int, w: int, h: int, c: int)
    requires
        0 <= x < w,
        0 <= y < h,
        0 <= ch < c,
    ensures
        0 <= y * w <= y * w + x,
        y * w + x <= (y * w + x) * c,
        0 <= (y * w + x) * c + ch < w * h * c,
{
    assert(0 <= y * w <= y * w + x && y * w + x <= (y * w + x) * c && 0 <= (y * w + x) * c + ch
        < w * h * c) by (nonlinear_arith)
        requires
            0 <= x < w,
            0 <= y < h,
            0 <= ch < c,
    ;
}

/// One output row of pixels ends within the whole payload.
proof fn lemma_row_bound(dy: int, dx: int, d_w: int, d_h: int, c: int)
    requires
        0 <= dy < d_h,
        0 <= dx < d_w,
        0 <= c,
    ensures
        (dy * d_w + dx + 1) * c <= d_w * d_h * c,
        dy * (d_w * c) + dx * c + c == (dy * d_w + dx + 1) * c,
{
    assert((dy * d_w + dx + 1) * c <= d_w * d_h * c && dy * (d_w * c) + dx * c + c == (dy * d_w
        + dx + 1) * c) by (nonlinear_arith)
        requires
            0 <= dy < d_h,
            0 <= dx < d_w,
            0 <= c,
    ;
}

/// Row, column, and channel of a flat output index.
proof fn lemma_out_index_decompose(dy: int, dx: int, ch: int, d_w: int, c: int)
    requires
        0 <= dy,
        0 <= dx < d_w,
        0 <= ch < c,
    ensures
        (dy * (d_w * c) + dx * c + ch) / (d_w * c) == dy,
        ((dy * (d_w * c) + dx * c + ch) % (d_w * c)) / c == dx,
        (dy * (d_w * c) + dx * c + ch) % (d_w * c) % c == ch,
{
    let row = d_w * c;
    let rem = dx * c + ch;
    assert(0 <= rem < row && 0 < row) by (nonlinear_arith)
        requires
            rem == dx * c + ch,
            row == d_w * c,
            0 <= dx < d_w,
            0 <= ch < c,
    ;
    vstd::arithmetic::div_mod::lemma_fundamental_div_mod_converse(
        dy * row + rem,
        row,
        dy,
        rem,
    );
    vstd::arithmetic::div_mod::lemma_fundamental_div_mod_converse(rem, c, dx, ch);
}

/// Exchanging the first and third channel twice restores the payload.
pub proof fn lemma_swap_rb_involutive(data: Seq<u8>)
    requires
        data.len() % 3 == 0,
    ensures
        swap_rb(swap_rb(data)) == data,
{
    assert forall|i: int| 0 <= i < data.len() implies swap_rb(swap_rb(data))[i] == data[i] by {
        if i % 3 == 0 {
            assert((i + 2) % 3 == 2) by {
                vstd::arithmetic::div_mod::lemma_fundamental_div_mod_converse_mod(
                    i + 2,
                    3,
                    i / 3,
                    2,
                );
                vstd::arithmetic::div_mod::lemma_fundamental_div_mod(i, 3);
            }
        } else if i % 3 == 2 {
            assert((i - 2) % 3 == 0) by {
                vstd::arithmetic::div_mod::lemma_fundamental_div_mod_converse_mod(
                    i - 2,
                    3,
                    i / 3,
                    0,
                );
                vstd::arithmetic::div_mod::lemma_fundamental_div_mod(i, 3);
            }
        }
    }
    assert(swap_rb(swap_rb(data)) =~= data);
}

/// On a destination grid of the source's own size the fixed-point
/// mapping lands exactly on each source pixel with a zero fractional
/// weight.
proof fn lemma_same_size_coords(d: int, s_len: int)
    requires
        0 <= d < s_len,
    ensures
        coord_lo(d, s_len, s_len) == d,
        coord_frac(d, s_len, s_len) == 0,
{
    let a = (2 * d + 1) * 32768;
    assert((2 * d + 1) * s_len * 32768 == a * s_len) by (nonlinear_arith)
        requires
            a == (2 * d + 1) * 32768,
    ;
    vstd::arithmetic::div_mod::lemma_fundamental_div_mod_converse(a * s_len, s_len, a, 0);
    assert(src_coord_q16(d, s_len, s_len) == 65536 * d);
    vstd::arithmetic::div_mod::lemma_fundamental_div_mod_converse(65536 * d, 65536, d, 0);
}

/// With both fractional weights zero the blend is the lower-left
/// sample, whatever the other three are.
proof fn lemma_lerp2_zero_weights(p00: u8, p01: u8, p10: u8, p11: u8)
    ensures
        lerp2(p00, p01, p10, p11, 0, 0) == p00,
{
    let numer = (p00 as int) * 0x1_0000_0000 + 0x8000_0000;
    assert((p00 * (65536 - 0) + p01 * 0) * (65536 - 0) + (p10 * (65536 - 0) + p11 * 0) * 0
        + 0x8000_0000 == numer);
    vstd::arithmetic::div_mod::lemma_fundamental_div_mod_converse(
        numer,
        0x1_0000_0000,
        p00 as int,
        0x8000_0000,
    );
}

/// Resampling a payload to its own dimensions returns it unchanged:
/// the transformation is idempotent in dimensions and, at the source
/// size, even in content.
pub proof fn lemma_resize_same_size_identity(src: Seq<u8>, w: int, h: int, c: int)
    requires
        1 <= w,
        1 <= h,
        1 <= c,
        src.len() == w * h * c,
    ensures
        resized(src, w, h, c, w, h) == src,
{
    let res = resized(src, w, h, c, w, h);
    let row = w * c;
    assert(0 < row && row * h == w * h * c && c * w == row) by (nonlinear_arith)
        requires
            row == w * c,
            1 <= w,
            1 <= h,
            1 <= c,
    ;
    assert forall|i: int| 0 <= i < src.len() implies res[i] == src[i] by {
        let dy = i / row;
        let rem = i % row;
        let dx = rem / c;
        let ch = rem % c;
        vstd::arithmetic::div_mod::lemma_fundamental_div_mod(i, row);
        vstd::arithmetic::div_mod::lemma_mod_division_less_than_divisor(i, row);
        vstd::arithmetic::div_mod::lemma_fundamental_div_mod(rem, c);
        vstd::arithmetic::div_mod::lemma_mod_division_less_than_divisor(rem, c);
        assert(i < row * h && rem < c * w);
        vstd::arithmetic::div_mod::lemma_multiply_divide_lt(i, row, h);
        vstd::arithmetic::div_mod::lemma_multiply_divide_lt(rem, c, w);
        lemma_same_size_coords(dx, w);
        lemma_same_size_coords(dy, h);
        let p00 = sample(src, w, c, dx, dy, ch);
        lemma_lerp2_zero_weights(
            p00,
            sample(src, w, c, coord_hi(dx, w, w), dy, ch),
            sample(src, w, c, dx, coord_hi(dy, h, h), ch),
            sample(src, w, c, coord_hi(dx, w, w), coord_hi(dy, h, h), ch),
        );
        assert((dy * w + dx) * c + ch == dy * row + dx * c + ch) by (nonlinear_arith)
            requires
                row == w * c,
        ;
        assert(res[i] == p00);
        assert(p00 == src[i]);
    }
    assert(res =~= src);
}

/// Converts a color buffer to the output: the first and third channel
/// are exchanged, then the grid is resampled to the target dimensions.
pub fn transform(buffer: &PixelBuffer, target_width: u32, target_height: u32) -> (r: PixelBuffer)
    requires
        buffer.wf(),
        buffer.channels.spec_count() == 3,
        1 <= buffer.width,
        1 <= buffer.height,
        1 <= target_width,
        1 <= target_height,
        target_width * target_height * 3 <= usize::MAX,
    ensures
        r.wf(),
        r.width == target_width,
        r.height == target_height,
        r.channels == buffer.channels.spec_swapped(),
        r.data@.len() == target_width * target_height * 3,
        r.data@ == resized(
            swap_rb(buffer.data@),
            buffer.width as int,
            buffer.height as int,
            3,
            target_width as int,
            target_height as int,
        ),
{
    proof {
        assert(buffer.width * buffer.height * 3 % 3 == 0) by (nonlinear_arith);
    }
    let reordered: Vec<u8> = swap_rb_exec(&buffer.data);
    let data: Vec<u8> = resize_linear(
        &reordered,
        buffer.width,
        buffer.height,
        3,
        target_width,
        target_height,
    );
    PixelBuffer {
        width: target_width,
        height: target_height,
        channels: buffer.channels.swapped(),
        data,
    }
}

} // verus!

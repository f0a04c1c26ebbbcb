//! Procedural sprite rasterizer: pure pixel code that draws the grid, the X
//! and the O glyphs (and a decorative circle) into RGBA8 buffers.
//!
//! All geometry is exact integer arithmetic. A band test `|p - c| <= t/2`
//! against a rational centre `c = n/d` is carried out scaled by `2*d`, so no
//! rounding is involved; the O glyph's circle offset `cos(asin(sy))`, which
//! equals `sqrt(1 - sy*sy)`, is computed with an integer square root, so the
//! domain edges `sy = +-1` stay exact and produce no undefined value.

use vstd::math::abs;
use vstd::prelude::*;

verus! {

/// The four bytes starting at `i` are an opaque black pixel.
pub open spec fn black_at(buf: Seq<u8>, i: int) -> bool {
    &&& buf[i] == 0
    &&& buf[i + 1] == 0
    &&& buf[i + 2] == 0
    &&& buf[i + 3] == 255
}

/// The four bytes starting at `i` are a fully transparent white pixel.
pub open spec fn white_at(buf: Seq<u8>, i: int) -> bool {
    &&& buf[i] == 255
    &&& buf[i + 1] == 255
    &&& buf[i + 2] == 255
    &&& buf[i + 3] == 0
}

/// Pixel (x, y) of a row-major RGBA8 buffer of the given width is opaque
/// black when `fg` holds, else transparent white.
pub open spec fn pixel_matches(buf: Seq<u8>, width: int, x: int, y: int, fg: bool) -> bool {
    if fg {
        black_at(buf, 4 * (y * width + x))
    } else {
        white_at(buf, 4 * (y * width + x))
    }
}

/// `p` lies within half a stroke width of the 1/3 or the 2/3 mark of `span`:
/// `|p - span/3| <= t/2` or `|p - 2*span/3| <= t/2`, scaled by 6.
pub open spec fn near_third(p: int, span: int, t: int) -> bool {
    ||| abs(6 * p - 2 * span) <= 3 * t
    ||| abs(6 * p - 4 * span) <= 3 * t
}

/// Pixel (x, y) of the grid glyph is foreground: it falls in a vertical band
/// around the 1/3 or 2/3 mark of the width, or a horizontal band around the
/// 1/3 or 2/3 mark of the height.
pub open spec fn grid_fg(width: int, height: int, t: int, x: int, y: int) -> bool {
    ||| near_third(x, width, t)
    ||| near_third(y, height, t)
}

/// Pixel (x, y) of the X glyph is foreground: `x` lies within half a stroke
/// width of the ascending diagonal `ux = (width/height)*y` or of its mirror
/// `width - ux`, both scaled by `2*height` to stay in integers.
pub open spec fn x_fg(width: int, height: int, t: int, x: int, y: int) -> bool {
    ||| abs(2 * (x * height - width * y)) <= t * height
    ||| abs(2 * (x * height + width * y - width * height)) <= t * height
}

/// Floor of the square root of `n` (zero for non-positive `n`).
pub open spec fn isqrt_spec(n: int) -> int
    decreases n,
{
    if n <= 0 {
        0
    } else {
        let r = isqrt_spec(n - 1);
        if (r + 1) * (r + 1) <= n {
            r + 1
        } else {
            r
        }
    }
}

/// `isqrt_spec` really is the floor square root: `r*r <= n < (r+1)*(r+1)`.
pub proof fn lemma_isqrt(n: int)
    requires
        n >= 0,
    ensures
        ({
            let r = isqrt_spec(n);
            0 <= r && r * r <= n && n < (r + 1) * (r + 1)
        }),
    decreases n,
{
    if n > 0 {
        lemma_isqrt(n - 1);
        let r0 = isqrt_spec(n - 1);
        if (r0 + 1) * (r0 + 1) <= n {
            assert((r0 + 2) * (r0 + 2) > (r0 + 1) * (r0 + 1)) by (nonlinear_arith)
                requires r0 >= 0;
        }
    }
}

/// Any `r` in the floor-square-root window of `n` is `isqrt_spec(n)`.
pub proof fn lemma_isqrt_unique(n: int, r: int)
    requires
        n >= 0,
        r >= 0,
        r * r <= n,
        n < (r + 1) * (r + 1),
    ensures
        r == isqrt_spec(n),
{
    lemma_isqrt(n);
    let s = isqrt_spec(n);
    if r < s {
        assert((r + 1) * (r + 1) <= s * s) by (nonlinear_arith)
            requires 0 <= r + 1 <= s;
    }
    if s < r {
        assert((s + 1) * (s + 1) <= r * r) by (nonlinear_arith)
            requires 0 <= s + 1 <= r;
    }
}

/// Floor square root by bisection.
fn isqrt(n: u128) -> (r: u64)
    ensures
        r as int == isqrt_spec(n as int),
        (r as int) * (r as int) <= n as int,
        (n as int) < (r as int + 1) * (r as int + 1),
{
    let mut lo: u128 = 0;
    let mut hi: u128 = 0x1_0000_0000_0000_0000;
    assert((0x1_0000_0000_0000_0000 as int) * (0x1_0000_0000_0000_0000 as int) > n as int);
    while lo + 1 < hi
        invariant
            lo < hi,
            hi <= 0x1_0000_0000_0000_0000,
            (lo as int) * (lo as int) <= n as int,
            (n as int) < (hi as int) * (hi as int),
        decreases hi - lo,
    {
        let mid = lo + (hi - lo) / 2;
        assert((mid as int) * (mid as int) < 0x1_0000_0000_0000_0000_0000_0000_0000_0000)
            by (nonlinear_arith)
            requires 0 <= (mid as int) < 0x1_0000_0000_0000_0000;
        if mid * mid <= n {
            lo = mid;
        } else {
            hi = mid;
        }
    }
    proof {
        lemma_isqrt_unique(n as int, lo as int);
    }
    lo as u64
}

/// Horizontal half-width of the O glyph's circle at row `y`, in pixels:
/// `(width/height) * sqrt(y * (height - y))`, which equals
/// `(width/2) * cos(asin(sy))` for `sy = 2*y/height - 1`, rounded down.
pub open spec fn o_off(width: int, height: int, y: int) -> int {
    isqrt_spec(width * width * y * (height - y)) / height
}

/// Pixel (x, y) of the O glyph is foreground: `x` lies within half a stroke
/// width of one of the two circle candidates `width/2 +- o_off`, carried out
/// in doubled (half-pixel) units.
pub open spec fn o_fg(width: int, height: int, t: int, x: int, y: int) -> bool {
    ||| abs(2 * x - width - 2 * o_off(width, height, y)) <= t
    ||| abs(2 * x - width + 2 * o_off(width, height, y)) <= t
}

/// Pixel (x, y) of the decorative shape lies exactly on the circle of radius
/// `width/2` centred in the square buffer, in doubled units.
pub open spec fn circle_fg(width: int, x: int, y: int) -> bool {
    (2 * x - width) * (2 * x - width) + (2 * y - width) * (2 * y - width) == width * width
}

/// At the poles (the top row and the row one past the bottom) the O glyph's
/// two x-candidates collapse to the centre column: the offset is zero, with
/// no domain edge left undefined.
pub proof fn lemma_o_pole_collapse(width: int, height: int)
    requires
        width >= 0,
        height >= 1,
    ensures
        o_off(width, height, 0) == 0,
        o_off(width, height, height) == 0,
{
    assert(width * width * 0 * (height - 0) == 0) by (nonlinear_arith);
    assert(width * width * height * (height - height) == 0) by (nonlinear_arith);
}

/// The circle never leaves the buffer horizontally: the offset is at most
/// half the width, so both candidates lie between 0 and the width.
pub proof fn lemma_o_off_bounds(width: int, height: int, y: int)
    requires
        width >= 0,
        height >= 1,
        0 <= y <= height,
    ensures
        0 <= o_off(width, height, y),
        2 * o_off(width, height, y) <= width,
{
    let m = width * width * y * (height - y);
    assert(m >= 0) by (nonlinear_arith)
        requires width >= 0 && 0 <= y <= height && m == width * width * y * (height - y);
    lemma_isqrt(m);
    let s = isqrt_spec(m);
    // (height - 2y)^2 >= 0 gives 4*y*(height-y) <= height^2, hence
    // (2s)^2 <= 4m <= (width*height)^2.
    assert(4 * m <= (width * height) * (width * height)) by (nonlinear_arith)
        requires width >= 0 && 0 <= y <= height && m == width * width * y * (height - y);
    assert(2 * s <= width * height) by (nonlinear_arith)
        requires
            s >= 0 && width * height >= 0 && s * s <= m && 4 * m <= (width * height) * (width
                * height);
    vstd::arithmetic::div_mod::lemma_fundamental_div_mod(s, height);
    vstd::arithmetic::div_mod::lemma_mod_bound(s, height);
    vstd::arithmetic::div_mod::lemma_div_pos_is_pos(s, height);
    assert(2 * (s / height) <= width) by (nonlinear_arith)
        requires
            height >= 1 && s == height * (s / height) + s % height && 0 <= s % height && 2 * s
                <= width * height && 0 <= s / height;
}

/// A pixel sitting exactly on a band centre (the 1/3 or 2/3 mark of either
/// axis) is foreground in the grid glyph for any stroke width of at least
/// one.
pub proof fn lemma_grid_band_center(width: int, height: int, t: int, x: int, y: int)
    requires
        t >= 1,
        3 * x == width || 3 * x == 2 * width || 3 * y == height || 3 * y == 2 * height,
    ensures
        grid_fg(width, height, t, x, y),
{
}

/// A pixel whose four bytes lie below the preserved prefix keeps its colour
/// when a buffer grows at the end.
proof fn lemma_pixel_preserved(prev: Seq<u8>, cur: Seq<u8>, width: int, x: int, y: int, fg: bool)
    requires
        prev.len() <= cur.len(),
        forall|i: int| 0 <= i < prev.len() ==> cur[i] == prev[i],
        0 <= x < width,
        0 <= y,
        4 * (y * width + x) + 4 <= prev.len(),
        pixel_matches(prev, width, x, y, fg),
    ensures
        pixel_matches(cur, width, x, y, fg),
{
    assert(y * width + x >= 0) by (nonlinear_arith)
        requires 0 <= x && 0 <= y && 0 < width;
}

/// The four bytes appended for pixel (x, y) sit at its row-major index and
/// carry its colour.
proof fn lemma_pixel_new(prev: Seq<u8>, cur: Seq<u8>, width: int, x: int, y: int, fg: bool)
    requires
        0 <= x < width,
        0 <= y,
        4 * (y * width + x) == prev.len(),
        cur == prev + (if fg {
            seq![0u8, 0u8, 0u8, 255u8]
        } else {
            seq![255u8, 255u8, 255u8, 0u8]
        }),
    ensures
        pixel_matches(cur, width, x, y, fg),
{
}

fn near_third_at(p: u32, span: u32, t: u32) -> (r: bool)
    ensures
        r == near_third(p as int, span as int, t as int),
{
    let p6: i64 = 6 * (p as i64);
    let s2: i64 = 2 * (span as i64);
    let s4: i64 = 4 * (span as i64);
    let t3: i64 = 3 * (t as i64);
    let d1: i64 = if p6 >= s2 {
        p6 - s2
    } else {
        s2 - p6
    };
    let d2: i64 = if p6 >= s4 {
        p6 - s4
    } else {
        s4 - p6
    };
    d1 <= t3 || d2 <= t3
}

fn grid_fg_at(width: u32, height: u32, t: u32, x: u32, y: u32) -> (r: bool)
    ensures
        r == grid_fg(width as int, height as int, t as int, x as int, y as int),
{
    near_third_at(x, width, t) || near_third_at(y, height, t)
}

fn x_fg_at(width: u32, height: u32, t: u32, x: u32, y: u32) -> (r: bool)
    ensures
        r == x_fg(width as int, height as int, t as int, x as int, y as int),
{
    proof {
        assert forall|a: int, b: int|
            0 <= a <= 0xffff_ffff && 0 <= b <= 0xffff_ffff implies #[trigger] (a * b)
            <= 0xffff_fffe_0000_0001 by {
            assert(a * b <= 0xffff_fffe_0000_0001) by (nonlinear_arith)
                requires 0 <= a <= 0xffff_ffff && 0 <= b <= 0xffff_ffff;
        }
        assert((x as int) * (height as int) <= 0xffff_fffe_0000_0001);
        assert((width as int) * (y as int) <= 0xffff_fffe_0000_0001);
        assert((width as int) * (height as int) <= 0xffff_fffe_0000_0001);
        assert((t as int) * (height as int) <= 0xffff_fffe_0000_0001);
    }
    let xh: i128 = (x as i128) * (height as i128);
    let wy: i128 = (width as i128) * (y as i128);
    let wh: i128 = (width as i128) * (height as i128);
    let th: i128 = (t as i128) * (height as i128);
    let a1: i128 = 2 * (xh - wy);
    let a2: i128 = 2 * (xh + wy - wh);
    let d1: i128 = if a1 >= 0 {
        a1
    } else {
        -a1
    };
    let d2: i128 = if a2 >= 0 {
        a2
    } else {
        -a2
    };
    d1 <= th || d2 <= th
}

fn circle_fg_at(width: u32, x: u32, y: u32) -> (r: bool)
    ensures
        r == circle_fg(width as int, x as int, y as int),
{
    let dx: i128 = 2 * (x as i128) - (width as i128);
    let dy: i128 = 2 * (y as i128) - (width as i128);
    proof {
        assert((width as int) * (width as int) <= 0xffff_fffe_0000_0001) by (nonlinear_arith)
            requires 0 <= (width as int) <= 0xffff_ffff;
        assert((dx as int) * (dx as int) <= 0x4_0000_0000_0000_0000) by (nonlinear_arith)
            requires -0x2_0000_0000 <= (dx as int) <= 0x2_0000_0000;
        assert((dy as int) * (dy as int) <= 0x4_0000_0000_0000_0000) by (nonlinear_arith)
            requires -0x2_0000_0000 <= (dy as int) <= 0x2_0000_0000;
        assert((dx as int) * (dx as int) >= 0) by (nonlinear_arith);
        assert((dy as int) * (dy as int) >= 0) by (nonlinear_arith);
    }
    let ww: i128 = (width as i128) * (width as i128);
    dx * dx + dy * dy == ww
}

/// The circle offset of the O glyph at row `y`, as executable code.
fn o_offset_at(width: u32, height: u32, y: u32) -> (off: u64)
    requires
        height >= 1,
        y <= height,
    ensures
        off as int == o_off(width as int, height as int, y as int),
{
    proof {
        assert((width as int) * (width as int) <= 0xffff_fffe_0000_0001) by (nonlinear_arith)
            requires 0 <= (width as int) <= 0xffff_ffff;
        assert((y as int) * ((height - y) as int) <= 0xffff_fffe_0000_0001) by (nonlinear_arith)
            requires 0 <= (y as int) <= 0xffff_ffff && 0 <= ((height - y) as int) <= 0xffff_ffff;
    }
    let ww: u128 = (width as u128) * (width as u128);
    let yh: u128 = (y as u128) * ((height - y) as u128);
    proof {
        assert((ww as int) * (yh as int) < 0x1_0000_0000_0000_0000_0000_0000_0000_0000)
            by (nonlinear_arith)
            requires
                0 <= (ww as int) <= 0xffff_fffe_0000_0001 && 0 <= (yh as int)
                    <= 0xffff_fffe_0000_0001;
    }
    let m: u128 = ww * yh;
    proof {
        assert((ww as int) * (yh as int) == (width as int) * (width as int) * (y as int) * ((
        height as int) - (y as int))) by (nonlinear_arith)
            requires
                (ww as int) == (width as int) * (width as int) && (yh as int) == (y as int) * ((
                height - y) as int) && ((height - y) as int) == (height as int) - (y as int);
    }
    let s = isqrt(m);
    let off: u64 = s / (height as u64);
    off
}

/// The two x-candidates the O glyph paints at row `y`, in doubled
/// (half-pixel) units: `width -+ 2 * o_off`. Both equal `width` (that is,
/// the centre column `width/2`) at the poles.
pub fn o_candidates(width: u32, height: u32, y: u32) -> (c: (i128, i128))
    requires
        height >= 1,
        y <= height,
    ensures
        c.0 == width as int - 2 * o_off(width as int, height as int, y as int),
        c.1 == width as int + 2 * o_off(width as int, height as int, y as int),
        0 <= c.0 <= c.1 <= 2 * width as int,
{
    proof {
        lemma_o_off_bounds(width as int, height as int, y as int);
    }
    let off = o_offset_at(width, height, y);
    ((width as i128) - 2 * (off as i128), (width as i128) + 2 * (off as i128))
}

/// Whether pixel `x` falls within half a stroke width of one of the two
/// circle candidates, given the row's offset in pixels.
fn o_band_at(width: u32, t: u32, x: u32, off: u64) -> (r: bool)
    ensures
        r == ({
            ||| abs(2 * (x as int) - (width as int) - 2 * (off as int)) <= t as int
            ||| abs(2 * (x as int) - (width as int) + 2 * (off as int)) <= t as int
        }),
{
    let tx: i128 = 2 * (x as i128) - (width as i128);
    let o2: i128 = 2 * (off as i128);
    let a1: i128 = tx - o2;
    let a2: i128 = tx + o2;
    let d1: i128 = if a1 >= 0 {
        a1
    } else {
        -a1
    };
    let d2: i128 = if a2 >= 0 {
        a2
    } else {
        -a2
    };
    d1 <= (t as i128) || d2 <= (t as i128)
}

/// Append one RGBA8 pixel: opaque black for foreground, else transparent
/// white, the alpha channel doubling as a stencil.
fn push_pixel(bytes: &mut Vec<u8>, fg: bool)
    ensures
        final(bytes)@ == old(bytes)@ + (if fg {
            seq![0u8, 0u8, 0u8, 255u8]
        } else {
            seq![255u8, 255u8, 255u8, 0u8]
        }),
{
    if fg {
        bytes.push(0);
        bytes.push(0);
        bytes.push(0);
        bytes.push(255);
        proof {
            assert(bytes@ =~= old(bytes)@ + seq![0u8, 0u8, 0u8, 255u8]);
        }
    } else {
        bytes.push(255);
        bytes.push(255);
        bytes.push(255);
        bytes.push(0);
        proof {
            assert(bytes@ =~= old(bytes)@ + seq![255u8, 255u8, 255u8, 0u8]);
        }
    }
}

/// The "#" glyph: width x height RGBA8 pixels, foreground exactly on the
/// four third-mark bands.
pub fn draw_grid(width: u32, height: u32, line_width: u32) -> (buf: Vec<u8>)
    requires
        4 * ((width as int) * (height as int)) <= usize::MAX,
    ensures
        buf@.len() == 4 * ((width as int) * (height as int)),
        forall|x: int, y: int|
            0 <= x < width as int && 0 <= y < height as int ==> pixel_matches(
                buf@,
                width as int,
                x,
                y,
                grid_fg(width as int, height as int, line_width as int, x, y),
            ),
{
    let mut buf: Vec<u8> = Vec::new();
    let mut y: u32 = 0;
    while y < height
        invariant
            y <= height,
            4 * ((width as int) * (height as int)) <= usize::MAX,
            buf@.len() == 4 * ((width as int) * (y as int)),
            forall|xx: int, yy: int|
                0 <= xx < width as int && 0 <= yy < y as int ==> pixel_matches(
                    buf@,
                    width as int,
                    xx,
                    yy,
                    grid_fg(width as int, height as int, line_width as int, xx, yy),
                ),
        decreases height - y,
    {
        let mut x: u32 = 0;
        while x < width
            invariant
                x <= width,
                y < height,
                4 * ((width as int) * (height as int)) <= usize::MAX,
                buf@.len() == 4 * ((width as int) * (y as int)) + 4 * (x as int),
                forall|xx: int, yy: int|
                    0 <= xx < width as int && 0 <= yy < y as int ==> pixel_matches(
                        buf@,
                        width as int,
                        xx,
                        yy,
                        grid_fg(width as int, height as int, line_width as int, xx, yy),
                    ),
                forall|xx: int|
                    0 <= xx < x as int ==> pixel_matches(
                        buf@,
                        width as int,
                        xx,
                        y as int,
                        grid_fg(width as int, height as int, line_width as int, xx, y as int),
                    ),
            decreases width - x,
        {
            let ghost prev = buf@;
            let fg = grid_fg_at(width, height, line_width, x, y);
            push_pixel(&mut buf, fg);
            proof {
                let w = width as int;
                let h = height as int;
                let t = line_width as int;
                let xi = x as int;
                let yi = y as int;
                assert forall|xx: int, yy: int|
                    0 <= xx < w && 0 <= yy < yi implies pixel_matches(
                    buf@,
                    w,
                    xx,
                    yy,
                    grid_fg(w, h, t, xx, yy),
                ) by {
                    assert(4 * (yy * w + xx) + 4 <= prev.len()) by (nonlinear_arith)
                        requires
                            0 <= xx < w && 0 <= yy < yi && 0 <= xi && prev.len() == 4 * (w * yi) + 4
                                * xi;
                    lemma_pixel_preserved(prev, buf@, w, xx, yy, grid_fg(w, h, t, xx, yy));
                }
                assert forall|xx: int| 0 <= xx < xi implies pixel_matches(
                    buf@,
                    w,
                    xx,
                    yi,
                    grid_fg(w, h, t, xx, yi),
                ) by {
                    assert(4 * (yi * w + xx) + 4 <= prev.len()) by (nonlinear_arith)
                        requires 0 <= xx < xi && prev.len() == 4 * (w * yi) + 4 * xi;
                    lemma_pixel_preserved(prev, buf@, w, xx, yi, grid_fg(w, h, t, xx, yi));
                }
                assert(4 * (yi * w + xi) == prev.len()) by (nonlinear_arith)
                    requires prev.len() == 4 * (w * yi) + 4 * xi;
                lemma_pixel_new(prev, buf@, w, xi, yi, fg);
            }
            x = x + 1;
        }
        proof {
            let w = width as int;
            let h = height as int;
            let t = line_width as int;
            let yi = y as int;
            assert(buf@.len() == 4 * (w * (yi + 1))) by (nonlinear_arith)
                requires buf@.len() == 4 * (w * yi) + 4 * w;
            assert forall|xx: int, yy: int|
                0 <= xx < w && 0 <= yy < yi + 1 implies pixel_matches(
                buf@,
                w,
                xx,
                yy,
                grid_fg(w, h, t, xx, yy),
            ) by {
                if yy == yi {
                    assert(pixel_matches(buf@, w, xx, yi, grid_fg(w, h, t, xx, yi)));
                }
            }
        }
        y = y + 1;
    }
    buf
}


/// The X glyph: two crossing diagonals scaled to the aspect ratio.
pub fn draw_x(width: u32, height: u32, line_width: u32) -> (buf: Vec<u8>)
    requires
        4 * ((width as int) * (height as int)) <= usize::MAX,
    ensures
        buf@.len() == 4 * ((width as int) * (height as int)),
        forall|x: int, y: int|
            0 <= x < width as int && 0 <= y < height as int ==> pixel_matches(
                buf@,
                width as int,
                x,
                y,
                x_fg(width as int, height as int, line_width as int, x, y),
            ),
{
    let mut buf: Vec<u8> = Vec::new();
    let mut y: u32 = 0;
    while y < height
        invariant
            y <= height,
            4 * ((width as int) * (height as int)) <= usize::MAX,
            buf@.len() == 4 * ((width as int) * (y as int)),
            forall|xx: int, yy: int|
                0 <= xx < width as int && 0 <= yy < y as int ==> pixel_matches(
                    buf@,
                    width as int,
                    xx,
                    yy,
                    x_fg(width as int, height as int, line_width as int, xx, yy),
                ),
        decreases height - y,
    {
        let mut x: u32 = 0;
        while x < width
            invariant
                x <= width,
                y < height,
                4 * ((width as int) * (height as int)) <= usize::MAX,
                buf@.len() == 4 * ((width as int) * (y as int)) + 4 * (x as int),
                forall|xx: int, yy: int|
                    0 <= xx < width as int && 0 <= yy < y as int ==> pixel_matches(
                        buf@,
                        width as int,
                        xx,
                        yy,
                        x_fg(width as int, height as int, line_width as int, xx, yy),
                    ),
                forall|xx: int|
                    0 <= xx < x as int ==> pixel_matches(
                        buf@,
                        width as int,
                        xx,
                        y as int,
                        x_fg(width as int, height as int, line_width as int, xx, y as int),
                    ),
            decreases width - x,
        {
            let ghost prev = buf@;
            let fg = x_fg_at(width, height, line_width, x, y);
            push_pixel(&mut buf, fg);
            proof {
                let w = width as int;
                let h = height as int;
                let t = line_width as int;
                let xi = x as int;
                let yi = y as int;
                assert forall|xx: int, yy: int|
                    0 <= xx < w && 0 <= yy < yi implies pixel_matches(
                    buf@,
                    w,
                    xx,
                    yy,
                    x_fg(w, h, t, xx, yy),
                ) by {
                    assert(4 * (yy * w + xx) + 4 <= prev.len()) by (nonlinear_arith)
                        requires
                            0 <= xx < w && 0 <= yy < yi && 0 <= xi && prev.len() == 4 * (w * yi) + 4
                                * xi;
                    lemma_pixel_preserved(prev, buf@, w, xx, yy, x_fg(w, h, t, xx, yy));
                }
                assert forall|xx: int| 0 <= xx < xi implies pixel_matches(
                    buf@,
                    w,
                    xx,
                    yi,
                    x_fg(w, h, t, xx, yi),
                ) by {
                    assert(4 * (yi * w + xx) + 4 <= prev.len()) by (nonlinear_arith)
                        requires 0 <= xx < xi && prev.len() == 4 * (w * yi) + 4 * xi;
                    lemma_pixel_preserved(prev, buf@, w, xx, yi, x_fg(w, h, t, xx, yi));
                }
                assert(4 * (yi * w + xi) == prev.len()) by (nonlinear_arith)
                    requires prev.len() == 4 * (w * yi) + 4 * xi;
                lemma_pixel_new(prev, buf@, w, xi, yi, fg);
            }
            x = x + 1;
        }
        proof {
            let w = width as int;
            let h = height as int;
            let t = line_width as int;
            let yi = y as int;
            assert(buf@.len() == 4 * (w * (yi + 1))) by (nonlinear_arith)
                requires buf@.len() == 4 * (w * yi) + 4 * w;
            assert forall|xx: int, yy: int|
                0 <= xx < w && 0 <= yy < yi + 1 implies pixel_matches(
                buf@,
                w,
                xx,
                yy,
                x_fg(w, h, t, xx, yy),
            ) by {
                if yy == yi {
                    assert(pixel_matches(buf@, w, xx, yi, x_fg(w, h, t, xx, yi)));
                }
            }
        }
        y = y + 1;
    }
    buf
}

/// The O glyph: a circle traced row by row through its inverse-trig
/// (square-root) horizontal offset.
pub fn draw_o(width: u32, height: u32, line_width: u32) -> (buf: Vec<u8>)
    requires
        4 * ((width as int) * (height as int)) <= usize::MAX,
    ensures
        buf@.len() == 4 * ((width as int) * (height as int)),
        forall|x: int, y: int|
            0 <= x < width as int && 0 <= y < height as int ==> pixel_matches(
                buf@,
                width as int,
                x,
                y,
                o_fg(width as int, height as int, line_width as int, x, y),
            ),
{
    let mut buf: Vec<u8> = Vec::new();
    let mut y: u32 = 0;
    while y < height
        invariant
            y <= height,
            4 * ((width as int) * (height as int)) <= usize::MAX,
            buf@.len() == 4 * ((width as int) * (y as int)),
            forall|xx: int, yy: int|
                0 <= xx < width as int && 0 <= yy < y as int ==> pixel_matches(
                    buf@,
                    width as int,
                    xx,
                    yy,
                    o_fg(width as int, height as int, line_width as int, xx, yy),
                ),
        decreases height - y,
    {
        let off = o_offset_at(width, height, y);
        let mut x: u32 = 0;
        while x < width
            invariant
                x <= width,
                y < height,
                off as int == o_off(width as int, height as int, y as int),
                4 * ((width as int) * (height as int)) <= usize::MAX,
                buf@.len() == 4 * ((width as int) * (y as int)) + 4 * (x as int),
                forall|xx: int, yy: int|
                    0 <= xx < width as int && 0 <= yy < y as int ==> pixel_matches(
                        buf@,
                        width as int,
                        xx,
                        yy,
                        o_fg(width as int, height as int, line_width as int, xx, yy),
                    ),
                forall|xx: int|
                    0 <= xx < x as int ==> pixel_matches(
                        buf@,
                        width as int,
                        xx,
                        y as int,
                        o_fg(width as int, height as int, line_width as int, xx, y as int),
                    ),
            decreases width - x,
        {
            let ghost prev = buf@;
            let fg = o_band_at(width, line_width, x, off);
            proof {
                assert(fg == o_fg(
                    width as int,
                    height as int,
                    line_width as int,
                    x as int,
                    y as int,
                ));
            }
            push_pixel(&mut buf, fg);
            proof {
                let w = width as int;
                let h = height as int;
                let t = line_width as int;
                let xi = x as int;
                let yi = y as int;
                assert forall|xx: int, yy: int|
                    0 <= xx < w && 0 <= yy < yi implies pixel_matches(
                    buf@,
                    w,
                    xx,
                    yy,
                    o_fg(w, h, t, xx, yy),
                ) by {
                    assert(4 * (yy * w + xx) + 4 <= prev.len()) by (nonlinear_arith)
                        requires
                            0 <= xx < w && 0 <= yy < yi && 0 <= xi && prev.len() == 4 * (w * yi) + 4
                                * xi;
                    lemma_pixel_preserved(prev, buf@, w, xx, yy, o_fg(w, h, t, xx, yy));
                }
                assert forall|xx: int| 0 <= xx < xi implies pixel_matches(
                    buf@,
                    w,
                    xx,
                    yi,
                    o_fg(w, h, t, xx, yi),
                ) by {
                    assert(4 * (yi * w + xx) + 4 <= prev.len()) by (nonlinear_arith)
                        requires 0 <= xx < xi && prev.len() == 4 * (w * yi) + 4 * xi;
                    lemma_pixel_preserved(prev, buf@, w, xx, yi, o_fg(w, h, t, xx, yi));
                }
                assert(4 * (yi * w + xi) == prev.len()) by (nonlinear_arith)
                    requires prev.len() == 4 * (w * yi) + 4 * xi;
                lemma_pixel_new(prev, buf@, w, xi, yi, fg);
            }
            x = x + 1;
        }
        proof {
            let w = width as int;
            let h = height as int;
            let t = line_width as int;
            let yi = y as int;
            assert(buf@.len() == 4 * (w * (yi + 1))) by (nonlinear_arith)
                requires buf@.len() == 4 * (w * yi) + 4 * w;
            assert forall|xx: int, yy: int|
                0 <= xx < w && 0 <= yy < yi + 1 implies pixel_matches(
                buf@,
                w,
                xx,
                yy,
                o_fg(w, h, t, xx, yy),
            ) by {
                if yy == yi {
                    assert(pixel_matches(buf@, w, xx, yi, o_fg(w, h, t, xx, yi)));
                }
            }
        }
        y = y + 1;
    }
    buf
}

/// The decorative shape: a square buffer whose foreground pixels lie
/// exactly on the circle of radius `width/2` centred in it. The stroke
/// width parameter is taken for symmetry with the other glyphs and, as the
/// exact test needs no band, goes unused.
pub fn draw_weird_shapes(width: u32, _line_width: u32) -> (buf: Vec<u8>)
    requires
        4 * ((width as int) * (width as int)) <= usize::MAX,
    ensures
        buf@.len() == 4 * ((width as int) * (width as int)),
        forall|x: int, y: int|
            0 <= x < width as int && 0 <= y < width as int ==> pixel_matches(
                buf@,
                width as int,
                x,
                y,
                circle_fg(width as int, x, y),
            ),
{
    let mut buf: Vec<u8> = Vec::new();
    let mut y: u32 = 0;
    while y < width
        invariant
            y <= width,
            4 * ((width as int) * (width as int)) <= usize::MAX,
            buf@.len() == 4 * ((width as int) * (y as int)),
            forall|xx: int, yy: int|
                0 <= xx < width as int && 0 <= yy < y as int ==> pixel_matches(
                    buf@,
                    width as int,
                    xx,
                    yy,
                    circle_fg(width as int, xx, yy),
                ),
        decreases width - y,
    {
        let mut x: u32 = 0;
        while x < width
            invariant
                x <= width,
                y < width,
                4 * ((width as int) * (width as int)) <= usize::MAX,
                buf@.len() == 4 * ((width as int) * (y as int)) + 4 * (x as int),
                forall|xx: int, yy: int|
                    0 <= xx < width as int && 0 <= yy < y as int ==> pixel_matches(
                        buf@,
                        width as int,
                        xx,
                        yy,
                        circle_fg(width as int, xx, yy),
                    ),
                forall|xx: int|
                    0 <= xx < x as int ==> pixel_matches(
                        buf@,
                        width as int,
                        xx,
                        y as int,
                        circle_fg(width as int, xx, y as int),
                    ),
            decreases width - x,
        {
            let ghost prev = buf@;
            let fg = circle_fg_at(width, x, y);
            push_pixel(&mut buf, fg);
            proof {
                let w = width as int;
                let xi = x as int;
                let yi = y as int;
                assert forall|xx: int, yy: int|
                    0 <= xx < w && 0 <= yy < yi implies pixel_matches(
                    buf@,
                    w,
                    xx,
                    yy,
                    circle_fg(w, xx, yy),
                ) by {
                    assert(4 * (yy * w + xx) + 4 <= prev.len()) by (nonlinear_arith)
                        requires
                            0 <= xx < w && 0 <= yy < yi && 0 <= xi && prev.len() == 4 * (w * yi) + 4
                                * xi;
                    lemma_pixel_preserved(prev, buf@, w, xx, yy, circle_fg(w, xx, yy));
                }
                assert forall|xx: int| 0 <= xx < xi implies pixel_matches(
                    buf@,
                    w,
                    xx,
                    yi,
                    circle_fg(w, xx, yi),
                ) by {
                    assert(4 * (yi * w + xx) + 4 <= prev.len()) by (nonlinear_arith)
                        requires 0 <= xx < xi && prev.len() == 4 * (w * yi) + 4 * xi;
                    lemma_pixel_preserved(prev, buf@, w, xx, yi, circle_fg(w, xx, yi));
                }
                assert(4 * (yi * w + xi) == prev.len()) by (nonlinear_arith)
                    requires prev.len() == 4 * (w * yi) + 4 * xi;
                lemma_pixel_new(prev, buf@, w, xi, yi, fg);
            }
            x = x + 1;
        }
        proof {
            let w = width as int;
            let yi = y as int;
            assert(buf@.len() == 4 * (w * (yi + 1))) by (nonlinear_arith)
                requires buf@.len() == 4 * (w * yi) + 4 * w;
            assert forall|xx: int, yy: int|
                0 <= xx < w && 0 <= yy < yi + 1 implies pixel_matches(
                buf@,
                w,
                xx,
                yy,
                circle_fg(w, xx, yy),
            ) by {
                if yy == yi {
                    assert(pixel_matches(buf@, w, xx, yi, circle_fg(w, xx, yi)));
                }
            }
        }
        y = y + 1;
    }
    buf
}

} // verus!

//! The part of a screenshot that a window covers, for matching an image
//! within a window.

use vstd::prelude::*;
use vstd::arithmetic::div_mod::lemma_fundamental_div_mod_converse;

verus! {

/// The area of a window on a `sw` by `sh` screen: its left and top edges
/// clipped at 0, its width and height clipped at the screen's.
pub open spec fn window_area(sw: int, sh: int, left: int, top: int, right: int, bottom: int) -> (int, int, int, int) {
    (
        if left > 0 { left } else { 0 },
        if top > 0 { top } else { 0 },
        if right - left < sw { right - left } else { sw },
        if bottom - top < sh { bottom - top } else { sh },
    )
}

/// Byte `i` of the crop of a `sw`-wide screenshot (four bytes a pixel) at
/// `rx`, `ry`, `rw` pixels wide: the pixel's byte where the screen has one,
/// else 0.
pub open spec fn crop_at(pixels: Seq<u8>, sw: int, sh: int, rx: int, ry: int, rw: int, i: int) -> u8 {
    let px = i / 4;
    let c = i % 4;
    let y = px / rw;
    let x = px % rw;
    if ry + y < sh && rx + x < sw {
        pixels[((ry + y) * sw + rx + x) * 4 + c]
    } else {
        0
    }
}

/// The crop of a screenshot: `rw` by `rh` pixels from `rx`, `ry`.
pub open spec fn crop_spec(pixels: Seq<u8>, sw: int, sh: int, rx: int, ry: int, rw: int, rh: int) -> Seq<u8> {
    Seq::new((rw * rh * 4) as nat, |i: int| crop_at(pixels, sw, sh, rx, ry, rw, i))
}

proof fn lemma_cell(pixels: Seq<u8>, sw: int, sh: int, rx: int, ry: int, rw: int, y: int, x: int, c: int)
    requires
        rw > 0,
        0 <= y,
        0 <= x < rw,
        0 <= c < 4,
    ensures
        crop_at(pixels, sw, sh, rx, ry, rw, (y * rw + x) * 4 + c) == (if ry + y < sh && rx + x < sw {
            pixels[((ry + y) * sw + rx + x) * 4 + c]
        } else {
            0
        }),
{
    let px = y * rw + x;
    lemma_fundamental_div_mod_converse(px * 4 + c, 4, px, c);
    lemma_fundamental_div_mod_converse(px, rw, y, x);
    assert((y * rw + x) * 4 + c == px * 4 + c);
}

proof fn lemma_src_in_bounds(sw: int, sh: int, sy: int, sx: int)
    requires
        0 <= sy < sh,
        0 <= sx < sw,
    ensures
        (sy * sw + sx) * 4 + 3 < sw * sh * 4,
{
    assert(sy * sw + sx < sw * sh) by (nonlinear_arith)
        requires
            0 <= sy < sh,
            0 <= sx < sw,
    ;
}

/// The area a window covers, and the bytes of the screenshot there;
/// `None` when the area is empty. `pixels` is a `sw` by `sh` screenshot,
/// four bytes a pixel, row after row.
pub fn crop_window(pixels: &Vec<u8>, sw: i32, sh: i32, left: i32, top: i32, right: i32, bottom: i32) -> (r: Option<
    (i32, i32, i32, i32, Vec<u8>),
>)
    requires
        0 <= sw,
        0 <= sh,
        pixels@.len() == sw * sh * 4,
        left <= right,
        top <= bottom,
        right - left <= i32::MAX,
        bottom - top <= i32::MAX,
    ensures
        ({
            let (rx, ry, rw, rh) = window_area(sw as int, sh as int, left as int, top as int, right as int, bottom as int);
            &&& (r is None <==> (rw == 0 || rh == 0))
            &&& (r matches Some((a, b, w, h, v)) ==> a == rx && b == ry && w == rw && h == rh && v@ == crop_spec(
                pixels@,
                sw as int,
                sh as int,
                rx,
                ry,
                rw,
                rh,
            ))
        }),
{
    let rx: i32 = if left > 0 {
        left
    } else {
        0
    };
    let ry: i32 = if top > 0 {
        top
    } else {
        0
    };
    let w0: i32 = right - left;
    let h0: i32 = bottom - top;
    let rw: i32 = if w0 < sw {
        w0
    } else {
        sw
    };
    let rh: i32 = if h0 < sh {
        h0
    } else {
        sh
    };
    if rw == 0 || rh == 0 {
        return None;
    }
    let swu = sw as usize;
    let shu = sh as usize;
    let rxu = rx as usize;
    let ryu = ry as usize;
    let rwu = rw as usize;
    let rhu = rh as usize;
    let ghost ps = pixels@;
    let plen = pixels.len();
    let mut out: Vec<u8> = Vec::new();
    let mut y: usize = 0;
    while y < rhu
        invariant
            ps == pixels@,
            ps.len() == swu * shu * 4,
            ps.len() == plen,
            0 < rwu <= swu,
            0 < rhu <= shu,
            rxu <= i32::MAX,
            ryu <= i32::MAX,
            rwu <= i32::MAX,
            rhu <= i32::MAX,
            0 <= y <= rhu,
            out@.len() == y * rwu * 4,
            forall|i: int| 0 <= i < out@.len() ==> out@[i] == crop_at(ps, swu as int, shu as int, rxu as int, ryu as int, rwu as int, i),
        decreases rhu - y,
    {
        let mut x: usize = 0;
        assert(out@.len() == (y * rwu + 0) * 4) by (nonlinear_arith)
            requires
                out@.len() == y * rwu * 4,
        ;
        while x < rwu
            invariant
                ps == pixels@,
                ps.len() == swu * shu * 4,
                ps.len() == plen,
                0 < rwu <= swu,
                0 < rhu <= shu,
                rxu <= i32::MAX,
                ryu <= i32::MAX,
                rwu <= i32::MAX,
                rhu <= i32::MAX,
                0 <= y < rhu,
                0 <= x <= rwu,
                out@.len() == (y * rwu + x) * 4,
                forall|i: int| 0 <= i < out@.len() ==> out@[i] == crop_at(ps, swu as int, shu as int, rxu as int, ryu as int, rwu as int, i),
            decreases rwu - x,
        {
            let sy = ryu + y;
            let sx = rxu + x;
            let ghost base = out@.len() as int;
            proof {
                lemma_cell(ps, swu as int, shu as int, rxu as int, ryu as int, rwu as int, y as int, x as int, 0);
                lemma_cell(ps, swu as int, shu as int, rxu as int, ryu as int, rwu as int, y as int, x as int, 1);
                lemma_cell(ps, swu as int, shu as int, rxu as int, ryu as int, rwu as int, y as int, x as int, 2);
                lemma_cell(ps, swu as int, shu as int, rxu as int, ryu as int, rwu as int, y as int, x as int, 3);
            }
            if sy < shu && sx < swu {
                proof {
                    lemma_src_in_bounds(swu as int, shu as int, sy as int, sx as int);
                }
                let row = sy * swu;
                let si = (row + sx) * 4;
                out.push(pixels[si]);
                out.push(pixels[si + 1]);
                out.push(pixels[si + 2]);
                out.push(pixels[si + 3]);
            } else {
                out.push(0u8);
                out.push(0u8);
                out.push(0u8);
                out.push(0u8);
            }
            assert forall|i: int| 0 <= i < out@.len() implies out@[i] == crop_at(
                ps,
                swu as int,
                shu as int,
                rxu as int,
                ryu as int,
                rwu as int,
                i,
            ) by {
                if i >= base {
                    assert(i == (y * rwu + x) * 4 + (i - base));
                }
            }
            x = x + 1;
            assert(out@.len() == (y * rwu + x) * 4) by (nonlinear_arith)
                requires
                    out@.len() == base + 4,
                    base == (y * rwu + (x - 1)) * 4,
            ;
        }
        y = y + 1;
        assert(out@.len() == y * rwu * 4) by (nonlinear_arith)
            requires
                out@.len() == ((y - 1) * rwu + rwu) * 4,
        ;
    }
    assert(out@.len() == rwu * rhu * 4) by (nonlinear_arith)
        requires
            out@.len() == y * rwu * 4,
            y == rhu,
    ;
    assert(out@ =~= crop_spec(ps, swu as int, shu as int, rxu as int, ryu as int, rwu as int, rhu as int));
    Some((rx, ry, rw, rh, out))
}

/// Half of a sum, rounded toward zero as Rust's `/` does.
pub open spec fn half_toward_zero(s: int) -> int {
    if s >= 0 {
        s / 2
    } else {
        -((-s) / 2)
    }
}

/// The centre of a window's rectangle, where a move to a window's centre
/// puts the cursor.
pub fn window_center(left: i32, top: i32, right: i32, bottom: i32) -> (r: (i32, i32))
    requires
        i32::MIN <= left + right <= i32::MAX,
        i32::MIN <= top + bottom <= i32::MAX,
    ensures
        r.0 == half_toward_zero(left + right),
        r.1 == half_toward_zero(top + bottom),
{
    let sx: i64 = left as i64 + right as i64;
    let sy: i64 = top as i64 + bottom as i64;
    let cx: i64 = if sx >= 0 {
        (sx as u64 / 2) as i64
    } else {
        -(((-sx) as u64 / 2) as i64)
    };
    let cy: i64 = if sy >= 0 {
        (sy as u64 / 2) as i64
    } else {
        -(((-sy) as u64 / 2) as i64)
    };
    (cx as i32, cy as i32)
}

} // verus!

//! Decoded detections in Q16.16 model-space coordinates.
//!
//! A detection's four corners live in the 416-by-416 model space,
//! carried as Q16.16 integers (65536 per pixel); its confidence is the
//! objectness in the same carrier.  Construction rejects any box with
//! a corner outside the model space; the reverse transform maps a box
//! from the padded, optionally rotated model space back to
//! original-image pixels, in exact integer arithmetic with one final
//! rounding division.

use vstd::prelude::*;

use crate::errors::YoloError;
use crate::fixed::Q16_ONE;

verus! {

/// The model-space bound in the Q16.16 carrier: 416 pixels.
pub const COORD_MAX: i64 = 416 * Q16_ONE;

/// A detected box: class, corners and confidence.
#[derive(Clone, Copy, Debug, PartialEq, Eq, Structural)]
pub struct DetectionData {
    /// Class index of the best-scoring class.
    pub class: u8,
    /// Left edge, Q16.16 model space.
    pub x1: i64,
    /// Top edge, Q16.16 model space.
    pub y1: i64,
    /// Right edge, Q16.16 model space.
    pub x2: i64,
    /// Bottom edge, Q16.16 model space.
    pub y2: i64,
    /// Objectness, Q16.16; one is 65536.
    pub confidence: i64,
}

impl DetectionData {
    /// All four corners lie in the model space.
    pub open spec fn in_range(self) -> bool {
        &&& 0 <= self.x1 <= COORD_MAX
        &&& 0 <= self.y1 <= COORD_MAX
        &&& 0 <= self.x2 <= COORD_MAX
        &&& 0 <= self.y2 <= COORD_MAX
    }

    /// Assembles a detection from a decoded center, size, objectness
    /// and class: corners at half a size from the center.  Fails with
    /// `OutOfRangeDetection` exactly when a corner leaves the model
    /// space; such a box is dropped by the caller, not fatal.
    pub fn new_from_yolo(cx: i64, cy: i64, w: i64, h: i64, confidence: i64, cls_id: u8) -> (r:
        Result<DetectionData, YoloError>)
        requires
            -0x100000000 <= cx <= 0x100000000,
            -0x100000000 <= cy <= 0x100000000,
            0 <= w <= 0x10000000000000,
            0 <= h <= 0x10000000000000,
        ensures
            r is Ok <==> 0 <= cx - w / 2 <= COORD_MAX && 0 <= cy - h / 2 <= COORD_MAX && 0 <= cx + w
                / 2 <= COORD_MAX && 0 <= cy + h / 2 <= COORD_MAX,
            r is Ok ==> r->Ok_0 == (DetectionData {
                class: cls_id,
                x1: (cx - w / 2) as i64,
                y1: (cy - h / 2) as i64,
                x2: (cx + w / 2) as i64,
                y2: (cy + h / 2) as i64,
                confidence,
            }),
            r is Err ==> r->Err_0 == YoloError::OutOfRangeDetection,
    {
        let half_w: i64 = w / 2;
        let half_h: i64 = h / 2;
        let nms_box = DetectionData {
            class: cls_id,
            x1: cx - half_w,
            y1: cy - half_h,
            x2: cx + half_w,
            y2: cy + half_h,
            confidence,
        };
        if 0 <= nms_box.x1 && nms_box.x1 <= COORD_MAX && 0 <= nms_box.y1 && nms_box.y1 <= COORD_MAX
            && 0 <= nms_box.x2 && nms_box.x2 <= COORD_MAX && 0 <= nms_box.y2 && nms_box.y2
            <= COORD_MAX {
            Ok(nms_box)
        } else {
            Err(YoloError::OutOfRangeDetection)
        }
    }

    /// Maps this box from model space back to original-image pixels,
    /// corner by corner.
    pub fn reverse_transform(&self, width: u32, height: u32, rotate_angle: u32) -> (r:
        DetectionData)
        requires
            1 <= width <= 0xffff,
            1 <= height <= 0xffff,
            self.in_range(),
        ensures
            r.class == self.class,
            r.confidence == self.confidence,
            r.x1 == rev_coord(self.x1 as int, rev_dims(width as int, height as int, rotate_angle as int).0, rev_max_dim(width as int, height as int, rotate_angle as int)),
            r.y1 == rev_coord(self.y1 as int, rev_dims(width as int, height as int, rotate_angle as int).1, rev_max_dim(width as int, height as int, rotate_angle as int)),
            r.x2 == rev_coord(self.x2 as int, rev_dims(width as int, height as int, rotate_angle as int).0, rev_max_dim(width as int, height as int, rotate_angle as int)),
            r.y2 == rev_coord(self.y2 as int, rev_dims(width as int, height as int, rotate_angle as int).1, rev_max_dim(width as int, height as int, rotate_angle as int)),
    {
        let (w, h): (u32, u32) = if rotate_angle == 90 || rotate_angle == 270 {
            (height, width)
        } else {
            (width, height)
        };
        let m: u32 = if w > h {
            w
        } else {
            h
        };
        let x1 = rev_coord_exec(self.x1, w, m);
        let y1 = rev_coord_exec(self.y1, h, m);
        let x2 = rev_coord_exec(self.x2, w, m);
        let y2 = rev_coord_exec(self.y2, h, m);
        DetectionData { class: self.class, x1, y1, x2, y2, confidence: self.confidence }
    }
}

/// Truncating division, as machine division behaves: toward zero.
pub open spec fn tdiv(a: int, b: int) -> int {
    if a >= 0 {
        a / b
    } else {
        -((-a) / b)
    }
}

/// The effective image dimensions under a rotation: width and height
/// swap for the quarter turns.
pub open spec fn rev_dims(width: int, height: int, rotate_angle: int) -> (int, int) {
    if rotate_angle == 90 || rotate_angle == 270 {
        (height, width)
    } else {
        (width, height)
    }
}

/// The larger effective dimension, which fixes the letterbox ratio
/// `416 / m` and the padding.
pub open spec fn rev_max_dim(width: int, height: int, rotate_angle: int) -> int {
    let (w, h) = rev_dims(width, height, rotate_angle);
    if w > h {
        w
    } else {
        h
    }
}

/// A model-space coordinate mapped back to original-image pixels:
/// `(x - pad) / ratio` with `ratio = 416 / m` and
/// `pad = 416 * (m - dim) / (2 * m)` pixels, carried out exactly over
/// the common denominator and rounded once, toward zero, by the final
/// division (13631488 is `208 * 65536`).
pub open spec fn rev_coord(x: int, dim: int, m: int) -> int {
    tdiv(x * m - 13631488 * (m - dim), 416)
}

/// Executable form of [`rev_coord`].
pub fn rev_coord_exec(x: i64, dim: u32, m: u32) -> (r: i64)
    requires
        0 <= x <= COORD_MAX,
        1 <= dim <= m <= 0xffff,
    ensures
        r == rev_coord(x as int, dim as int, m as int),
{
    proof {
        crate::arith::lemma_mul_le_le(x as int, m as int, COORD_MAX as int, 0xffff);
        crate::arith::lemma_mul_le_le(13631488, (m - dim) as int, 13631488, 0xffff);
    }
    let num: i64 = x * (m as i64) - 13631488 * ((m as i64) - (dim as i64));
    if num >= 0 {
        num / 416
    } else {
        -((-num) / 416)
    }
}

/// A point of the original image mapped into model space by the
/// letterbox: `x * ratio + pad` over the common denominator `m`,
/// rounded once, toward zero.
pub open spec fn letterbox_coord(x: int, dim: int, m: int) -> int {
    tdiv(416 * x + 13631488 * (m - dim), m)
}

/// Executable form of [`letterbox_coord`]: maps an original-image
/// point (Q16.16 pixels) into the 416-by-416 model space.
pub fn letterbox_coord_exec(x: i64, dim: u32, m: u32) -> (r: i64)
    requires
        0 <= x,
        x <= 65536 * (dim as i64),
        1 <= dim <= m <= 0xffff,
    ensures
        r == letterbox_coord(x as int, dim as int, m as int),
{
    proof {
        crate::arith::lemma_mul_le_le(65536, dim as int, 65536, 0xffff);
        crate::arith::lemma_mul_le_le(416, x as int, 416, 65536 * 0xffffint);
        crate::arith::lemma_mul_le_le(13631488, (m - dim) as int, 13631488, 0xffff);
    }
    let num: i64 = 416 * x + 13631488 * ((m as i64) - (dim as i64));
    num / (m as i64)
}

/// Letterboxing a point and transforming it back returns the original
/// coordinate, up to the single rounding of each division: the result
/// never overshoots and falls short by at most `(m + 415) / 416`
/// Q16.16 units — under a 65536-pixel image, less than a
/// 256th of a pixel.
pub proof fn lemma_letterbox_reverse_round_trip(x: int, dim: int, m: int)
    requires
        0 <= x <= 65536 * dim,
        1 <= dim <= m <= 0xffff,
    ensures
        rev_coord(letterbox_coord(x, dim, m), dim, m) <= x,
        rev_coord(letterbox_coord(x, dim, m), dim, m) >= x - (m + 415) / 416,
{
    let c = 13631488 * (m - dim);
    let num = 416 * x + c;
    assert(num >= 0);
    let fwd = letterbox_coord(x, dim, m);
    assert(fwd == num / m);
    let r1 = num % m;
    vstd::arithmetic::div_mod::lemma_fundamental_div_mod(num, m);
    assert(num == m * (num / m) + r1);
    assert(0 <= r1 < m) by {
        vstd::arithmetic::div_mod::lemma_mod_bound(num, m);
    }
    assert(fwd * m == num - r1) by (nonlinear_arith)
        requires
            num == m * fwd + r1,
    ;
    let back_num = fwd * m - c;
    assert(back_num == 416 * x - r1);
    let back = rev_coord(fwd, dim, m);
    if back_num >= 0 {
        assert(back == back_num / 416);
        vstd::arithmetic::div_mod::lemma_fundamental_div_mod(back_num, 416);
        let r2 = back_num % 416;
        assert(0 <= r2 < 416) by {
            vstd::arithmetic::div_mod::lemma_mod_bound(back_num, 416);
        }
        assert(back_num == 416 * back + r2);
        assert(416 * back == 416 * x - r1 - r2);
        assert(back <= x && back >= x - (m + 415) / 416) by (nonlinear_arith)
            requires
                416 * back == 416 * x - r1 - r2,
                0 <= r1 < m,
                0 <= r2 < 416,
                1 <= m <= 0xffff,
        ;
    } else {
        assert(back == -((-back_num) / 416));
        assert(-back_num == r1 - 416 * x);
        vstd::arithmetic::div_mod::lemma_fundamental_div_mod(r1 - 416 * x, 416);
        let q = (r1 - 416 * x) / 416;
        let r2 = (r1 - 416 * x) % 416;
        assert(0 <= r2 < 416) by {
            vstd::arithmetic::div_mod::lemma_mod_bound(r1 - 416 * x, 416);
        }
        assert(r1 - 416 * x == 416 * q + r2);
        assert(back == -q);
        assert(back <= x && back >= x - (m + 415) / 416) by (nonlinear_arith)
            requires
                r1 - 416 * x == 416 * q + r2,
                back == -q,
                0 <= r2 < 416,
                0 <= r1 < m,
                1 <= m <= 0xffff,
                0 <= x,
                r1 - 416 * x > 0,
    ;
    }
}

} // verus!

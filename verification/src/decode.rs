//! Anchor-box decode of the rearranged YOLO tensors.
//!
//! Each grid cell carries three anchor slots of raw Q8.8 samples: the
//! box center offsets, the box size exponents, and the objectness
//! (already passed through the logistic activation by the hardware).
//! The center is placed exactly in the Q16.16 carrier; the size is
//! the per-scale anchor dimension times the exponential of the raw
//! size, which the caller supplies as a Q16.16 value, since the
//! exponential itself is not integer arithmetic.  Boxes with a corner
//! outside the model space are dropped, not fatal.

use vstd::prelude::*;

use crate::detection::DetectionData;
use crate::nms::{nms_classes, nms_process};
use crate::postprocess::{argmax_low, ch_reorder, ch_reshape, class_spec, get_cls_id, reorder_spec, reshape_spec};

verus! {

/// The anchor width of slot `j` at a scale: the 13-by-13 grid uses
/// the coarse anchors, the 26-by-26 grid the fine ones.
pub open spec fn anchor_w_spec(g: int, j: int) -> int {
    if g == 13 {
        if j == 0 {
            81
        } else if j == 1 {
            135
        } else {
            344
        }
    } else {
        if j == 0 {
            23
        } else if j == 1 {
            37
        } else {
            81
        }
    }
}

/// The anchor height of slot `j` at a scale.
pub open spec fn anchor_h_spec(g: int, j: int) -> int {
    if g == 13 {
        if j == 0 {
            82
        } else if j == 1 {
            169
        } else {
            319
        }
    } else {
        if j == 0 {
            27
        } else if j == 1 {
            58
        } else {
            82
        }
    }
}

/// Executable anchor lookup.
pub fn anchor_box(grid_num: usize, j: usize) -> (r: (u32, u32))
    requires
        grid_num == 13 || grid_num == 26,
        j < 3,
    ensures
        r.0 == anchor_w_spec(grid_num as int, j as int),
        r.1 == anchor_h_spec(grid_num as int, j as int),
{
    if grid_num == 13 {
        if j == 0 {
            (81, 82)
        } else if j == 1 {
            (135, 169)
        } else {
            (344, 319)
        }
    } else {
        if j == 0 {
            (23, 27)
        } else if j == 1 {
            (37, 58)
        } else {
            (81, 82)
        }
    }
}

/// The box of anchor slot `idx` (cell `idx / 3`, anchor `idx % 3`),
/// if its corners stay in the model space: center at the cell corner
/// plus the scaled raw offset, size the anchor times the supplied
/// exponential, confidence the objectness widened to Q16.16, class
/// the earliest best score of the slot.
pub open spec fn candidate_box(
    reshape: Seq<i16>,
    class: Seq<i16>,
    g: int,
    cls: int,
    ew: Seq<i64>,
    eh: Seq<i64>,
    idx: int,
) -> Option<DetectionData> {
    let cell = idx / 3;
    let j = idx % 3;
    let gw = 416int / g;
    let cx = gw * 65536 * (cell % g) + gw * 256 * reshape[cell * 18 + 6 * j];
    let cy = gw * 65536 * (cell / g) + gw * 256 * reshape[cell * 18 + 6 * j + 1];
    let w = anchor_w_spec(g, j) * ew[idx];
    let h = anchor_h_spec(g, j) * eh[idx];
    let conf = reshape[cell * 18 + 6 * j + 4] * 256;
    let cid = argmax_low(class.subrange(idx * cls, idx * cls + cls));
    let b = DetectionData {
        class: cid as u8,
        x1: (cx - w / 2) as i64,
        y1: (cy - h / 2) as i64,
        x2: (cx + w / 2) as i64,
        y2: (cy + h / 2) as i64,
        confidence: (conf) as i64,
    };
    if b.in_range() {
        Some(b)
    } else {
        None
    }
}

/// The in-range boxes of the first `n` anchor slots, in slot order.
pub open spec fn decode_boxes_spec(
    reshape: Seq<i16>,
    class: Seq<i16>,
    g: int,
    cls: int,
    ew: Seq<i64>,
    eh: Seq<i64>,
    n: int,
) -> Seq<DetectionData>
    decreases n,
{
    if n <= 0 {
        Seq::empty()
    } else {
        decode_boxes_spec(reshape, class, g, cls, ew, eh, n - 1) + (match candidate_box(
            reshape,
            class,
            g,
            cls,
            ew,
            eh,
            n - 1,
        ) {
            Some(b) => seq![b],
            None => Seq::empty(),
        })
    }
}

/// Decodes one scale's rearranged tensors into in-range boxes.
///
/// `exp_w[idx]` and `exp_h[idx]` carry `exp(raw / 256)` of slot
/// `idx`'s raw sizes, as non-negative Q16.16 values; the caller
/// computes them, clamping anything above `2^40` — such a box is far
/// outside the model space and is dropped here either way.
pub fn decode_scale(
    reshape: &Vec<i16>,
    class: &Vec<i16>,
    grid_num: usize,
    cls_num: usize,
    exp_w: &Vec<i64>,
    exp_h: &Vec<i64>,
) -> (r: Vec<DetectionData>)
    requires
        grid_num == 13 || grid_num == 26,
        1 <= cls_num <= 80,
        reshape@.len() == grid_num * grid_num * 18,
        class@.len() == grid_num * grid_num * 3 * cls_num,
        exp_w@.len() == grid_num * grid_num * 3,
        exp_h@.len() == grid_num * grid_num * 3,
        forall|k: int| 0 <= k < exp_w@.len() ==> 0 <= #[trigger] exp_w@[k] <= 0x10000000000,
        forall|k: int| 0 <= k < exp_h@.len() ==> 0 <= #[trigger] exp_h@[k] <= 0x10000000000,
    ensures
        r@ == decode_boxes_spec(
            reshape@,
            class@,
            grid_num as int,
            cls_num as int,
            exp_w@,
            exp_h@,
            grid_num * grid_num * 3,
        ),
        forall|k: int| 0 <= k < r@.len() ==> (#[trigger] r@[k]).in_range(),
        forall|k: int| 0 <= k < r@.len() ==> (#[trigger] r@[k]).class < cls_num,
{
    let ghost g: int = grid_num as int;
    let ghost cls: int = cls_num as int;
    let slots: usize = grid_num * grid_num * 3;
    let gw: i64 = if grid_num == 13 {
        32
    } else {
        16
    };
    let mut out: Vec<DetectionData> = Vec::new();
    let mut idx: usize = 0;
    while idx < slots
        invariant
            idx <= slots,
            slots == grid_num * grid_num * 3,
            grid_num == 13 || grid_num == 26,
            1 <= cls_num <= 80,
            g == grid_num as int,
            cls == cls_num as int,
            gw == 416int / g,
            reshape@.len() == g * g * 18,
            class@.len() == g * g * 3 * cls,
            exp_w@.len() == g * g * 3,
            exp_h@.len() == g * g * 3,
            forall|k: int| 0 <= k < exp_w@.len() ==> 0 <= #[trigger] exp_w@[k] <= 0x10000000000,
            forall|k: int| 0 <= k < exp_h@.len() ==> 0 <= #[trigger] exp_h@[k] <= 0x10000000000,
            out@ == decode_boxes_spec(reshape@, class@, g, cls, exp_w@, exp_h@, idx as int),
            forall|k: int| 0 <= k < out@.len() ==> (#[trigger] out@[k]).in_range(),
            forall|k: int| 0 <= k < out@.len() ==> (#[trigger] out@[k]).class < cls_num,
        decreases slots - idx,
    {
        let cell: usize = idx / 3;
        let j: usize = idx % 3;
        proof {
            assert(cell < grid_num * grid_num && j < 3 && cell * 18 + 6 * j + 4 < g * g * 18 && (
            idx + 1) * cls_num <= g * g * 3 * cls) by (nonlinear_arith)
                requires
                    cell == idx as int / 3,
                    j == idx as int % 3,
                    0 <= (idx as int) < g * g * 3,
                    slots == g * g * 3,
                    g == grid_num as int,
                    cls == cls_num as int,
                    1 <= cls,
                    0 < g,
            ;
        }
        let w_cnt: usize = cell % grid_num;
        let h_cnt: usize = cell / grid_num;
        let raw_x: i16 = reshape[cell * 18 + 6 * j];
        let raw_y: i16 = reshape[cell * 18 + 6 * j + 1];
        let raw_obj: i16 = reshape[cell * 18 + 6 * j + 4];
        let (aw, ah) = anchor_box(grid_num, j);
        proof {
            crate::arith::lemma_mul_abs_le(gw as int * 256, raw_x as int, 8192, 32768);
            crate::arith::lemma_mul_abs_le(gw as int * 256, raw_y as int, 8192, 32768);
            crate::arith::lemma_mul_le_le(gw as int * 65536, w_cnt as int, 0x200000, 26);
            crate::arith::lemma_mul_le_le(gw as int * 65536, h_cnt as int, 0x200000, 26);
            assert(w_cnt < grid_num && h_cnt < grid_num) by (nonlinear_arith)
                requires
                    w_cnt == (cell as int) % (grid_num as int),
                    h_cnt == (cell as int) / (grid_num as int),
                    0 <= (cell as int) < (grid_num as int) * (grid_num as int),
                    0 < grid_num,
            ;
            crate::arith::lemma_mul_le_le(aw as int, exp_w@[idx as int] as int, 344, 0x10000000000);
            crate::arith::lemma_mul_le_le(ah as int, exp_h@[idx as int] as int, 344, 0x10000000000);
        }
        let cx: i64 = gw * 65536 * (w_cnt as i64) + gw * 256 * (raw_x as i64);
        let cy: i64 = gw * 65536 * (h_cnt as i64) + gw * 256 * (raw_y as i64);
        let w: i64 = (aw as i64) * exp_w[idx];
        let h: i64 = (ah as i64) * exp_h[idx];
        let conf: i64 = crate::fixed::fix_to_q16(raw_obj);
        let cid: u8 = get_cls_id(class, idx, cls_num);
        match DetectionData::new_from_yolo(cx, cy, w, h, conf, cid) {
            Ok(b) => {
                out.push(b);
            },
            Err(_) => {},
        }
        proof {
            assert(out@ =~= decode_boxes_spec(reshape@, class@, g, cls, exp_w@, exp_h@, idx + 1));
        }
        idx = idx + 1;
    }
    out
}

/// The full numeric post-processing pipeline on the two raw output
/// tensors: per scale, gather the channels, split them, and decode
/// the anchor boxes; then concatenate both scales' candidates and
/// suppress them class by class.
///
/// The caller supplies the per-slot exponentials of the raw sizes and
/// the two thresholds in the Q16.16 carrier.
pub fn post_process(
    yolo_out_0: &Vec<i16>,
    yolo_out_1: &Vec<i16>,
    cls_num: usize,
    obj_threshold: i64,
    nms_threshold: i64,
    exp_w_13: &Vec<i64>,
    exp_h_13: &Vec<i64>,
    exp_w_26: &Vec<i64>,
    exp_h_26: &Vec<i64>,
) -> (r: Vec<DetectionData>)
    requires
        yolo_out_0@.len() == 43264,
        yolo_out_1@.len() == 173056,
        1 <= cls_num <= 80,
        0 <= nms_threshold <= 65536,
        exp_w_13@.len() == 507,
        exp_h_13@.len() == 507,
        exp_w_26@.len() == 2028,
        exp_h_26@.len() == 2028,
        forall|k: int| 0 <= k < 507 ==> 0 <= #[trigger] exp_w_13@[k] <= 0x10000000000,
        forall|k: int| 0 <= k < 507 ==> 0 <= #[trigger] exp_h_13@[k] <= 0x10000000000,
        forall|k: int| 0 <= k < 2028 ==> 0 <= #[trigger] exp_w_26@[k] <= 0x10000000000,
        forall|k: int| 0 <= k < 2028 ==> 0 <= #[trigger] exp_h_26@[k] <= 0x10000000000,
    ensures
        r@ == nms_classes(
            decode_boxes_spec(
                reshape_spec(reorder_spec(yolo_out_0@, 13), 13),
                class_spec(reorder_spec(yolo_out_0@, 13), 13, cls_num as int),
                13,
                cls_num as int,
                exp_w_13@,
                exp_h_13@,
                507,
            ) + decode_boxes_spec(
                reshape_spec(reorder_spec(yolo_out_1@, 26), 26),
                class_spec(reorder_spec(yolo_out_1@, 26), 26, cls_num as int),
                26,
                cls_num as int,
                exp_w_26@,
                exp_h_26@,
                2028,
            ),
            cls_num as int,
            obj_threshold as int,
            nms_threshold as int,
        ),
        forall|k: int| 0 <= k < r@.len() ==> (#[trigger] r@[k]).in_range(),
{
    let reorder13 = ch_reorder(yolo_out_0, 13);
    let reorder26 = ch_reorder(yolo_out_1, 26);
    let (reshape13, class13) = ch_reshape(&reorder13, 13, cls_num);
    let (reshape26, class26) = ch_reshape(&reorder26, 26, cls_num);
    let boxes13 = decode_scale(&reshape13, &class13, 13, cls_num, exp_w_13, exp_h_13);
    let boxes26 = decode_scale(&reshape26, &class26, 26, cls_num, exp_w_26, exp_h_26);
    let mut nms_boxes = boxes13;
    let mut tail = boxes26;
    nms_boxes.append(&mut tail);
    nms_process(&nms_boxes, cls_num, obj_threshold, nms_threshold)
}

} // verus!

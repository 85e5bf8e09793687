//! Intersection-over-union and greedy suppression.

use yolo_fpga::detection::DetectionData;
use yolo_fpga::nms::{iou_parts, nms_process};

fn px(v: i64) -> i64 {
    v * 65536
}

fn boxed(class: u8, x1: i64, y1: i64, x2: i64, y2: i64, conf: i64) -> DetectionData {
    DetectionData { class, x1: px(x1), y1: px(y1), x2: px(x2), y2: px(y2), confidence: conf }
}

#[test]
fn a_box_overlaps_itself_completely() {
    // Any box of positive area has an overlap ratio of one with itself.
    let a = boxed(0, 10, 10, 50, 40, 65536);
    let (inter, union) = iou_parts(&a, &a);
    assert!(union > 0);
    assert_eq!(inter, union);
    assert_eq!(inter as f64 / union as f64, 1.0);
}

#[test]
fn disjoint_boxes_have_zero_overlap() {
    let a = boxed(0, 0, 0, 10, 10, 65536);
    let b = boxed(0, 20, 0, 30, 10, 65536);
    let (inter, union) = iou_parts(&a, &b);
    assert_eq!(inter, 0);
    assert!(union > 0);
    assert_eq!(inter as f64 / union as f64, 0.0);
    // Disjoint along both axes as well.
    let c = boxed(0, 20, 20, 30, 30, 65536);
    let (inter2, _) = iou_parts(&a, &c);
    assert_eq!(inter2, 0);
}

#[test]
fn overlap_is_symmetric_and_bounded() {
    let a = boxed(0, 0, 0, 20, 20, 65536);
    let b = boxed(0, 10, 0, 30, 20, 65536);
    let (i1, u1) = iou_parts(&a, &b);
    let (i2, u2) = iou_parts(&b, &a);
    assert_eq!((i1, u1), (i2, u2));
    assert!(0 <= i1 && i1 <= u1);
    // inter = 10*20, union = 400+400-200 = 600 (in square pixels).
    assert_eq!(i1, px(10) * px(20));
    assert_eq!(u1, px(20) * px(20) * 2 - px(10) * px(20));
}

#[test]
fn nms_keeps_the_higher_confidence_of_two_overlapping_boxes() {
    // Two boxes of one class whose overlap exceeds the threshold.
    let weak = boxed(3, 10, 10, 50, 50, 30000);
    let strong = boxed(3, 12, 12, 52, 52, 60000);
    let input = vec![weak, strong];
    let thr_nms: i64 = 6554;  // 0.1 in Q16.16
    let thr_obj: i64 = 0;
    let out = nms_process(&input, 4, thr_obj, thr_nms);
    assert_eq!(out.len(), 1);
    assert_eq!(out[0], strong);

    // Running suppression on its own output changes nothing.
    let again = nms_process(&out, 4, thr_obj, thr_nms);
    assert_eq!(again, out);
}

#[test]
fn nms_is_idempotent_on_a_mixed_population() {
    let b1 = boxed(0, 0, 0, 40, 40, 60000);
    let b2 = boxed(0, 2, 2, 42, 42, 50000);  // suppressed by b1
    let b3 = boxed(0, 200, 200, 240, 240, 40000);  // far away, kept
    let b4 = boxed(1, 0, 0, 40, 40, 30000);  // other class, kept
    let input = vec![b2, b4, b1, b3];
    let out = nms_process(&input, 2, 0, 6554);
    assert_eq!(out.len(), 3);
    assert!(out.contains(&b1) && out.contains(&b3) && out.contains(&b4));
    let again = nms_process(&out, 2, 0, 6554);
    assert_eq!(again, out);
}

#[test]
fn the_object_threshold_gates_candidates() {
    let lo = boxed(0, 0, 0, 10, 10, 10000);
    let hi = boxed(0, 100, 100, 120, 120, 50000);
    let too_confident = boxed(0, 200, 200, 220, 220, 70000);  // above 1.0
    let input = vec![lo, hi, too_confident];
    let out = nms_process(&input, 1, 20000, 6554);
    assert_eq!(out, vec![hi]);
}

#[test]
fn separated_same_class_boxes_both_survive() {
    let a = boxed(2, 0, 0, 50, 50, 60000);
    let b = boxed(2, 300, 300, 350, 350, 50000);
    let out = nms_process(&vec![a, b], 3, 0, 6554);
    assert_eq!(out.len(), 2);
}

#[test]
fn survivors_come_out_class_by_class_in_confidence_order() {
    let c1a = boxed(1, 0, 0, 10, 10, 30000);
    let c1b = boxed(1, 100, 0, 110, 10, 40000);
    let c0 = boxed(0, 0, 100, 10, 110, 20000);
    let out = nms_process(&vec![c1a, c1b, c0], 2, 0, 6554);
    assert_eq!(out, vec![c0, c1b, c1a]);
}

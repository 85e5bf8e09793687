//! The numeric pipeline from raw tensors to detections.

use yolo_fpga::decode::{anchor_box, post_process};
use yolo_fpga::detection::DetectionData;

fn flat_exp_table(len: usize) -> Vec<i64> {
    // exp(0) == 1.0 in Q16.16 at every slot.
    vec![65536i64; len]
}

#[test]
fn anchor_tables_match_the_two_scales() {
    assert_eq!(anchor_box(13, 0), (81, 82));
    assert_eq!(anchor_box(13, 1), (135, 169));
    assert_eq!(anchor_box(13, 2), (344, 319));
    assert_eq!(anchor_box(26, 0), (23, 27));
    assert_eq!(anchor_box(26, 1), (37, 58));
    assert_eq!(anchor_box(26, 2), (81, 82));
}

#[test]
fn a_single_hot_cell_yields_exactly_one_detection() {
    // A synthetic 13x13 tensor with objectness 1.0 at
    // grid cell (6,6), anchor 0, class score 1.0 for class 2, zero box
    // offsets.
    let mut out13 = vec![0i16; 43264];
    let out26 = vec![0i16; 173056];
    let cell: usize = 6 * 13 + 6;
    // Channel 4 of anchor 0 is the objectness, channel 7 the score of
    // class 2; the hardware stores cell channels in groups of 32 at a
    // 32-per-cell stride.
    for &channel in &[4usize, 7usize] {
        let group = channel / 32;
        let lane = channel % 32;
        out13[13 * 13 * 32 * group + 32 * cell + lane] = 256;
    }
    let cls_num: usize = 80;
    let obj_thr: i64 = 13107;  // 0.2
    let nms_thr: i64 = 6554;  // 0.1
    let dets = post_process(
        &out13,
        &out26,
        cls_num,
        obj_thr,
        nms_thr,
        &flat_exp_table(507),
        &flat_exp_table(507),
        &flat_exp_table(2028),
        &flat_exp_table(2028),
    );
    assert_eq!(dets.len(), 1);
    let d = dets[0];
    assert_eq!(d.class, 2);
    assert_eq!(d.confidence, 65536);
    assert_eq!(d.confidence as f32 / 65536.0, 1.0);
    // Center (6*32, 6*32) = (192, 192); size the anchor (81, 82) since
    // exp(0) == 1.
    let cx = (d.x1 + d.x2) as f32 / 2.0 / 65536.0;
    let cy = (d.y1 + d.y2) as f32 / 2.0 / 65536.0;
    let w = (d.x2 - d.x1) as f32 / 65536.0;
    let h = (d.y2 - d.y1) as f32 / 65536.0;
    assert!((cx - 192.0).abs() < 0.01);
    assert!((cy - 192.0).abs() < 0.01);
    assert!((w - 81.0).abs() < 0.01);
    assert!((h - 82.0).abs() < 0.01);
}

#[test]
fn an_all_zero_tensor_yields_no_detections() {
    let out13 = vec![0i16; 43264];
    let out26 = vec![0i16; 173056];
    let dets = post_process(
        &out13,
        &out26,
        80,
        13107,
        6554,
        &flat_exp_table(507),
        &flat_exp_table(507),
        &flat_exp_table(2028),
        &flat_exp_table(2028),
    );
    assert!(dets.is_empty());
}

#[test]
fn boxes_outside_the_model_space_are_dropped() {
    // A detection near the grid edge with a huge decoded size leaves
    // the model space and is rejected, not fatal.
    let mut out13 = vec![0i16; 43264];
    let out26 = vec![0i16; 173056];
    let cell: usize = 0;
    let channel: usize = 4;
    out13[13 * 13 * 32 * (channel / 32) + 32 * cell + (channel % 32)] = 256;
    // exp tables scaled so anchor 0 is blown up far past 416 pixels.
    let big = vec![65536i64 * 100; 507];
    let dets = post_process(
        &out13,
        &out26,
        80,
        13107,
        6554,
        &big,
        &big,
        &flat_exp_table(2028),
        &flat_exp_table(2028),
    );
    assert!(dets.is_empty());
}

#[test]
fn detection_construction_checks_the_coordinate_range() {
    let ok = DetectionData::new_from_yolo(
        192 * 65536,
        192 * 65536,
        81 * 65536,
        82 * 65536,
        65536,
        2,
    );
    assert!(ok.is_ok());
    let b = ok.unwrap();
    assert_eq!(b.class, 2);
    assert_eq!(b.x2 - b.x1, 81 * 65536);

    let out_of_range = DetectionData::new_from_yolo(
        0,
        192 * 65536,
        81 * 65536,
        82 * 65536,
        65536,
        2,
    );
    assert_eq!(
        out_of_range.unwrap_err(),
        yolo_fpga::errors::YoloError::OutOfRangeDetection
    );
}

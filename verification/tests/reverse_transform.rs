//! The reverse coordinate transform and the letterbox round trip.

use yolo_fpga::detection::{letterbox_coord_exec, rev_coord_exec, DetectionData};

#[test]
fn reverse_transform_undoes_a_wide_letterbox() {
    // A 832x416 image: ratio 0.5, no horizontal padding, 104 pixels of
    // vertical padding on each side.
    let d = DetectionData {
        class: 1,
        x1: 65536,               // 1 px in model space -> 2 px
        y1: 208 * 65536,         // vertical center -> 208 px
        x2: 100 * 65536,         // -> 200 px
        y2: 300 * 65536,         // (300-104)/0.5 = 392 px
        confidence: 32768,
    };
    let r = d.reverse_transform(832, 416, 0);
    assert_eq!(r.class, 1);
    assert_eq!(r.confidence, 32768);
    assert_eq!(r.x1, 2 * 65536);
    assert_eq!(r.x2, 200 * 65536);
    assert_eq!(r.y1, 208 * 65536);
    assert_eq!(r.y2, 392 * 65536);
}

#[test]
fn quarter_turns_swap_the_axes() {
    let d = DetectionData {
        class: 0,
        x1: 0,
        y1: 0,
        x2: 416 * 65536,
        y2: 416 * 65536,
        confidence: 65536,
    };
    let r90 = d.reverse_transform(832, 416, 90);
    // Rotated, the effective image is 416x832: the x axis is padded by
    // 104 model pixels a side, and the ratio is one half.
    assert_eq!(r90.x1, -208 * 65536);
    assert_eq!(r90.x2, 624 * 65536);
    assert_eq!(r90.y1, 0);
    assert_eq!(r90.y2, 832 * 65536);
}

#[test]
fn letterbox_then_reverse_returns_the_original_point() {
    // Rotate angle 0, several points, both axes.
    let cases: [(i64, u32, u32); 6] = [
        (0, 640, 480),
        (100 * 65536, 640, 480),
        (479 * 65536, 640, 480),
        (639 * 65536, 640, 480),
        (123456, 1920, 1080),
        (77 * 65536 + 1234, 333, 777),
    ];
    for &(x, w, h) in cases.iter() {
        let m = w.max(h);
        for &dim in &[w.min(h), m] {
            if x <= 65536 * dim as i64 {
                let fwd = letterbox_coord_exec(x, dim, m);
                let back = rev_coord_exec(fwd.max(0), dim, m);
                let tol = ((m as i64) + 415) / 416;
                assert!(back <= x, "overshoot: {} -> {}", x, back);
                assert!(x - back <= tol, "off by {} > {}", x - back, tol);
            }
        }
    }
}

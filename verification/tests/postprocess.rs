//! Channel reorder, reshape, and the class argmax.

use yolo_fpga::fixed::fix_to_q16;
use yolo_fpga::postprocess::{ch_reorder, ch_reshape, get_cls_id};

#[test]
fn reorder_gathers_each_cells_channel_groups() {
    // A tiny 1x1 grid still has 8 groups of 32 channels.
    let g: usize = 1;
    let raw: Vec<i16> = (0..(g * g * 256) as i16).collect();
    let r = ch_reorder(&raw, g);
    assert_eq!(r.len(), g * g * 256);
    for j in 0..8usize {
        for k in 0..32usize {
            assert_eq!(r[j * 32 + k] as usize, g * g * 32 * j + k);
        }
    }
}

#[test]
fn reorder_spreads_cells_at_the_documented_stride() {
    let g: usize = 2;
    let cells = g * g;
    let mut raw = vec![0i16; cells * 256];
    // Mark group 3, cell 2, lane 7.
    raw[cells * 32 * 3 + 32 * 2 + 7] = 1234;
    let r = ch_reorder(&raw, g);
    assert_eq!(r[2 * 256 + 3 * 32 + 7], 1234);
}

#[test]
fn reshape_splits_box_slots_and_class_scores() {
    let g: usize = 1;
    let cls: usize = 80;
    let reordered: Vec<i16> = (0..256i16).collect();
    let (reshape, class) = ch_reshape(&reordered, g, cls);
    assert_eq!(reshape.len(), g * g * 18);
    assert_eq!(class.len(), g * g * 3 * cls);
    for j in 0..3usize {
        // slots 0..4 map to channels 85j..85j+4; slot 5 skips one channel.
        for t in 0..5usize {
            assert_eq!(reshape[6 * j + t] as usize, 85 * j + t);
        }
        assert_eq!(reshape[6 * j + 5] as usize, 85 * j + 6);
        for k in 0..cls {
            assert_eq!(class[j * cls + k] as usize, 85 * j + 5 + k);
        }
    }
}

#[test]
fn reshape_of_reorder_reconstructs_the_original_array() {
    // Reorder then reshape, and rebuild every channel that the layout
    // references from the two output arrays.
    let g: usize = 2;
    let cls: usize = 80;
    let cells = g * g;
    let raw: Vec<i16> = (0..(cells * 256) as i16).map(|v| v.wrapping_mul(31)).collect();
    let reordered = ch_reorder(&raw, g);
    let (reshape, class) = ch_reshape(&reordered, g, cls);

    let mut rebuilt = vec![0i16; cells * 256];
    let mut covered = vec![false; cells * 256];
    for c in 0..cells {
        for a in 0..3usize {
            for t in 0..85usize {
                let channel = c * 256 + 85 * a + t;
                let v = if t < 5 {
                    reshape[c * 18 + 6 * a + t]
                } else {
                    class[c * 3 * cls + a * cls + (t - 5)]
                };
                rebuilt[channel] = v;
                covered[channel] = true;
            }
        }
    }
    for c in 0..cells {
        for s in 0..255usize {
            assert!(covered[c * 256 + s]);
            // The reordered slot came from the raw tensor at the
            // documented stride; the rebuilt value must agree with it.
            let j = s / 32;
            let k = s % 32;
            assert_eq!(rebuilt[c * 256 + s], raw[cells * 32 * j + 32 * c + k]);
            assert_eq!(rebuilt[c * 256 + s], reordered[c * 256 + s]);
        }
    }
}

#[test]
fn argmax_takes_the_lowest_index_on_ties() {
    let scores: Vec<i16> = vec![5, 7, 7, 3];
    assert_eq!(get_cls_id(&scores, 0, 4), 1);
    let scores2: Vec<i16> = vec![1, 2, 9, 9, 2, 1];
    assert_eq!(get_cls_id(&scores2, 0, 3), 2);
    assert_eq!(get_cls_id(&scores2, 1, 3), 0);
}

#[test]
fn fixed_point_widening_is_linear_and_odd() {
    assert_eq!(fix_to_q16(0), 0);
    assert_eq!(fix_to_q16(256), 65536);
    assert_eq!(fix_to_q16(-256), -65536);
    assert_eq!(fix_to_q16(-7), -fix_to_q16(7));
    assert_eq!(fix_to_q16(3) + fix_to_q16(4), fix_to_q16(7));
    // 256 in Q8.8 is the real number one; its image is the Q16.16 one.
    assert_eq!(fix_to_q16(256) as f32 / 65536.0, 1.0);
    assert_eq!(fix_to_q16(128) as f32 / 65536.0, 0.5);
}

//! The stage descriptor: derived sizes, slicing, and output storage.

use yolo_fpga::errors::YoloError;
use yolo_fpga::layer_group::{Activation, LayerGroup, PostProcess};
use yolo_fpga::topology::tiny_yolo_layer_groups;

fn expected_sizes(iw: u32, ih: u32, ic: u32, ow: u32, oh: u32, oc: u32) -> (u32, u32, u32) {
    let ifc = (ic + 3) / 4;
    let ofc = (oc + 3) / 4;
    (iw * ih * ifc * 4, ow * oh * ofc * 4, iw * ih * ofc * 4)
}

#[test]
fn all_fourteen_stage_sizes_match_the_formulas() {
    let params: [(u32, u32, u32, u32, u32, u32, u32, u32); 14] = [
        (416, 416, 3, 1, 208, 208, 16, 1),
        (208, 208, 16, 1, 104, 104, 32, 1),
        (104, 104, 32, 1, 52, 52, 32, 2),
        (52, 52, 32, 2, 26, 26, 32, 4),
        (26, 26, 32, 4, 26, 26, 32, 8),
        (26, 26, 32, 1, 13, 13, 32, 8),
        (13, 13, 32, 8, 13, 13, 32, 16),
        (13, 13, 32, 16, 13, 13, 32, 32),
        (13, 13, 32, 32, 13, 13, 32, 8),
        (13, 13, 32, 8, 13, 13, 32, 16),
        (13, 13, 32, 16, 13, 13, 32, 8),
        (13, 13, 32, 8, 26, 26, 32, 4),
        (26, 26, 32, 12, 26, 26, 32, 8),
        (26, 26, 32, 8, 26, 26, 32, 8),
    ];
    let groups = tiny_yolo_layer_groups();
    assert_eq!(groups.len(), 14);
    for (i, &(iw, ih, ic, iff, ow, oh, oc, off)) in params.iter().enumerate() {
        let g = &groups[i];
        assert_eq!(g.input_width, iw);
        assert_eq!(g.input_height, ih);
        assert_eq!(g.input_ch, ic);
        assert_eq!(g.input_fold_factor, iff);
        assert_eq!(g.output_width, ow);
        assert_eq!(g.output_height, oh);
        assert_eq!(g.output_ch, oc);
        assert_eq!(g.output_fold_factor, off);
        let (isz, osz, asz) = expected_sizes(iw, ih, ic, ow, oh, oc);
        assert_eq!(g.input_size, isz);
        assert_eq!(g.output_size, osz);
        assert_eq!(g.acc_size, asz);
    }
    assert_eq!(groups[0].input_size, 692224);
    assert_eq!(groups[10].output_size, 5408);
    assert_eq!(groups[13].output_size, 21632);
    assert!(groups[5].conv_disable);
    assert_eq!(groups[5].activate_type, Activation::Linear);
    assert_eq!(groups[10].post_process_type, PostProcess::Yolo);
    assert_eq!(groups[6].pooling_stride, 1);
}

#[test]
fn weight_slices_follow_the_fold_addressing() {
    let mut g = LayerGroup::new(4, 4, 1, 2, 4, 4, 1, 3, false, Activation::Leaky, PostProcess::NoOp, 2);
    // weight_size = 12 * 1 * 1 = 12; layout: slot = off_f * iff + off
    let n: usize = 12 * 3 * 2;
    let w: Vec<i16> = (0..n as i16).collect();
    g.weights = Some(w);
    let s = g.get_weights(1, 0).unwrap();
    assert_eq!(s.len(), 12);
    assert_eq!(s[0], 12);
    let s = g.get_weights(2, 1).unwrap();
    // slot = 3 * 1 + 2 = 5 -> offset 60
    assert_eq!(s[0], 60);
    assert_eq!(s[11], 71);
}

#[test]
fn absent_buffers_fail_with_buffer_not_ready() {
    let g = LayerGroup::new(4, 4, 1, 1, 4, 4, 1, 1, false, Activation::Leaky, PostProcess::NoOp, 2);
    assert_eq!(g.get_weights(0, 0).unwrap_err(), YoloError::BufferNotReady);
    assert_eq!(g.get_inputs(0).unwrap_err(), YoloError::BufferNotReady);
    assert_eq!(g.get_biases(0).unwrap_err(), YoloError::BufferNotReady);
}

#[test]
fn input_and_bias_slices_are_indexed_by_fold() {
    let mut g = LayerGroup::new(2, 2, 8, 2, 2, 2, 8, 2, false, Activation::Leaky, PostProcess::NoOp, 2);
    // input_size = 2*2*2*4 = 32
    let inputs: Vec<i16> = (0..64).collect();
    g.inputs = Some(inputs);
    assert_eq!(g.get_inputs(1).unwrap()[0], 32);
    let biases: Vec<i16> = (0..16).collect();
    g.biases = Some(biases);
    let b = g.get_biases(1).unwrap();
    assert_eq!(b.len(), 8);
    assert_eq!(b[0], 8);
}

#[test]
fn set_outputs_appends_and_zero_pads_a_late_first_fold() {
    let mut g = LayerGroup::new(2, 2, 4, 1, 1, 1, 4, 4, false, Activation::Leaky, PostProcess::NoOp, 2);
    // output_size = 1*1*1*4 = 4
    g.set_outputs(0, vec![1, 2, 3, 4]);
    g.set_outputs(1, vec![5, 6, 7, 8]);
    assert_eq!(g.outputs.as_ref().unwrap().as_slice(), &[1, 2, 3, 4, 5, 6, 7, 8]);

    let mut h = LayerGroup::new(2, 2, 4, 1, 1, 1, 4, 4, false, Activation::Leaky, PostProcess::NoOp, 2);
    h.set_outputs(2, vec![9, 9]);
    assert_eq!(h.outputs.as_ref().unwrap().as_slice(), &[0, 0, 0, 0, 0, 0, 0, 0, 9, 9]);
}

#[test]
fn error_descriptions_name_the_failure() {
    assert!(YoloError::DmaError.describe().contains("DMA"));
    assert!(YoloError::TopologyError.describe().contains("buffer"));
}

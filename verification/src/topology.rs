//! The fixed 14-stage network topology and its executor.
//!
//! The stages form a chain 0 through 10 with two extra edges: stage 4
//! also feeds stage 12 (concatenated after stage 11's output), and
//! stage 8 feeds both stage 9 and, directly, stage 11.  The final
//! outputs are stage 10 (the 13-by-13 scale) and stage 13 (the
//! 26-by-26 scale).  A stage's output buffer is moved to its single
//! consumer, and cloned only where two consumers need it.

use vstd::prelude::*;

use crate::controller::YoloController;
use crate::errors::YoloError;
use crate::hw::{DmaChannel, HwUnit, StreamSwitch};
use crate::layer_group::{Activation, LayerGroup, PostProcess};

verus! {

/// The configuration fields of `g` are those given, its derived sizes
/// agree with them, and its buffers are untouched by this predicate.
pub open spec fn cfg_is(
    g: LayerGroup,
    input_w: u32,
    input_h: u32,
    input_ch: u32,
    input_fold_factor: u32,
    output_w: u32,
    output_h: u32,
    output_ch: u32,
    output_fold_factor: u32,
    conv_disable: bool,
    activate_type: Activation,
    post_process_type: PostProcess,
    pooling_stride: u32,
) -> bool {
    &&& g.wf()
    &&& g.input_fold_ch == (input_ch + 3) / 4
    &&& g.output_fold_ch == (output_ch + 3) / 4
    &&& g.input_size == input_w * input_h * ((input_ch + 3) / 4) * 4
    &&& g.output_size == output_w * output_h * ((output_ch + 3) / 4) * 4
    &&& g.acc_size == input_w * input_h * ((output_ch + 3) / 4) * 4
    &&& g.input_width == input_w
    &&& g.input_height == input_h
    &&& g.input_ch == input_ch
    &&& g.input_fold_factor == input_fold_factor
    &&& g.output_width == output_w
    &&& g.output_height == output_h
    &&& g.output_ch == output_ch
    &&& g.output_fold_factor == output_fold_factor
    &&& g.conv_disable == conv_disable
    &&& g.activate_type == activate_type
    &&& g.post_process_type == post_process_type
    &&& g.pooling_stride == pooling_stride
}

/// The stage list is exactly the fixed 14-stage tiny-YOLO-v3 wiring.
pub open spec fn is_tiny_yolo_topology(s: Seq<LayerGroup>) -> bool {
    &&& s.len() == 14
    &&& cfg_is(s[0], 416, 416, 3, 1, 208, 208, 16, 1, false, Activation::Leaky,
        PostProcess::MaxPool, 2)
    &&& cfg_is(s[1], 208, 208, 16, 1, 104, 104, 32, 1, false, Activation::Leaky,
        PostProcess::MaxPool, 2)
    &&& cfg_is(s[2], 104, 104, 32, 1, 52, 52, 32, 2, false, Activation::Leaky,
        PostProcess::MaxPool, 2)
    &&& cfg_is(s[3], 52, 52, 32, 2, 26, 26, 32, 4, false, Activation::Leaky,
        PostProcess::MaxPool, 2)
    &&& cfg_is(s[4], 26, 26, 32, 4, 26, 26, 32, 8, false, Activation::Leaky, PostProcess::NoOp, 2)
    &&& cfg_is(s[5], 26, 26, 32, 1, 13, 13, 32, 8, true, Activation::Linear,
        PostProcess::MaxPool, 2)
    &&& cfg_is(s[6], 13, 13, 32, 8, 13, 13, 32, 16, false, Activation::Leaky,
        PostProcess::MaxPool, 1)
    &&& cfg_is(s[7], 13, 13, 32, 16, 13, 13, 32, 32, false, Activation::Leaky, PostProcess::NoOp,
        2)
    &&& cfg_is(s[8], 13, 13, 32, 32, 13, 13, 32, 8, false, Activation::Leaky, PostProcess::NoOp, 2)
    &&& cfg_is(s[9], 13, 13, 32, 8, 13, 13, 32, 16, false, Activation::Leaky, PostProcess::NoOp, 2)
    &&& cfg_is(s[10], 13, 13, 32, 16, 13, 13, 32, 8, false, Activation::Linear, PostProcess::Yolo,
        2)
    &&& cfg_is(s[11], 13, 13, 32, 8, 26, 26, 32, 4, false, Activation::Leaky,
        PostProcess::Upsample, 2)
    &&& cfg_is(s[12], 26, 26, 32, 12, 26, 26, 32, 8, false, Activation::Leaky, PostProcess::NoOp,
        2)
    &&& cfg_is(s[13], 26, 26, 32, 8, 26, 26, 32, 8, false, Activation::Linear, PostProcess::Yolo,
        2)
}

/// Total output length of a stage: all its output folds.
pub open spec fn stage_out_len(g: LayerGroup) -> int {
    g.output_size * g.output_fold_factor
}

/// The input length that stage `k` is fed: the caller's pixel buffer
/// for stage 0, stage 8's output for stage 11, stage 11's output plus
/// stage 4's retained output for stage 12, and the preceding stage's
/// output everywhere else.
pub open spec fn in_need(orig: Seq<LayerGroup>, k: int) -> int {
    if k == 0 {
        orig[0].input_size * orig[0].input_fold_factor
    } else if k == 11 {
        stage_out_len(orig[8])
    } else if k == 12 {
        stage_out_len(orig[11]) + stage_out_len(orig[4])
    } else {
        stage_out_len(orig[k - 1])
    }
}

/// `g` differs from `o` at most in its input and output buffers.
pub open spec fn keeps_cfg(g: LayerGroup, o: LayerGroup) -> bool {
    g == (LayerGroup { inputs: g.inputs, outputs: g.outputs, ..o })
}

/// The buffer state of the executor before it runs stage `k`:
/// configurations, weights and biases are as at entry, stage `k` has
/// its input wired, no stage at or past `k` has an output yet, moved
/// outputs are gone, and the retained fan-out buffers of stages 4, 8,
/// 10 and 13 are present exactly in the window that still needs them.
pub open spec fn pass_state(s: Seq<LayerGroup>, orig: Seq<LayerGroup>, k: int) -> bool {
    &&& s.len() == 14
    &&& forall|j: int| 0 <= j < 14 ==> keeps_cfg(#[trigger] s[j], orig[j])
    &&& (0 <= k < 14 ==> s[k].inputs is Some && s[k].inputs->0@.len() == in_need(orig, k))
    &&& forall|j: int| k <= j < 14 ==> (#[trigger] s[j].outputs) is None
    &&& forall|j: int|
        0 <= j < k && j != 4 && j != 8 && j != 10 && j != 13 ==> (#[trigger] s[j].outputs) is None
    &&& (4 < k <= 11 ==> s[4].outputs is Some && s[4].outputs->0@.len() == stage_out_len(orig[4]))
    &&& (11 < k ==> s[4].outputs is None)
    &&& (8 < k <= 10 ==> s[8].outputs is Some && s[8].outputs->0@.len() == stage_out_len(orig[8]))
    &&& (10 < k ==> s[8].outputs is None)
    &&& (10 < k ==> s[10].outputs is Some && s[10].outputs->0@.len() == stage_out_len(orig[10]))
    &&& (k == 14 ==> s[13].outputs is Some && s[13].outputs->0@.len() == stage_out_len(orig[13]))
    &&& (11 < k ==> s[12].inputs is Some && s[12].inputs->0@.len() == stage_out_len(orig[11])
        + stage_out_len(orig[4]))
}


/// Per-stage arithmetic of the fixed topology: every stage's buffer
/// needs are met by what the wiring feeds it, the derived totals stay
/// small, the one non-convolving stage has a single input fold, and
/// the YOLO stages have at most eight output folds, matching the
/// activation-mask table.
pub proof fn lemma_topology_stage_bounds(s: Seq<LayerGroup>, k: int)
    requires
        is_tiny_yolo_topology(s),
        0 <= k < 14,
    ensures
        !s[k].conv_disable ==> s[k].input_size * s[k].input_fold_factor <= in_need(s, k),
        s[k].conv_disable ==> s[k].input_size * s[k].output_fold_factor <= in_need(s, k),
        s[k].conv_disable ==> s[k].input_fold_factor == 1,
        s[k].post_process_type == PostProcess::Yolo ==> s[k].output_fold_factor <= 8,
        s[k].output_size * s[k].output_fold_factor <= 0x100000,
        k < 13 && k != 11 ==> in_need(s, k + 1) == stage_out_len(s[k]),
        k == 11 || k == 12 ==> in_need(s, 12) == stage_out_len(s[11]) + stage_out_len(s[4]),
{
    if k == 0 {
        assert(s[0].input_size * s[0].input_fold_factor == 692224) by (nonlinear_arith)
            requires
                s[0].input_size == 692224,
                s[0].input_fold_factor == 1,
        ;
        assert(s[0].output_size * s[0].output_fold_factor == 692224) by (nonlinear_arith)
            requires
                s[0].output_size == 692224,
                s[0].output_fold_factor == 1,
        ;
    } else if k == 1 {
        assert(s[1].input_size * s[1].input_fold_factor == 692224) by (nonlinear_arith)
            requires
                s[1].input_size == 692224,
                s[1].input_fold_factor == 1,
        ;
        assert(s[0].output_size * s[0].output_fold_factor == 692224) by (nonlinear_arith)
            requires
                s[0].output_size == 692224,
                s[0].output_fold_factor == 1,
        ;
        assert(s[1].output_size * s[1].output_fold_factor == 346112) by (nonlinear_arith)
            requires
                s[1].output_size == 346112,
                s[1].output_fold_factor == 1,
        ;
    } else if k == 2 {
        assert(s[2].input_size * s[2].input_fold_factor == 346112) by (nonlinear_arith)
            requires
                s[2].input_size == 346112,
                s[2].input_fold_factor == 1,
        ;
        assert(s[1].output_size * s[1].output_fold_factor == 346112) by (nonlinear_arith)
            requires
                s[1].output_size == 346112,
                s[1].output_fold_factor == 1,
        ;
        assert(s[2].output_size * s[2].output_fold_factor == 173056) by (nonlinear_arith)
            requires
                s[2].output_size == 86528,
                s[2].output_fold_factor == 2,
        ;
    } else if k == 3 {
        assert(s[3].input_size * s[3].input_fold_factor == 173056) by (nonlinear_arith)
            requires
                s[3].input_size == 86528,
                s[3].input_fold_factor == 2,
        ;
        assert(s[2].output_size * s[2].output_fold_factor == 173056) by (nonlinear_arith)
            requires
                s[2].output_size == 86528,
                s[2].output_fold_factor == 2,
        ;
        assert(s[3].output_size * s[3].output_fold_factor == 86528) by (nonlinear_arith)
            requires
                s[3].output_size == 21632,
                s[3].output_fold_factor == 4,
        ;
    } else if k == 4 {
        assert(s[4].input_size * s[4].input_fold_factor == 86528) by (nonlinear_arith)
            requires
                s[4].input_size == 21632,
                s[4].input_fold_factor == 4,
        ;
        assert(s[3].output_size * s[3].output_fold_factor == 86528) by (nonlinear_arith)
            requires
                s[3].output_size == 21632,
                s[3].output_fold_factor == 4,
        ;
        assert(s[4].output_size * s[4].output_fold_factor == 173056) by (nonlinear_arith)
            requires
                s[4].output_size == 21632,
                s[4].output_fold_factor == 8,
        ;
    } else if k == 5 {
        assert(s[5].input_size * s[5].output_fold_factor == 173056) by (nonlinear_arith)
            requires
                s[5].input_size == 21632,
                s[5].output_fold_factor == 8,
        ;
        assert(s[4].output_size * s[4].output_fold_factor == 173056) by (nonlinear_arith)
            requires
                s[4].output_size == 21632,
                s[4].output_fold_factor == 8,
        ;
        assert(s[5].output_size * s[5].output_fold_factor == 43264) by (nonlinear_arith)
            requires
                s[5].output_size == 5408,
                s[5].output_fold_factor == 8,
        ;
    } else if k == 6 {
        assert(s[6].input_size * s[6].input_fold_factor == 43264) by (nonlinear_arith)
            requires
                s[6].input_size == 5408,
                s[6].input_fold_factor == 8,
        ;
        assert(s[5].output_size * s[5].output_fold_factor == 43264) by (nonlinear_arith)
            requires
                s[5].output_size == 5408,
                s[5].output_fold_factor == 8,
        ;
        assert(s[6].output_size * s[6].output_fold_factor == 86528) by (nonlinear_arith)
            requires
                s[6].output_size == 5408,
                s[6].output_fold_factor == 16,
        ;
    } else if k == 7 {
        assert(s[7].input_size * s[7].input_fold_factor == 86528) by (nonlinear_arith)
            requires
                s[7].input_size == 5408,
                s[7].input_fold_factor == 16,
        ;
        assert(s[6].output_size * s[6].output_fold_factor == 86528) by (nonlinear_arith)
            requires
                s[6].output_size == 5408,
                s[6].output_fold_factor == 16,
        ;
        assert(s[7].output_size * s[7].output_fold_factor == 173056) by (nonlinear_arith)
            requires
                s[7].output_size == 5408,
                s[7].output_fold_factor == 32,
        ;
    } else if k == 8 {
        assert(s[8].input_size * s[8].input_fold_factor == 173056) by (nonlinear_arith)
            requires
                s[8].input_size == 5408,
                s[8].input_fold_factor == 32,
        ;
        assert(s[7].output_size * s[7].output_fold_factor == 173056) by (nonlinear_arith)
            requires
                s[7].output_size == 5408,
                s[7].output_fold_factor == 32,
        ;
        assert(s[8].output_size * s[8].output_fold_factor == 43264) by (nonlinear_arith)
            requires
                s[8].output_size == 5408,
                s[8].output_fold_factor == 8,
        ;
    } else if k == 9 {
        assert(s[9].input_size * s[9].input_fold_factor == 43264) by (nonlinear_arith)
            requires
                s[9].input_size == 5408,
                s[9].input_fold_factor == 8,
        ;
        assert(s[8].output_size * s[8].output_fold_factor == 43264) by (nonlinear_arith)
            requires
                s[8].output_size == 5408,
                s[8].output_fold_factor == 8,
        ;
        assert(s[9].output_size * s[9].output_fold_factor == 86528) by (nonlinear_arith)
            requires
                s[9].output_size == 5408,
                s[9].output_fold_factor == 16,
        ;
    } else if k == 10 {
        assert(s[10].input_size * s[10].input_fold_factor == 86528) by (nonlinear_arith)
            requires
                s[10].input_size == 5408,
                s[10].input_fold_factor == 16,
        ;
        assert(s[8].output_size * s[8].output_fold_factor == 43264) by (nonlinear_arith)
            requires
                s[8].output_size == 5408,
                s[8].output_fold_factor == 8,
        ;
        assert(s[9].output_size * s[9].output_fold_factor == 86528) by (nonlinear_arith)
            requires
                s[9].output_size == 5408,
                s[9].output_fold_factor == 16,
        ;
        assert(s[10].output_size * s[10].output_fold_factor == 43264) by (nonlinear_arith)
            requires
                s[10].output_size == 5408,
                s[10].output_fold_factor == 8,
        ;
    } else if k == 11 {
        assert(s[11].input_size * s[11].input_fold_factor == 43264) by (nonlinear_arith)
            requires
                s[11].input_size == 5408,
                s[11].input_fold_factor == 8,
        ;
        assert(s[4].output_size * s[4].output_fold_factor == 173056) by (nonlinear_arith)
            requires
                s[4].output_size == 21632,
                s[4].output_fold_factor == 8,
        ;
        assert(s[8].output_size * s[8].output_fold_factor == 43264) by (nonlinear_arith)
            requires
                s[8].output_size == 5408,
                s[8].output_fold_factor == 8,
        ;
        assert(s[10].output_size * s[10].output_fold_factor == 43264) by (nonlinear_arith)
            requires
                s[10].output_size == 5408,
                s[10].output_fold_factor == 8,
        ;
        assert(s[11].output_size * s[11].output_fold_factor == 86528) by (nonlinear_arith)
            requires
                s[11].output_size == 21632,
                s[11].output_fold_factor == 4,
        ;
    } else if k == 12 {
        assert(s[12].input_size * s[12].input_fold_factor == 259584) by (nonlinear_arith)
            requires
                s[12].input_size == 21632,
                s[12].input_fold_factor == 12,
        ;
        assert(s[4].output_size * s[4].output_fold_factor == 173056) by (nonlinear_arith)
            requires
                s[4].output_size == 21632,
                s[4].output_fold_factor == 8,
        ;
        assert(s[11].output_size * s[11].output_fold_factor == 86528) by (nonlinear_arith)
            requires
                s[11].output_size == 21632,
                s[11].output_fold_factor == 4,
        ;
        assert(s[12].output_size * s[12].output_fold_factor == 173056) by (nonlinear_arith)
            requires
                s[12].output_size == 21632,
                s[12].output_fold_factor == 8,
        ;
    } else {
        assert(s[13].input_size * s[13].input_fold_factor == 173056) by (nonlinear_arith)
            requires
                s[13].input_size == 21632,
                s[13].input_fold_factor == 8,
        ;
        assert(s[12].output_size * s[12].output_fold_factor == 173056) by (nonlinear_arith)
            requires
                s[12].output_size == 21632,
                s[12].output_fold_factor == 8,
        ;
        assert(s[13].output_size * s[13].output_fold_factor == 173056) by (nonlinear_arith)
            requires
                s[13].output_size == 21632,
                s[13].output_fold_factor == 8,
        ;
    }
}

/// Each of the fixed stages derives its three sizes from its
/// dimensions exactly as documented: one sub-pass of input, output
/// and accumulator data is the spatial extent times four samples per
/// channel-fold slot.
pub proof fn lemma_topology_sizes(s: Seq<LayerGroup>, k: int)
    requires
        is_tiny_yolo_topology(s),
        0 <= k < 14,
    ensures
        s[k].input_size == s[k].input_width * s[k].input_height * ((s[k].input_ch + 3) / 4) * 4,
        s[k].output_size == s[k].output_width * s[k].output_height * ((s[k].output_ch + 3) / 4)
            * 4,
        s[k].acc_size == s[k].input_width * s[k].input_height * ((s[k].output_ch + 3) / 4) * 4,
{
}

/// Builds the fixed 14-stage tiny-YOLO-v3 stage list, with no buffers
/// populated.
pub fn tiny_yolo_layer_groups() -> (r: Vec<LayerGroup>)
    ensures
        is_tiny_yolo_topology(r@),
        forall|j: int|
            0 <= j < 14 ==> (#[trigger] r@[j].inputs) is None && r@[j].outputs is None
                && r@[j].weights is None && r@[j].biases is None,
{
    let mut v: Vec<LayerGroup> = Vec::new();
    v.push(
        LayerGroup::new(
            416,
            416,
            3,
            1,
            208,
            208,
            16,
            1,
            false,
            Activation::Leaky,
            PostProcess::MaxPool,
            2,
        ),
    );
    v.push(
        LayerGroup::new(
            208,
            208,
            16,
            1,
            104,
            104,
            32,
            1,
            false,
            Activation::Leaky,
            PostProcess::MaxPool,
            2,
        ),
    );
    v.push(
        LayerGroup::new(
            104,
            104,
            32,
            1,
            52,
            52,
            32,
            2,
            false,
            Activation::Leaky,
            PostProcess::MaxPool,
            2,
        ),
    );
    v.push(
        LayerGroup::new(
            52,
            52,
            32,
            2,
            26,
            26,
            32,
            4,
            false,
            Activation::Leaky,
            PostProcess::MaxPool,
            2,
        ),
    );
    v.push(
        LayerGroup::new(26, 26, 32, 4, 26, 26, 32, 8, false, Activation::Leaky, PostProcess::NoOp, 2),
    );
    v.push(
        LayerGroup::new(
            26,
            26,
            32,
            1,
            13,
            13,
            32,
            8,
            true,
            Activation::Linear,
            PostProcess::MaxPool,
            2,
        ),
    );
    v.push(
        LayerGroup::new(
            13,
            13,
            32,
            8,
            13,
            13,
            32,
            16,
            false,
            Activation::Leaky,
            PostProcess::MaxPool,
            1,
        ),
    );
    v.push(
        LayerGroup::new(
            13,
            13,
            32,
            16,
            13,
            13,
            32,
            32,
            false,
            Activation::Leaky,
            PostProcess::NoOp,
            2,
        ),
    );
    v.push(
        LayerGroup::new(
            13,
            13,
            32,
            32,
            13,
            13,
            32,
            8,
            false,
            Activation::Leaky,
            PostProcess::NoOp,
            2,
        ),
    );
    v.push(
        LayerGroup::new(
            13,
            13,
            32,
            8,
            13,
            13,
            32,
            16,
            false,
            Activation::Leaky,
            PostProcess::NoOp,
            2,
        ),
    );
    v.push(
        LayerGroup::new(
            13,
            13,
            32,
            16,
            13,
            13,
            32,
            8,
            false,
            Activation::Linear,
            PostProcess::Yolo,
            2,
        ),
    );
    v.push(
        LayerGroup::new(
            13,
            13,
            32,
            8,
            26,
            26,
            32,
            4,
            false,
            Activation::Leaky,
            PostProcess::Upsample,
            2,
        ),
    );
    v.push(
        LayerGroup::new(
            26,
            26,
            32,
            12,
            26,
            26,
            32,
            8,
            false,
            Activation::Leaky,
            PostProcess::NoOp,
            2,
        ),
    );
    v.push(
        LayerGroup::new(
            26,
            26,
            32,
            8,
            26,
            26,
            32,
            8,
            false,
            Activation::Linear,
            PostProcess::Yolo,
            2,
        ),
    );
    v
}

/// Copies a sample vector.
fn copy_samples(v: &Vec<i16>) -> (r: Vec<i16>)
    ensures
        r@ == v@,
{
    vstd::slice::slice_to_vec(v.as_slice())
}

/// Clones a stage's output buffer, for the two fan-out edges.
fn clone_outputs(g: &LayerGroup) -> (r: Option<Vec<i16>>)
    ensures
        r is Some <==> g.outputs is Some,
        r is Some ==> r->0@ == g.outputs->0@,
{
    match &g.outputs {
        Some(v) => Some(copy_samples(v)),
        None => None,
    }
}

/// Moves a stage's output buffer out, leaving it absent.
fn take_outputs(groups: &mut Vec<LayerGroup>, i: usize) -> (r: Option<Vec<i16>>)
    requires
        i < old(groups)@.len(),
    ensures
        r == old(groups)@[i as int].outputs,
        final(groups)@ == old(groups)@.update(
            i as int,
            (LayerGroup { outputs: None, ..old(groups)@[i as int] }),
        ),
{
    let mut tmp: Option<Vec<i16>> = None;
    let g: &mut LayerGroup = &mut groups[i];
    core::mem::swap(&mut g.outputs, &mut tmp);
    tmp
}

/// Wires a stage's input buffer.
fn set_inputs(groups: &mut Vec<LayerGroup>, i: usize, v: Option<Vec<i16>>)
    requires
        i < old(groups)@.len(),
    ensures
        final(groups)@ == old(groups)@.update(
            i as int,
            (LayerGroup { inputs: v, ..old(groups)@[i as int] }),
        ),
{
    let g: &mut LayerGroup = &mut groups[i];
    g.inputs = v;
}

impl<Sw: StreamSwitch, Dma: DmaChannel, Unit: HwUnit> YoloController<Sw, Dma, Unit> {
    /// Drives all 14 stages in order and rewires each stage's input
    /// from the previous stage's output: moved when single-consumer,
    /// cloned at the two fan-out stages 4 and 8, and concatenated for
    /// stage 12, which reads stage 11's output followed by stage 4's.
    ///
    /// Returns the outputs of stage 10 and stage 13.  With the fixed
    /// topology and all weights and biases loaded, no intermediate
    /// buffer can be missing, so the only failure is a lost DMA
    /// transfer or an exhausted completion poll.
    #[verifier::loop_isolation(false)]
    #[verifier::rlimit(100)]
    pub fn start_processing(&mut self, input_data: &[i16]) -> (r: Result<
        (Vec<i16>, Vec<i16>),
        YoloError,
    >)
        requires
            is_tiny_yolo_topology(old(self).layer_groups@),
            forall|j: int|
                0 <= j < 14 ==> (#[trigger] old(self).layer_groups@[j].outputs) is None,
            forall|j: int|
                0 <= j < 14 && !old(self).layer_groups@[j].conv_disable ==> (#[trigger] old(self).layer_groups@[j].weights) is Some && old(self).layer_groups@[j].weight_size() * (
                old(self).layer_groups@[j].output_fold_factor * old(self).layer_groups@[j].input_fold_factor) <= old(self).layer_groups@[j].weights->0@.len(),
            forall|j: int|
                0 <= j < 14 && !old(self).layer_groups@[j].conv_disable ==> (#[trigger] old(self).layer_groups@[j].biases) is Some && old(self).layer_groups@[j].output_ch * old(self).layer_groups@[j].output_fold_factor <= old(self).layer_groups@[j].biases->0@.len(),
            input_data@.len() == old(self).layer_groups@[0].input_size * old(self).layer_groups@[0].input_fold_factor,
        ensures
            final(self).poll_limit == old(self).poll_limit,
            is_tiny_yolo_topology(final(self).layer_groups@),
            forall|j: int|
                0 <= j < 14 ==> keeps_cfg(#[trigger] final(self).layer_groups@[j], old(self).layer_groups@[j]),
            r is Ok ==> r->Ok_0.0@.len() == stage_out_len(old(self).layer_groups@[10]),
            r is Ok ==> r->Ok_0.1@.len() == stage_out_len(old(self).layer_groups@[13]),
            r is Ok ==> final(self).layer_groups@[12].inputs is Some && final(self).layer_groups@[12].inputs->0@.len() == stage_out_len(old(self).layer_groups@[11])
                + stage_out_len(old(self).layer_groups@[4]),
            r is Ok ==> forall|j: int|
                0 <= j < 14 ==> (#[trigger] final(self).layer_groups@[j].outputs) is None,
            r is Err ==> r->Err_0 == YoloError::DmaError,
    {
        let ghost orig = old(self).layer_groups@;
        let pixels: Vec<i16> = vstd::slice::slice_to_vec(input_data);
        set_inputs(&mut self.layer_groups, 0, Some(pixels));

        let mut grp_idx: usize = 0;
        while grp_idx < 14
            invariant
                grp_idx <= 14,
                self.poll_limit == old(self).poll_limit,
                pass_state(self.layer_groups@, orig, grp_idx as int),
            decreases 14 - grp_idx,
        {
            proof {
                lemma_topology_stage_bounds(orig, grp_idx as int);
            }
            self.start_layer_processing(grp_idx)?;

            if grp_idx == 4 || grp_idx == 8 {
                let cloned = clone_outputs(&self.layer_groups[grp_idx]);
                set_inputs(&mut self.layer_groups, grp_idx + 1, cloned);
            } else if grp_idx == 10 {
                let moved = take_outputs(&mut self.layer_groups, 8);
                set_inputs(&mut self.layer_groups, 11, moved);
            } else if grp_idx != 13 {
                let moved = take_outputs(&mut self.layer_groups, grp_idx);
                set_inputs(&mut self.layer_groups, grp_idx + 1, moved);
            }
            if grp_idx == 11 {
                let output4 = take_outputs(&mut self.layer_groups, 4);
                match output4 {
                    Some(o4) => {
                        let mut o4 = o4;
                        let g12: &mut LayerGroup = &mut self.layer_groups[12];
                        match &mut g12.inputs {
                            Some(in12) => {
                                in12.append(&mut o4);
                            },
                            None => {
                                return Err(YoloError::TopologyError);
                            },
                        }
                    },
                    None => {
                        return Err(YoloError::TopologyError);
                    },
                }
            }
            grp_idx = grp_idx + 1;
        }

        let output10 = match take_outputs(&mut self.layer_groups, 10) {
            Some(o) => o,
            None => {
                return Err(YoloError::TopologyError);
            },
        };
        let output13 = match take_outputs(&mut self.layer_groups, 13) {
            Some(o) => o,
            None => {
                return Err(YoloError::TopologyError);
            },
        };
        Ok((output10, output13))
    }
}

} // verus!

//! The controller that drives the accelerator's units.
//!
//! One controller instance exclusively owns the three stream switches,
//! the two DMA engines, the five processing units and all layer-group
//! buffers; exactly one forward pass is in flight at a time.  Every
//! hardware wait is a bounded poll: after `poll_limit` unsuccessful
//! polls the pass is abandoned with `DmaError`, so no verified loop
//! spins forever.

use vstd::prelude::*;

use crate::errors::YoloError;
use crate::hw::{DmaChannel, HwUnit, StreamSwitch};
use crate::layer_group::{activation_code, post_process_code, LayerGroup, PostProcess};

verus! {

/// Per-output-fold activation-enable masks of the YOLO unit, indexed by
/// the output fold of a `Yolo` post-process stage.
pub open spec fn active_en_spec(i: int) -> u32 {
    if i == 0 {
        0xfffffff3u32
    } else if i == 1 {
        0xffffffffu32
    } else if i == 2 {
        0xfe7fffffu32
    } else if i == 3 {
        0xffffffffu32
    } else if i == 4 {
        0xffffffffu32
    } else if i == 5 {
        0xffffcfffu32
    } else if i == 6 {
        0xffffffffu32
    } else {
        0x7fffffffu32
    }
}

/// Executable form of [`active_en_spec`].
fn active_en(i: u32) -> (r: u32)
    requires
        i < 8,
    ensures
        r == active_en_spec(i as int),
{
    if i == 0 {
        0xfffffff3
    } else if i == 1 {
        0xffffffff
    } else if i == 2 {
        0xfe7fffff
    } else if i == 3 {
        0xffffffff
    } else if i == 4 {
        0xffffffff
    } else if i == 5 {
        0xffffcfff
    } else if i == 6 {
        0xffffffff
    } else {
        0x7fffffff
    }
}

/// Polls a unit's done flag at most `limit` times.
fn wait_unit<U: HwUnit>(unit: &U, limit: u64) -> (r: Result<(), YoloError>)
    ensures
        r is Err ==> r->Err_0 == YoloError::DmaError,
{
    let mut tries: u64 = 0;
    while tries < limit
        invariant
            tries <= limit,
        decreases limit - tries,
    {
        if unit.is_done() {
            return Ok(());
        }
        tries = tries + 1;
    }
    Err(YoloError::DmaError)
}

/// Drives the five processing units of the accelerator through three
/// stream switches and two DMA engines, over the stages listed in
/// `layer_groups`.
pub struct YoloController<Sw, Dma, Unit> {
    pub sw0: Sw,
    pub sw1: Sw,
    pub sw2: Sw,
    pub dma0: Dma,
    pub dma1: Dma,
    pub yolo_acc: Unit,
    pub yolo_conv: Unit,
    pub yolo_mp: Unit,
    pub yolo_yolo: Unit,
    pub yolo_upsamp: Unit,
    /// Bound on the number of polls of any hardware completion flag.
    pub poll_limit: u64,
    /// The network stages, in execution order.
    pub layer_groups: Vec<LayerGroup>,
}

impl<Sw: StreamSwitch, Dma: DmaChannel, Unit: HwUnit> YoloController<Sw, Dma, Unit> {
    /// Takes ownership of the hardware ports and brings both DMA
    /// engines up.  The stage list starts empty.
    pub fn new(
        sw0: Sw,
        sw1: Sw,
        sw2: Sw,
        dma0: Dma,
        dma1: Dma,
        yolo_acc: Unit,
        yolo_conv: Unit,
        yolo_mp: Unit,
        yolo_yolo: Unit,
        yolo_upsamp: Unit,
        poll_limit: u64,
    ) -> (r: YoloController<Sw, Dma, Unit>)
        ensures
            r.layer_groups@ =~= Seq::<LayerGroup>::empty(),
            r.poll_limit == poll_limit,
            r.sw0 == sw0,
            r.sw1 == sw1,
            r.sw2 == sw2,
            r.dma0 == dma0,
            r.dma1 == dma1,
            r.yolo_acc == yolo_acc,
            r.yolo_conv == yolo_conv,
            r.yolo_mp == yolo_mp,
            r.yolo_yolo == yolo_yolo,
            r.yolo_upsamp == yolo_upsamp,
    {
        dma0.start();
        dma1.start();
        YoloController {
            sw0,
            sw1,
            sw2,
            dma0,
            dma1,
            yolo_acc,
            yolo_conv,
            yolo_mp,
            yolo_yolo,
            yolo_upsamp,
            poll_limit,
            layer_groups: Vec::new(),
        }
    }

    /// Halts both DMA engines; called at teardown whatever the exit
    /// path.
    pub fn stop_dmas(&self) {
        self.dma0.stop();
        self.dma1.stop();
    }

    /// Configures the convolution unit for a stage.
    fn set_yolo_conv(&self, grp_idx: usize)
        requires
            grp_idx < self.layer_groups@.len(),
            self.layer_groups@[grp_idx as int].wf(),
    {
        let l = &self.layer_groups[grp_idx];
        self.yolo_conv.set("OUTPUT_CH", l.output_ch);
        self.yolo_conv.set("INPUT_CH", l.input_ch);
        self.yolo_conv.set("FOLD_OUTPUT_CH", l.output_fold_ch);
        self.yolo_conv.set("FOLD_INPUT_CH", l.input_fold_ch);
        self.yolo_conv.set("INPUT_H", l.input_height + 2);
        self.yolo_conv.set("INPUT_W", l.input_width + 2);
        self.yolo_conv.set("REAL_INPUT_H", l.input_height + 2);
        self.yolo_conv.set("FOLD_WIN_AREA", 3);
    }

    /// Configures the max-pooling unit for a stage; `add_val` widens the
    /// output window for stride-one pooling.
    fn set_yolo_max_pool(&self, grp_idx: usize, add_val: u32)
        requires
            grp_idx < self.layer_groups@.len(),
            self.layer_groups@[grp_idx as int].wf(),
            add_val <= 1,
    {
        let l = &self.layer_groups[grp_idx];
        self.yolo_mp.set("OUTPUT_H", l.output_height + add_val);
        self.yolo_mp.set("OUTPUT_W", l.output_width + add_val);
        self.yolo_mp.set("INPUT_H", l.input_height);
        self.yolo_mp.set("INPUT_W", l.input_width);
        self.yolo_mp.set("INPUT_FOLD_CH", l.output_fold_ch);
        self.yolo_mp.set("STRIDE", l.pooling_stride);
    }

    /// Configures the YOLO unit with an activation-enable mask.
    fn set_yolo_yolo(&self, active_mask: u32, input_h: u32, input_w: u32) {
        self.yolo_yolo.set("ACTIVATE_EN", active_mask);
        self.yolo_yolo.set("INPUT_H", input_h);
        self.yolo_yolo.set("INPUT_W", input_w);
    }

    /// Configures the accumulator for a stage.  On the partial-sum path
    /// (`bias_en == false`) the bias is disabled and the activation is
    /// forced linear.
    fn set_yolo_acc(&self, grp_idx: usize, bias_en: bool)
        requires
            grp_idx < self.layer_groups@.len(),
            self.layer_groups@[grp_idx as int].wf(),
    {
        let l = &self.layer_groups[grp_idx];
        let leaky_num: u32 = if bias_en {
            activation_code(l.activate_type)
        } else {
            0
        };
        let bias_num: u32 = if bias_en {
            1
        } else {
            0
        };
        self.yolo_acc.set("INPUT_H", l.input_height);
        self.yolo_acc.set("INPUT_W", l.input_width);
        self.yolo_acc.set("FOLD_INPUT_CH", l.output_fold_ch);
        self.yolo_acc.set("LEAKY", leaky_num);
        self.yolo_acc.set("BIAS_EN", bias_num);
    }

    /// Routes the stream switches for a stage: the convolution bypass
    /// and the post-process unit selection.
    fn set_axis_switch(&self, conv_disable: bool, post_process_type: PostProcess) {
        let conv_code: u8 = if conv_disable {
            1
        } else {
            0
        };
        let pp_code: u8 = post_process_code(post_process_type);

        self.sw0.reg_update_disable();
        self.sw1.reg_update_disable();
        self.sw2.reg_update_disable();

        self.sw0.disable_all_mi_ports();
        self.sw1.disable_all_mi_ports();
        self.sw2.disable_all_mi_ports();

        self.sw0.enable_mi_port(conv_code, 0);
        self.sw1.enable_mi_port(pp_code, conv_code);
        self.sw2.enable_mi_port(0, pp_code);

        self.sw0.reg_update_enable();
        self.sw1.reg_update_enable();
        self.sw2.reg_update_enable();
    }

    /// Starts every unit that takes part in a stage.
    fn start_all_ips(&self, grp_idx: usize)
        requires
            grp_idx < self.layer_groups@.len(),
    {
        let l = &self.layer_groups[grp_idx];
        if !l.conv_disable {
            self.yolo_conv.start();
            self.yolo_acc.start();
        }
        if l.post_process_type == PostProcess::MaxPool {
            self.yolo_mp.start();
        }
        if l.post_process_type == PostProcess::Yolo {
            self.yolo_yolo.start();
        }
        if l.post_process_type == PostProcess::Upsample {
            self.yolo_upsamp.start();
        }
    }

    /// Configures and starts every unit of a stage for its last input
    /// fold: convolution and accumulation with bias, the stage's
    /// post-process unit, and the stream routing.
    fn configure_all_ips(&self, grp_idx: usize, off: u32)
        requires
            grp_idx < self.layer_groups@.len(),
            self.layer_groups@[grp_idx as int].wf(),
            self.layer_groups@[grp_idx as int].post_process_type == PostProcess::Yolo ==> off < 8,
    {
        let l = &self.layer_groups[grp_idx];
        if !l.conv_disable {
            self.set_yolo_conv(grp_idx);
            self.set_yolo_acc(grp_idx, true);
        }
        if l.post_process_type == PostProcess::MaxPool {
            if l.pooling_stride == 2 {
                self.set_yolo_max_pool(grp_idx, 0);
            } else {
                self.set_yolo_max_pool(grp_idx, 1);
            }
        }
        if l.post_process_type == PostProcess::Yolo {
            let mask = active_en(off);
            let h = self.layer_groups[grp_idx].input_height;
            let w = self.layer_groups[grp_idx].input_width;
            self.set_yolo_yolo(mask, h, w);
        }
        let cd = self.layer_groups[grp_idx].conv_disable;
        let pp = self.layer_groups[grp_idx].post_process_type;
        self.set_axis_switch(cd, pp);
        self.start_all_ips(grp_idx);
    }

    /// Configures and starts the partial-sum path alone: convolution
    /// and accumulation without bias, no post-process unit.
    fn configure_conv_and_acc_ips(&self, grp_idx: usize)
        requires
            grp_idx < self.layer_groups@.len(),
            self.layer_groups@[grp_idx as int].wf(),
    {
        self.set_yolo_conv(grp_idx);
        self.set_yolo_acc(grp_idx, false);
        self.set_axis_switch(false, PostProcess::NoOp);
        self.yolo_conv.start();
        self.yolo_acc.start();
    }

    /// Waits for the unit that produces a stage's output: the stage's
    /// post-process unit, or the accumulator when there is none.
    fn wait_ips(&self, grp_idx: usize) -> (r: Result<(), YoloError>)
        requires
            grp_idx < self.layer_groups@.len(),
        ensures
            r is Err ==> r->Err_0 == YoloError::DmaError,
    {
        let l = &self.layer_groups[grp_idx];
        if l.post_process_type == PostProcess::NoOp {
            wait_unit(&self.yolo_acc, self.poll_limit)?;
        }
        if l.post_process_type == PostProcess::MaxPool {
            wait_unit(&self.yolo_mp, self.poll_limit)?;
        }
        if l.post_process_type == PostProcess::Yolo {
            wait_unit(&self.yolo_yolo, self.poll_limit)?;
        }
        if l.post_process_type == PostProcess::Upsample {
            wait_unit(&self.yolo_upsamp, self.poll_limit)?;
        }
        Ok(())
    }

    /// Waits for the accumulator alone, after a partial-sum fold.
    fn wait_acc_ip(&self) -> (r: Result<(), YoloError>)
        ensures
            r is Err ==> r->Err_0 == YoloError::DmaError,
    {
        wait_unit(&self.yolo_acc, self.poll_limit)
    }

    /// Polls the weight channel until its memory-to-stream side drains.
    fn wait_dma0_mm2s(&mut self) -> (r: Result<(), YoloError>)
        ensures
            final(self).layer_groups == old(self).layer_groups,
            final(self).poll_limit == old(self).poll_limit,
            r is Err ==> r->Err_0 == YoloError::DmaError,
    {
        let limit: u64 = self.poll_limit;
        let mut tries: u64 = 0;
        while tries < limit
            invariant
                tries <= limit,
                self.layer_groups == old(self).layer_groups,
                self.poll_limit == old(self).poll_limit,
            decreases limit - tries,
        {
            match self.dma0.is_mm2s_idle() {
                Ok(true) => {
                    return Ok(());
                },
                Ok(false) => {},
                Err(_) => {
                    return Err(YoloError::DmaError);
                },
            }
            tries = tries + 1;
        }
        Err(YoloError::DmaError)
    }

    /// Streams the weight sub-block of `(off, iff)` and waits until the
    /// transfer drains.
    fn transfer_weights(&mut self, grp_idx: usize, off: u32, iff: u32) -> (r: Result<
        (),
        YoloError,
    >)
        requires
            grp_idx < old(self).layer_groups@.len(),
            old(self).layer_groups@[grp_idx as int].wf(),
            off < old(self).layer_groups@[grp_idx as int].output_fold_factor,
            iff < old(self).layer_groups@[grp_idx as int].input_fold_factor,
            old(self).layer_groups@[grp_idx as int].weights is Some,
            old(self).layer_groups@[grp_idx as int].weight_size() * (old(self).layer_groups@[grp_idx as int].output_fold_factor * iff + off + 1) <= old(self).layer_groups@[grp_idx as int].weights->0@.len(),
        ensures
            final(self).layer_groups == old(self).layer_groups,
            final(self).poll_limit == old(self).poll_limit,
            r is Err ==> r->Err_0 == YoloError::DmaError,
    {
        let weights = match self.layer_groups[grp_idx].get_weights(off, iff) {
            Ok(w) => w,
            Err(e) => {
                return Err(e);
            },
        };
        match self.dma0.write(weights) {
            Ok(()) => {},
            Err(_) => {
                return Err(YoloError::DmaError);
            },
        }
        self.wait_dma0_mm2s()
    }

    /// Streams the bias slice of output fold `off`.
    fn transfer_biases(&mut self, grp_idx: usize, off: u32) -> (r: Result<(), YoloError>)
        requires
            grp_idx < old(self).layer_groups@.len(),
            old(self).layer_groups@[grp_idx as int].wf(),
            old(self).layer_groups@[grp_idx as int].biases is Some,
            old(self).layer_groups@[grp_idx as int].output_ch * (off + 1) <= old(self).layer_groups@[grp_idx as int].biases->0@.len(),
        ensures
            final(self).layer_groups == old(self).layer_groups,
            final(self).poll_limit == old(self).poll_limit,
            r is Err ==> r->Err_0 == YoloError::DmaError,
    {
        let biases = match self.layer_groups[grp_idx].get_biases(off) {
            Ok(b) => b,
            Err(e) => {
                return Err(e);
            },
        };
        match self.dma1.write(biases) {
            Ok(()) => Ok(()),
            Err(_) => Err(YoloError::DmaError),
        }
    }

    /// Streams the running accumulator buffer.
    fn transfer_acc_input(&mut self, acc_input_buff: &[i16]) -> (r: Result<(), YoloError>)
        ensures
            final(self).layer_groups == old(self).layer_groups,
            final(self).poll_limit == old(self).poll_limit,
            r is Err ==> r->Err_0 == YoloError::DmaError,
    {
        match self.dma1.write(acc_input_buff) {
            Ok(()) => Ok(()),
            Err(_) => Err(YoloError::DmaError),
        }
    }

    /// Reads back the next partial accumulator, `acc_size` samples; a
    /// short or long transfer counts as a failure.
    fn transfer_acc_output(&mut self, grp_idx: usize) -> (r: Result<Vec<i16>, YoloError>)
        requires
            grp_idx < old(self).layer_groups@.len(),
        ensures
            final(self).layer_groups == old(self).layer_groups,
            final(self).poll_limit == old(self).poll_limit,
            r is Ok ==> r->Ok_0@.len() == old(self).layer_groups@[grp_idx as int].acc_size,
            r is Err ==> r->Err_0 == YoloError::DmaError,
    {
        let count: usize = self.layer_groups[grp_idx].acc_size as usize;
        match self.dma0.read(count) {
            Ok(v) => if v.len() == count {
                Ok(v)
            } else {
                Err(YoloError::DmaError)
            },
            Err(_) => Err(YoloError::DmaError),
        }
    }

    /// Reads back one output fold, `output_size` samples; a short or
    /// long transfer counts as a failure.
    fn transfer_output(&mut self, grp_idx: usize) -> (r: Result<Vec<i16>, YoloError>)
        requires
            grp_idx < old(self).layer_groups@.len(),
        ensures
            final(self).layer_groups == old(self).layer_groups,
            final(self).poll_limit == old(self).poll_limit,
            r is Ok ==> r->Ok_0@.len() == old(self).layer_groups@[grp_idx as int].output_size,
            r is Err ==> r->Err_0 == YoloError::DmaError,
    {
        let count: usize = self.layer_groups[grp_idx].output_size as usize;
        match self.dma0.read(count) {
            Ok(v) => if v.len() == count {
                Ok(v)
            } else {
                Err(YoloError::DmaError)
            },
            Err(_) => Err(YoloError::DmaError),
        }
    }

    /// Streams input fold `idx` of a stage.
    fn transfer_inputs(&mut self, grp_idx: usize, idx: u32) -> (r: Result<(), YoloError>)
        requires
            grp_idx < old(self).layer_groups@.len(),
            old(self).layer_groups@[grp_idx as int].wf(),
            old(self).layer_groups@[grp_idx as int].inputs is Some,
            old(self).layer_groups@[grp_idx as int].input_size * (idx + 1) <= old(self).layer_groups@[grp_idx as int].inputs->0@.len(),
        ensures
            final(self).layer_groups == old(self).layer_groups,
            final(self).poll_limit == old(self).poll_limit,
            r is Err ==> r->Err_0 == YoloError::DmaError,
    {
        let inputs = match self.layer_groups[grp_idx].get_inputs(idx) {
            Ok(i) => i,
            Err(e) => {
                return Err(e);
            },
        };
        match self.dma0.write(inputs) {
            Ok(()) => Ok(()),
            Err(_) => Err(YoloError::DmaError),
        }
    }

    /// Streams the last input fold of output fold `off` and stores the
    /// post-processed output: bias, accumulator and input when the
    /// stage convolves, the `off`'th input slice alone when it does
    /// not; then reads `output_size` samples back into the stage and
    /// waits for the producing unit.
    fn transfer_last_channel_data(
        &mut self,
        grp_idx: usize,
        off: u32,
        iff: u32,
        acc_input_buff: &[i16],
    ) -> (r: Result<(), YoloError>)
        requires
            grp_idx < old(self).layer_groups@.len(),
            old(self).layer_groups@[grp_idx as int].wf(),
            off < old(self).layer_groups@[grp_idx as int].output_fold_factor,
            old(self).layer_groups@[grp_idx as int].inputs is Some,
            !old(self).layer_groups@[grp_idx as int].conv_disable ==> iff < old(self).layer_groups@[grp_idx as int].input_fold_factor,
            !old(self).layer_groups@[grp_idx as int].conv_disable ==> old(self).layer_groups@[grp_idx as int].input_size * (iff + 1) <= old(self).layer_groups@[grp_idx as int].inputs->0@.len(),
            old(self).layer_groups@[grp_idx as int].conv_disable ==> old(self).layer_groups@[grp_idx as int].input_size * (off + 1) <= old(self).layer_groups@[grp_idx as int].inputs->0@.len(),
            !old(self).layer_groups@[grp_idx as int].conv_disable ==> old(self).layer_groups@[grp_idx as int].biases is Some && old(self).layer_groups@[grp_idx as int].output_ch * (off + 1) <= old(self).layer_groups@[grp_idx as int].biases->0@.len(),
            off == 0 ==> old(self).layer_groups@[grp_idx as int].outputs is None,
            off > 0 ==> old(self).layer_groups@[grp_idx as int].outputs is Some && old(self).layer_groups@[grp_idx as int].outputs->0@.len() == old(self).layer_groups@[grp_idx as int].output_size * off,
            old(self).layer_groups@[grp_idx as int].output_size * (off + 1) <= usize::MAX,
        ensures
            final(self).poll_limit == old(self).poll_limit,
            final(self).layer_groups@.len() == old(self).layer_groups@.len(),
            forall|j: int|
                0 <= j < old(self).layer_groups@.len() && j != grp_idx ==> final(self).layer_groups@[j] == old(self).layer_groups@[j],
            final(self).layer_groups@[grp_idx as int] == (LayerGroup {
                outputs: final(self).layer_groups@[grp_idx as int].outputs,
                ..old(self).layer_groups@[grp_idx as int]
            }),
            r is Ok ==> final(self).layer_groups@[grp_idx as int].outputs is Some && final(self).layer_groups@[grp_idx as int].outputs->0@.len() == old(self).layer_groups@[grp_idx as int].output_size * (off + 1),
            r is Err ==> r->Err_0 == YoloError::DmaError,
    {
        proof {
            crate::arith::lemma_mul_succ(
                old(self).layer_groups@[grp_idx as int].output_size as int,
                off as int,
            );
            crate::arith::lemma_mul_le_le(
                old(self).layer_groups@[grp_idx as int].output_size as int,
                off as int,
                u32::MAX as int,
                u32::MAX as int,
            );
        }
        let conv_disable: bool = self.layer_groups[grp_idx].conv_disable;
        if !conv_disable {
            self.transfer_biases(grp_idx, off)?;
            self.transfer_acc_input(acc_input_buff)?;
            self.transfer_inputs(grp_idx, iff)?;
        } else {
            self.transfer_inputs(grp_idx, off)?;
        }
        let output = self.transfer_output(grp_idx)?;
        let g = &mut self.layer_groups[grp_idx];
        g.set_outputs(off, output);
        self.wait_ips(grp_idx)
    }

    /// Streams one partial-sum input fold: the `iff`'th input slice and
    /// the running accumulator go out, and the next partial accumulator
    /// comes back in `acc_output_buff`.
    fn transfer_subchannel_data(
        &mut self,
        grp_idx: usize,
        iff: u32,
        acc_input_buff: &[i16],
        acc_output_buff: &mut Vec<i16>,
    ) -> (r: Result<(), YoloError>)
        requires
            grp_idx < old(self).layer_groups@.len(),
            old(self).layer_groups@[grp_idx as int].wf(),
            old(self).layer_groups@[grp_idx as int].inputs is Some,
            old(self).layer_groups@[grp_idx as int].input_size * (iff + 1) <= old(self).layer_groups@[grp_idx as int].inputs->0@.len(),
        ensures
            final(self).poll_limit == old(self).poll_limit,
            final(self).layer_groups == old(self).layer_groups,
            r is Ok ==> final(acc_output_buff)@.len() == old(self).layer_groups@[grp_idx as int].acc_size,
            r is Err ==> r->Err_0 == YoloError::DmaError,
    {
        self.transfer_inputs(grp_idx, iff)?;
        self.transfer_acc_input(acc_input_buff)?;
        let acc = self.transfer_acc_output(grp_idx)?;
        let mut acc = acc;
        core::mem::swap(acc_output_buff, &mut acc);
        self.wait_acc_ip()
    }

    /// Executes the channel-folded streaming protocol for one stage.
    ///
    /// For each output fold, a zeroed accumulator is threaded through
    /// all input folds in a ping-pong pair of buffers: every fold but
    /// the last streams a partial sum out and back, and the last fold
    /// adds bias and post-processing and stores one `output_size` slice
    /// of the stage's output.  On success the stage holds its complete
    /// output of `output_size * output_fold_factor` samples; a DMA
    /// failure or an exhausted completion poll aborts the whole group
    /// with `DmaError`.
    #[verifier::loop_isolation(false)]
    #[verifier::rlimit(60)]
    pub fn start_layer_processing(&mut self, grp_idx: usize) -> (r: Result<(), YoloError>)
        requires
            grp_idx < old(self).layer_groups@.len(),
            old(self).layer_groups@[grp_idx as int].wf(),
            old(self).layer_groups@[grp_idx as int].inputs is Some,
            !old(self).layer_groups@[grp_idx as int].conv_disable ==> old(self).layer_groups@[grp_idx as int].input_size * old(self).layer_groups@[grp_idx as int].input_fold_factor <= old(self).layer_groups@[grp_idx as int].inputs->0@.len(),
            old(self).layer_groups@[grp_idx as int].conv_disable ==> old(self).layer_groups@[grp_idx as int].input_size * old(self).layer_groups@[grp_idx as int].output_fold_factor <= old(self).layer_groups@[grp_idx as int].inputs->0@.len(),
            !old(self).layer_groups@[grp_idx as int].conv_disable ==> old(self).layer_groups@[grp_idx as int].weights is Some && old(self).layer_groups@[grp_idx as int].weight_size() * (old(self).layer_groups@[grp_idx as int].output_fold_factor * old(self).layer_groups@[grp_idx as int].input_fold_factor) <= old(self).layer_groups@[grp_idx as int].weights->0@.len(),
            !old(self).layer_groups@[grp_idx as int].conv_disable ==> old(self).layer_groups@[grp_idx as int].biases is Some && old(self).layer_groups@[grp_idx as int].output_ch * old(self).layer_groups@[grp_idx as int].output_fold_factor <= old(self).layer_groups@[grp_idx as int].biases->0@.len(),
            old(self).layer_groups@[grp_idx as int].outputs is None,
            old(self).layer_groups@[grp_idx as int].conv_disable ==> old(self).layer_groups@[grp_idx as int].input_fold_factor == 1,
            old(self).layer_groups@[grp_idx as int].post_process_type == PostProcess::Yolo ==> old(self).layer_groups@[grp_idx as int].output_fold_factor <= 8,
            old(self).layer_groups@[grp_idx as int].output_size * old(self).layer_groups@[grp_idx as int].output_fold_factor <= usize::MAX,
        ensures
            final(self).poll_limit == old(self).poll_limit,
            final(self).layer_groups@.len() == old(self).layer_groups@.len(),
            forall|j: int|
                0 <= j < old(self).layer_groups@.len() && j != grp_idx ==> final(self).layer_groups@[j] == old(self).layer_groups@[j],
            final(self).layer_groups@[grp_idx as int] == (LayerGroup {
                outputs: final(self).layer_groups@[grp_idx as int].outputs,
                ..old(self).layer_groups@[grp_idx as int]
            }),
            r is Ok ==> final(self).layer_groups@[grp_idx as int].outputs is Some && final(self).layer_groups@[grp_idx as int].outputs->0@.len() == old(self).layer_groups@[grp_idx as int].output_size * old(self).layer_groups@[grp_idx as int].output_fold_factor,
            r is Err ==> r->Err_0 == YoloError::DmaError,
    {
        let ghost g = old(self).layer_groups@[grp_idx as int];
        let output_fold_factor: u32 = self.layer_groups[grp_idx].output_fold_factor;
        let input_fold_factor: u32 = self.layer_groups[grp_idx].input_fold_factor;
        let acc_size: u32 = self.layer_groups[grp_idx].acc_size;
        let conv_disable: bool = self.layer_groups[grp_idx].conv_disable;
        let mut off: u32 = 0;
        while off < output_fold_factor
            invariant
                off <= output_fold_factor,
                self.poll_limit == old(self).poll_limit,
                self.layer_groups@.len() == old(self).layer_groups@.len(),
                forall|j: int|
                    0 <= j < old(self).layer_groups@.len() && j != grp_idx ==> self.layer_groups@[j]
                        == old(self).layer_groups@[j],
                self.layer_groups@[grp_idx as int] == (LayerGroup {
                    outputs: self.layer_groups@[grp_idx as int].outputs,
                    ..g
                }),
                off == 0 ==> self.layer_groups@[grp_idx as int].outputs is None,
                off > 0 ==> self.layer_groups@[grp_idx as int].outputs is Some
                    && self.layer_groups@[grp_idx as int].outputs->0@.len() == g.output_size * off,
            decreases output_fold_factor - off,
        {
            let mut acc_output_buff: Vec<i16> = Vec::new();
            let mut acc_input_buff: Vec<i16> = crate::layer_group::zero_vec(acc_size as usize);
            let mut iff: u32 = 0;
            while iff < input_fold_factor
                invariant
                    iff <= input_fold_factor,
                    off < output_fold_factor,
                    self.poll_limit == old(self).poll_limit,
                    self.layer_groups@.len() == old(self).layer_groups@.len(),
                    forall|j: int|
                        0 <= j < old(self).layer_groups@.len() && j != grp_idx ==> self
                            .layer_groups@[j] == old(self).layer_groups@[j],
                    self.layer_groups@[grp_idx as int] == (LayerGroup {
                        outputs: self.layer_groups@[grp_idx as int].outputs,
                        ..g
                    }),
                    iff < input_fold_factor ==> acc_input_buff@.len() == g.acc_size,
                    iff < input_fold_factor ==> (off == 0 ==> self.layer_groups@[grp_idx
                        as int].outputs is None) && (off > 0 ==> self.layer_groups@[grp_idx
                        as int].outputs is Some && self.layer_groups@[grp_idx
                        as int].outputs->0@.len() == g.output_size * off),
                    iff == input_fold_factor ==> self.layer_groups@[grp_idx as int].outputs is Some
                        && self.layer_groups@[grp_idx as int].outputs->0@.len() == g.output_size * (
                    off + 1),
                decreases input_fold_factor - iff,
            {
                let is_last_input_ch: bool = iff == input_fold_factor - 1;

                if is_last_input_ch {
                    self.configure_all_ips(grp_idx, off);
                } else {
                    self.configure_conv_and_acc_ips(grp_idx);
                }
                if !conv_disable {
                    proof {
                        crate::arith::lemma_mul_mono(
                            g.output_fold_factor as int,
                            iff as int,
                            (g.input_fold_factor - 1) as int,
                        );
                        crate::arith::lemma_mul_succ(
                            g.output_fold_factor as int,
                            (g.input_fold_factor - 1) as int,
                        );
                        crate::arith::lemma_mul_mono(
                            g.weight_size(),
                            g.output_fold_factor * iff + off + 1,
                            g.output_fold_factor * g.input_fold_factor,
                        );
                    }
                    self.transfer_weights(grp_idx, off, iff)?;
                }
                if is_last_input_ch {
                    proof {
                        crate::arith::lemma_mul_mono(
                            g.input_size as int,
                            (iff + 1) as int,
                            g.input_fold_factor as int,
                        );
                        crate::arith::lemma_mul_mono(
                            g.input_size as int,
                            (off + 1) as int,
                            g.output_fold_factor as int,
                        );
                        crate::arith::lemma_mul_mono(
                            g.output_ch as int,
                            (off + 1) as int,
                            g.output_fold_factor as int,
                        );
                        crate::arith::lemma_mul_mono(
                            g.output_size as int,
                            (off + 1) as int,
                            g.output_fold_factor as int,
                        );
                    }
                    self.transfer_last_channel_data(grp_idx, off, iff, acc_input_buff.as_slice())?;
                } else {
                    proof {
                        crate::arith::lemma_mul_mono(
                            g.input_size as int,
                            (iff + 1) as int,
                            g.input_fold_factor as int,
                        );
                    }
                    self.transfer_subchannel_data(
                        grp_idx,
                        iff,
                        acc_input_buff.as_slice(),
                        &mut acc_output_buff,
                    )?;
                }

                core::mem::swap(&mut acc_input_buff, &mut acc_output_buff);
                iff = iff + 1;
            }
            off = off + 1;
        }
        Ok(())
    }
}

} // verus!

//! Shape and buffer descriptor for one network stage.
//!
//! A layer group bundles the dimensions of one stage, the channel-fold
//! bookkeeping of the streaming protocol, and the four optional data
//! buffers (input, output, weight, bias) that the scheduler reads and
//! fills.  All sizes are fixed at construction; the buffers are absent
//! until populated.

use vstd::prelude::*;

use crate::arith::{lemma_mul_le_le, lemma_mul_mono, lemma_mul_succ};
use crate::errors::YoloError;

verus! {

/// Activation function of a stage.
#[derive(Clone, Copy, Debug, PartialEq, Eq, Structural)]
pub enum Activation {
    Linear,
    Leaky,
}

/// Post-process unit driven after a stage's accumulation.
#[derive(Clone, Copy, Debug, PartialEq, Eq, Structural)]
pub enum PostProcess {
    NoOp,
    MaxPool,
    Yolo,
    Upsample,
}

/// Numeric code of an activation, as the accumulator register takes it.
pub open spec fn activation_code_spec(a: Activation) -> u32 {
    match a {
        Activation::Linear => 0,
        Activation::Leaky => 1,
    }
}

/// Numeric code of a post-process unit, as the stream switches take it.
pub open spec fn post_process_code_spec(p: PostProcess) -> u8 {
    match p {
        PostProcess::NoOp => 0,
        PostProcess::MaxPool => 1,
        PostProcess::Yolo => 2,
        PostProcess::Upsample => 3,
    }
}

/// Executable form of [`activation_code_spec`].
pub fn activation_code(a: Activation) -> (r: u32)
    ensures
        r == activation_code_spec(a),
{
    match a {
        Activation::Linear => 0,
        Activation::Leaky => 1,
    }
}

/// Executable form of [`post_process_code_spec`].
pub fn post_process_code(p: PostProcess) -> (r: u8)
    ensures
        r == post_process_code_spec(p),
{
    match p {
        PostProcess::NoOp => 0,
        PostProcess::MaxPool => 1,
        PostProcess::Yolo => 2,
        PostProcess::Upsample => 3,
    }
}

/// The hardware processes four channels per fold slot.
pub const CH_FOLD_FACTOR: u32 = 4;

/// Shape, fold bookkeeping and buffers of one network stage.
pub struct LayerGroup {
    /// Input width in pixels.
    pub input_width: u32,
    /// Input height in pixels.
    pub input_height: u32,
    /// Input channel count.
    pub input_ch: u32,
    /// `ceil(input_ch / 4)`: input channels in units of four.
    pub input_fold_ch: u32,
    /// Elements of one input sub-pass: `input_width * input_height * input_fold_ch * 4`.
    pub input_size: u32,
    /// Number of input sub-passes per output sub-pass.
    pub input_fold_factor: u32,
    /// Elements of the running accumulator: `input_width * input_height * output_fold_ch * 4`.
    pub acc_size: u32,
    /// Output width in pixels.
    pub output_width: u32,
    /// Output height in pixels.
    pub output_height: u32,
    /// Output channel count.
    pub output_ch: u32,
    /// `ceil(output_ch / 4)`: output channels in units of four.
    pub output_fold_ch: u32,
    /// Elements of one output sub-pass: `output_width * output_height * output_fold_ch * 4`.
    pub output_size: u32,
    /// Number of output sub-passes.
    pub output_fold_factor: u32,
    /// Stride of the max-pooling unit.
    pub pooling_stride: u32,
    /// Input samples, absent until wired from the previous stage.
    pub inputs: Option<Vec<i16>>,
    /// Output samples, absent until the scheduler stores them.
    pub outputs: Option<Vec<i16>>,
    /// Convolution weights, absent until loaded.
    pub weights: Option<Vec<i16>>,
    /// Accumulator biases, absent until loaded.
    pub biases: Option<Vec<i16>>,
    /// Activation function of the accumulator.
    pub activate_type: Activation,
    /// Post-process unit of this stage.
    pub post_process_type: PostProcess,
    /// True when the stage bypasses convolution and accumulation.
    pub conv_disable: bool,
}

impl LayerGroup {
    /// Elements of one weight sub-block.
    pub open spec fn weight_size(self) -> int {
        12 * self.input_ch * self.output_ch
    }

    /// The derived sizes agree with the stage's dimensions, and the
    /// dimensions stay within the range that the register protocol and
    /// the index arithmetic of the scheduler rely on.
    pub open spec fn wf(self) -> bool {
        &&& self.input_fold_ch == (self.input_ch + 3) / 4
        &&& self.output_fold_ch == (self.output_ch + 3) / 4
        &&& self.input_size == self.input_width * self.input_height * self.input_fold_ch * 4
        &&& self.output_size == self.output_width * self.output_height * self.output_fold_ch * 4
        &&& self.acc_size == self.input_width * self.input_height * self.output_fold_ch * 4
        &&& 1 <= self.input_ch <= 0xffff
        &&& 1 <= self.output_ch <= 0xffff
        &&& self.input_width <= 0xffff
        &&& self.input_height <= 0xffff
        &&& self.output_width <= 0xffff
        &&& self.output_height <= 0xffff
        &&& 1 <= self.input_fold_factor <= 0xffff
        &&& 1 <= self.output_fold_factor <= 0xffff
    }

    /// Builds a stage descriptor with the documented derived sizes and
    /// no buffers.
    pub fn new(
        input_w: u32,
        input_h: u32,
        input_ch: u32,
        input_fold_factor: u32,
        output_w: u32,
        output_h: u32,
        output_ch: u32,
        output_fold_factor: u32,
        conv_disable: bool,
        activate_type: Activation,
        post_process_type: PostProcess,
        pooling_stride: u32,
    ) -> (r: LayerGroup)
        requires
            1 <= input_ch <= 0xffff,
            1 <= output_ch <= 0xffff,
            input_w <= 0xffff,
            input_h <= 0xffff,
            output_w <= 0xffff,
            output_h <= 0xffff,
            1 <= input_fold_factor <= 0xffff,
            1 <= output_fold_factor <= 0xffff,
            input_w * input_h * ((input_ch + 3) / 4) * 4 <= u32::MAX,
            output_w * output_h * ((output_ch + 3) / 4) * 4 <= u32::MAX,
            input_w * input_h * ((output_ch + 3) / 4) * 4 <= u32::MAX,
        ensures
            r.wf(),
            r.input_fold_ch == (input_ch + 3) / 4,
            r.output_fold_ch == (output_ch + 3) / 4,
            r.input_size == input_w * input_h * ((input_ch + 3) / 4) * 4,
            r.output_size == output_w * output_h * ((output_ch + 3) / 4) * 4,
            r.acc_size == input_w * input_h * ((output_ch + 3) / 4) * 4,
            r.input_width == input_w,
            r.input_height == input_h,
            r.input_ch == input_ch,
            r.input_fold_factor == input_fold_factor,
            r.output_width == output_w,
            r.output_height == output_h,
            r.output_ch == output_ch,
            r.output_fold_factor == output_fold_factor,
            r.conv_disable == conv_disable,
            r.activate_type == activate_type,
            r.post_process_type == post_process_type,
            r.pooling_stride == pooling_stride,
            r.inputs is None,
            r.outputs is None,
            r.weights is None,
            r.biases is None,
    {
        let input_fold_ch: u32 = (input_ch + 3) / 4;
        let output_fold_ch: u32 = (output_ch + 3) / 4;
        proof {
            lemma_mul_le_le(input_w as int, input_h as int, 0xffff, 0xffff);
            lemma_mul_le_le(output_w as int, output_h as int, 0xffff, 0xffff);
            lemma_mul_le_le((input_w * input_h) as int, input_fold_ch as int, 0xffff * 0xffffint,
                0x4000);
            lemma_mul_le_le((input_w * input_h) as int, output_fold_ch as int, 0xffff * 0xffffint,
                0x4000);
            lemma_mul_le_le((output_w * output_h) as int, output_fold_ch as int, 0xffff * 0xffffint,
                0x4000);
        }
        let input_size64: u64 = (input_w as u64) * (input_h as u64) * (input_fold_ch as u64) * 4;
        let output_size64: u64 = (output_w as u64) * (output_h as u64) * (output_fold_ch as u64)
            * 4;
        let acc_size64: u64 = (input_w as u64) * (input_h as u64) * (output_fold_ch as u64) * 4;
        LayerGroup {
            input_width: input_w,
            input_height: input_h,
            input_ch,
            input_fold_ch,
            input_size: input_size64 as u32,
            input_fold_factor,
            output_width: output_w,
            output_height: output_h,
            output_ch,
            output_fold_ch,
            output_size: output_size64 as u32,
            output_fold_factor,
            acc_size: acc_size64 as u32,
            conv_disable,
            activate_type,
            post_process_type,
            pooling_stride,
            inputs: None,
            outputs: None,
            weights: None,
            biases: None,
        }
    }

    /// The weight sub-block of output fold `off` and input fold `iff`:
    /// `weight_size` elements at offset
    /// `weight_size * (output_fold_factor * iff + off)`.
    ///
    /// Fails with `BufferNotReady` exactly when no weights are loaded.
    pub fn get_weights(&self, off: u32, iff: u32) -> (r: Result<&[i16], YoloError>)
        requires
            self.wf(),
            off < self.output_fold_factor,
            iff < self.input_fold_factor,
            self.weights is Some ==> self.weight_size() * (self.output_fold_factor * iff + off
                + 1) <= self.weights->0@.len(),
        ensures
            r is Err <==> self.weights is None,
            r is Err ==> r->Err_0 == YoloError::BufferNotReady,
            r is Ok ==> r->Ok_0@ == self.weights->0@.subrange(
                self.weight_size() * (self.output_fold_factor * iff + off),
                self.weight_size() * (self.output_fold_factor * iff + off) + self.weight_size(),
            ),
    {
        match &self.weights {
            Some(w) => {
                let wlen: usize = w.len();
                proof {
                    lemma_mul_le_le(12 * self.input_ch, self.output_ch as int, 12 * 0xffffint,
                        0xffff);
                    lemma_mul_le_le(self.output_fold_factor as int, iff as int, 0xffff, 0xffff);
                }
                let ws: u64 = 12 * (self.input_ch as u64) * (self.output_ch as u64);
                let slot: u64 = (self.output_fold_factor as u64) * (iff as u64) + (off as u64);
                proof {
                    lemma_mul_succ(ws as int, slot as int);
                    lemma_mul_mono(ws as int, slot as int, slot as int + 1);
                }
                let beg: u64 = ws * slot;
                let end: u64 = beg + ws;
                Ok(vstd::slice::slice_subrange(w.as_slice(), beg as usize, end as usize))
            },
            None => Err(YoloError::BufferNotReady),
        }
    }

    /// The input slice of input fold `iff`: `input_size` elements at
    /// offset `input_size * iff`.
    ///
    /// Fails with `BufferNotReady` exactly when no inputs are wired.
    pub fn get_inputs(&self, iff: u32) -> (r: Result<&[i16], YoloError>)
        requires
            self.wf(),
            self.inputs is Some ==> self.input_size * (iff + 1) <= self.inputs->0@.len(),
        ensures
            r is Err <==> self.inputs is None,
            r is Err ==> r->Err_0 == YoloError::BufferNotReady,
            r is Ok ==> r->Ok_0@ == self.inputs->0@.subrange(
                self.input_size * iff,
                self.input_size * iff + self.input_size,
            ),
    {
        match &self.inputs {
            Some(i) => {
                let ilen: usize = i.len();
                proof {
                    lemma_mul_le_le(self.input_size as int, iff as int, u32::MAX as int,
                        u32::MAX as int);
                    lemma_mul_succ(self.input_size as int, iff as int);
                }
                let data_beg: u64 = (self.input_size as u64) * (iff as u64);
                let data_end: u64 = data_beg + (self.input_size as u64);
                Ok(vstd::slice::slice_subrange(i.as_slice(), data_beg as usize, data_end as usize))
            },
            None => Err(YoloError::BufferNotReady),
        }
    }

    /// The bias slice of output fold `off`: `output_ch` elements at
    /// offset `output_ch * off`.
    ///
    /// Fails with `BufferNotReady` exactly when no biases are loaded.
    pub fn get_biases(&self, off: u32) -> (r: Result<&[i16], YoloError>)
        requires
            self.wf(),
            self.biases is Some ==> self.output_ch * (off + 1) <= self.biases->0@.len(),
        ensures
            r is Err <==> self.biases is None,
            r is Err ==> r->Err_0 == YoloError::BufferNotReady,
            r is Ok ==> r->Ok_0@ == self.biases->0@.subrange(
                self.output_ch * off,
                self.output_ch * off + self.output_ch,
            ),
    {
        match &self.biases {
            Some(b) => {
                let blen: usize = b.len();
                proof {
                    lemma_mul_le_le(self.output_ch as int, off as int, u32::MAX as int,
                        u32::MAX as int);
                    lemma_mul_succ(self.output_ch as int, off as int);
                }
                let data_beg: u64 = (self.output_ch as u64) * (off as u64);
                let data_end: u64 = data_beg + (self.output_ch as u64);
                Ok(vstd::slice::slice_subrange(b.as_slice(), data_beg as usize, data_end as usize))
            },
            None => Err(YoloError::BufferNotReady),
        }
    }

    /// Stores the output of output fold `off`, so that the data lands
    /// at offset `output_size * off`.
    ///
    /// Folds arrive in ascending order, so an existing output buffer
    /// holds exactly the `off` earlier folds and the new data is
    /// appended at its offset; a first store at a non-zero fold gets a
    /// zero prefix of `output_size * off` elements.
    pub fn set_outputs(&mut self, off: u32, output: Vec<i16>)
        requires
            old(self).wf(),
            old(self).output_size * off <= usize::MAX,
            old(self).outputs is Some ==> old(self).outputs->0@.len() == old(self).output_size
                * off,
        ensures
            final(self).outputs is Some,
            old(self).outputs is Some ==> final(self).outputs->0@ == old(self).outputs->0@
                + output@,
            old(self).outputs is None && off == 0 ==> final(self).outputs->0@ == output@,
            old(self).outputs is None && off > 0 ==> final(self).outputs->0@ == (Seq::new(
                (old(self).output_size * off) as nat,
                |i: int| 0i16,
            ) + output@),
            *final(self) == (LayerGroup { outputs: final(self).outputs, ..*old(self) }),
    {
        match &mut self.outputs {
            Some(o) => {
                let mut tail: Vec<i16> = output;
                o.append(&mut tail);
            },
            None => {
                if off == 0 {
                    self.outputs = Some(output);
                } else {
                    proof {
                        lemma_mul_le_le(self.output_size as int, off as int, u32::MAX as int,
                            u32::MAX as int);
                    }
                    let n: usize = ((self.output_size as u64) * (off as u64)) as usize;
                    let mut new_output: Vec<i16> = zero_vec(n);
                    let mut tail: Vec<i16> = output;
                    new_output.append(&mut tail);
                    self.outputs = Some(new_output);
                }
            },
        }
    }
}

/// A vector of `n` zero samples.
pub fn zero_vec(n: usize) -> (r: Vec<i16>)
    ensures
        r@ == (Seq::new(n as nat, |i: int| 0i16)),
{
    let mut v: Vec<i16> = Vec::new();
    let mut k: usize = 0;
    while k < n
        invariant
            k <= n,
            v@ == (Seq::new(k as nat, |i: int| 0i16)),
        decreases n - k,
    {
        v.push(0);
        proof {
            assert(v@ =~= Seq::new((k + 1) as nat, |i: int| 0i16));
        }
        k = k + 1;
    }
    v
}

} // verus!

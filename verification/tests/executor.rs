//! The scheduler and topology executor against mock hardware.

use std::cell::Cell;
use std::cell::RefCell;

use yolo_fpga::controller::YoloController;
use yolo_fpga::errors::YoloError;
use yolo_fpga::hw::{DmaChannel, HwUnit, StreamSwitch};
use yolo_fpga::layer_group::{Activation, LayerGroup, PostProcess};
use yolo_fpga::topology::tiny_yolo_layer_groups;

struct MockUnit {
    sets: RefCell<Vec<(String, u32)>>,
    starts: Cell<u32>,
}

impl MockUnit {
    fn new() -> MockUnit {
        MockUnit { sets: RefCell::new(Vec::new()), starts: Cell::new(0) }
    }
}

impl HwUnit for MockUnit {
    fn set(&self, name: &str, value: u32) {
        self.sets.borrow_mut().push((name.to_string(), value));
    }

    fn start(&self) {
        self.starts.set(self.starts.get() + 1);
    }

    fn is_done(&self) -> bool {
        true
    }
}

struct MockSwitch;

impl StreamSwitch for MockSwitch {
    fn reg_update_disable(&self) {
    }

    fn reg_update_enable(&self) {
    }

    fn disable_all_mi_ports(&self) {
    }

    fn enable_mi_port(&self, _mi: u8, _si: u8) {
    }
}

struct MockDma {
    written: usize,
    fail_writes: bool,
}

impl DmaChannel for MockDma {
    fn start(&self) {
    }

    fn stop(&self) {
    }

    fn write(&mut self, data: &[i16]) -> Result<(), YoloError> {
        if self.fail_writes {
            return Err(YoloError::DmaError);
        }
        self.written += data.len();
        Ok(())
    }

    fn read(&mut self, count: usize) -> Result<Vec<i16>, YoloError> {
        Ok(vec![0i16; count])
    }

    fn is_mm2s_idle(&mut self) -> Result<bool, YoloError> {
        Ok(true)
    }
}

fn make_controller(fail_writes: bool) -> YoloController<MockSwitch, MockDma, MockUnit> {
    YoloController::new(
        MockSwitch,
        MockSwitch,
        MockSwitch,
        MockDma { written: 0, fail_writes },
        MockDma { written: 0, fail_writes },
        MockUnit::new(),
        MockUnit::new(),
        MockUnit::new(),
        MockUnit::new(),
        MockUnit::new(),
        16,
    )
}

fn load_zero_parameters(groups: &mut Vec<LayerGroup>) {
    for g in groups.iter_mut() {
        if !g.conv_disable {
            let ws = 12 * g.input_ch as usize * g.output_ch as usize;
            let total = ws * g.output_fold_factor as usize * g.input_fold_factor as usize;
            g.weights = Some(vec![0i16; total]);
            g.biases = Some(vec![0i16; g.output_ch as usize * g.output_fold_factor as usize]);
        }
    }
}

#[test]
fn one_stage_produces_all_its_output_folds() {
    let mut c = make_controller(false);
    let mut g = LayerGroup::new(4, 4, 8, 2, 2, 2, 8, 2, false, Activation::Leaky, PostProcess::MaxPool, 2);
    // input_size = 4*4*2*4 = 128; two input folds.
    g.inputs = Some(vec![1i16; 128 * 2]);
    g.weights = Some(vec![0i16; 12 * 8 * 8 * 2 * 2]);
    g.biases = Some(vec![0i16; 8 * 2]);
    c.layer_groups.push(g);
    c.start_layer_processing(0).unwrap();
    let out = c.layer_groups[0].outputs.as_ref().unwrap();
    // output_size = 2*2*2*4 = 32, two output folds.
    assert_eq!(out.len(), 64);
}

#[test]
fn a_lost_transfer_aborts_the_whole_group() {
    let mut c = make_controller(true);
    let mut g = LayerGroup::new(4, 4, 8, 2, 2, 2, 8, 2, false, Activation::Leaky, PostProcess::MaxPool, 2);
    g.inputs = Some(vec![1i16; 128 * 2]);
    g.weights = Some(vec![0i16; 12 * 8 * 8 * 2 * 2]);
    g.biases = Some(vec![0i16; 8 * 2]);
    c.layer_groups.push(g);
    assert_eq!(c.start_layer_processing(0).unwrap_err(), YoloError::DmaError);
}

struct NeverDoneUnit;

impl HwUnit for NeverDoneUnit {
    fn set(&self, _name: &str, _value: u32) {
    }

    fn start(&self) {
    }

    fn is_done(&self) -> bool {
        false
    }
}

#[test]
fn an_exhausted_completion_poll_aborts_instead_of_spinning() {
    let mut c: YoloController<MockSwitch, MockDma, NeverDoneUnit> = YoloController::new(
        MockSwitch,
        MockSwitch,
        MockSwitch,
        MockDma { written: 0, fail_writes: false },
        MockDma { written: 0, fail_writes: false },
        NeverDoneUnit,
        NeverDoneUnit,
        NeverDoneUnit,
        NeverDoneUnit,
        NeverDoneUnit,
        8,
    );
    let mut g = LayerGroup::new(4, 4, 4, 1, 2, 2, 4, 1, false, Activation::Leaky, PostProcess::NoOp, 2);
    g.inputs = Some(vec![0i16; 64]);
    g.weights = Some(vec![0i16; 12 * 4 * 4]);
    g.biases = Some(vec![0i16; 4]);
    c.layer_groups.push(g);
    assert_eq!(c.start_layer_processing(0).unwrap_err(), YoloError::DmaError);
}

#[test]
fn the_executor_fills_both_output_scales_from_a_zero_input() {
    // An all-zero input through all 14 stages still fills every buffer.
    let mut c = make_controller(false);
    let mut groups = tiny_yolo_layer_groups();
    load_zero_parameters(&mut groups);
    c.layer_groups = groups;
    let input = vec![0i16; 692224];
    let (out10, out13) = c.start_processing(&input).unwrap();
    assert_eq!(out10.len(), 43264);
    assert_eq!(out13.len(), 173056);
    // Stage 12 read stage 11's output followed by stage 4's retained
    // output.
    let in12 = c.layer_groups[12].inputs.as_ref().unwrap();
    assert_eq!(in12.len(), 86528 + 173056);
    for g in c.layer_groups.iter() {
        assert!(g.outputs.is_none());
    }
    c.stop_dmas();
}

#[test]
fn the_executor_can_run_a_second_pass() {
    let mut c = make_controller(false);
    let mut groups = tiny_yolo_layer_groups();
    load_zero_parameters(&mut groups);
    c.layer_groups = groups;
    let input = vec![0i16; 692224];
    let first = c.start_processing(&input).unwrap();
    let second = c.start_processing(&input).unwrap();
    assert_eq!(first.0.len(), second.0.len());
    assert_eq!(first.1.len(), second.1.len());
}

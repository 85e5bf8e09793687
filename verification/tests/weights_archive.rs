//! Loading weights and biases from a gzip-compressed tar archive.

use std::io::Write;

use yolo_fpga::archive::{bytes_to_i16, file_name_of, load_entries};
use yolo_fpga::controller::YoloController;
use yolo_fpga::errors::YoloError;
use yolo_fpga::hw::{DmaChannel, HwUnit, StreamSwitch};
use yolo_fpga::topology::tiny_yolo_layer_groups;

struct NopUnit;

impl HwUnit for NopUnit {
    fn set(&self, _name: &str, _value: u32) {
    }

    fn start(&self) {
    }

    fn is_done(&self) -> bool {
        true
    }
}

struct NopSwitch;

impl StreamSwitch for NopSwitch {
    fn reg_update_disable(&self) {
    }

    fn reg_update_enable(&self) {
    }

    fn disable_all_mi_ports(&self) {
    }

    fn enable_mi_port(&self, _mi: u8, _si: u8) {
    }
}

struct NopDma;

impl DmaChannel for NopDma {
    fn start(&self) {
    }

    fn stop(&self) {
    }

    fn write(&mut self, _data: &[i16]) -> Result<(), YoloError> {
        Ok(())
    }

    fn read(&mut self, count: usize) -> Result<Vec<i16>, YoloError> {
        Ok(vec![0i16; count])
    }

    fn is_mm2s_idle(&mut self) -> Result<bool, YoloError> {
        Ok(true)
    }
}

fn controller() -> YoloController<NopSwitch, NopDma, NopUnit> {
    let mut c = YoloController::new(
        NopSwitch,
        NopSwitch,
        NopSwitch,
        NopDma,
        NopDma,
        NopUnit,
        NopUnit,
        NopUnit,
        NopUnit,
        NopUnit,
        4,
    );
    c.layer_groups = tiny_yolo_layer_groups();
    c
}

fn targz(entries: &[(&str, &[u8])]) -> Vec<u8> {
    let mut builder = tar::Builder::new(Vec::new());
    for &(name, data) in entries {
        let mut header = tar::Header::new_gnu();
        header.set_size(data.len() as u64);
        header.set_cksum();
        builder.append_data(&mut header, name, data).unwrap();
    }
    let tar_bytes = builder.into_inner().unwrap();
    let mut enc = flate2::write::GzEncoder::new(Vec::new(), flate2::Compression::default());
    enc.write_all(&tar_bytes).unwrap();
    enc.finish().unwrap()
}

#[test]
fn named_entries_land_in_their_stages() {
    let mut c = controller();
    let bytes = targz(&[
        ("weights3", &[1, 0, 255, 255]),
        ("biases3", &[0, 1]),
        ("._resource", &[9, 9]),
        ("notes.txt", &[1, 2, 3, 4]),
    ]);
    c.read_weights_and_biases(&bytes).unwrap();
    assert_eq!(c.layer_groups[3].weights.as_ref().unwrap().as_slice(), &[1, -1]);
    assert_eq!(c.layer_groups[3].biases.as_ref().unwrap().as_slice(), &[256]);
    assert!(c.layer_groups[0].weights.is_none());
    assert!(c.layer_groups[2].biases.is_none());
}

#[test]
fn nested_paths_use_their_base_name() {
    let mut c = controller();
    let bytes = targz(&[("model/params/weights7", &[2, 0])]);
    c.read_weights_and_biases(&bytes).unwrap();
    assert_eq!(c.layer_groups[7].weights.as_ref().unwrap().as_slice(), &[2]);
}

#[test]
fn malformed_digits_abort_loading() {
    let mut c = controller();
    let bytes = targz(&[("weightsX", &[0, 0])]);
    assert_eq!(c.read_weights_and_biases(&bytes).unwrap_err(), YoloError::ConfigError);
}

#[test]
fn an_out_of_range_stage_index_aborts_loading() {
    let mut c = controller();
    let bytes = targz(&[("biases14", &[0, 0])]);
    assert_eq!(c.read_weights_and_biases(&bytes).unwrap_err(), YoloError::ConfigError);
}

#[test]
fn an_odd_byte_count_aborts_loading() {
    let mut c = controller();
    let bytes = targz(&[("weights0", &[1, 2, 3])]);
    assert_eq!(c.read_weights_and_biases(&bytes).unwrap_err(), YoloError::ConfigError);
}

#[test]
fn corrupt_streams_fail_with_config_error() {
    let mut c = controller();
    assert_eq!(
        c.read_weights_and_biases(&[31, 139, 8, 0, 1, 2, 3]).unwrap_err(),
        YoloError::ConfigError
    );
}

#[test]
fn later_entries_override_earlier_ones() {
    let mut groups = tiny_yolo_layer_groups();
    let entries: Vec<(Vec<u8>, Vec<u8>)> = vec![
        (b"weights5".to_vec(), vec![1, 0]),
        (b"weights5".to_vec(), vec![2, 0]),
    ];
    load_entries(&mut groups, &entries).unwrap();
    assert_eq!(groups[5].weights.as_ref().unwrap().as_slice(), &[2]);
}

#[test]
fn little_endian_pairs_decode_as_signed_samples() {
    let data: Vec<u8> = vec![0, 0, 1, 0, 0, 1, 255, 127, 0, 128];
    assert_eq!(bytes_to_i16(&data).as_slice(), &[0, 1, 256, 32767, -32768]);
}

#[test]
fn base_names_drop_directories_and_trailing_separators() {
    assert_eq!(file_name_of(&b"weights1".to_vec()).as_slice(), b"weights1");
    assert_eq!(file_name_of(&b"a/b/weights1".to_vec()).as_slice(), b"weights1");
    assert_eq!(file_name_of(&b"a/b/".to_vec()).as_slice(), b"b");
    assert_eq!(file_name_of(&b"///".to_vec()).as_slice(), b"");
}

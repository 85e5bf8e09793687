//! Host-side controller for a fixed-function tiny-YOLO-v3 accelerator.
//!
//! The library models the accelerator's layer groups, drives the
//! channel-folded streaming protocol and the fixed 14-stage topology
//! through abstract hardware ports, loads weights from a compressed
//! archive, and decodes the accelerator's Q8.8 fixed-point output into
//! bounding boxes with greedy non-maximum suppression and a reverse
//! coordinate transform.  All coordinates and confidences are carried
//! as Q16.16 integers; the only floating-point step of the pipeline,
//! the exponential box-size transform, enters as a caller-supplied
//! value.

pub mod archive;
pub mod arith;
pub mod controller;
pub mod decode;
pub mod detection;
pub mod errors;
pub mod fixed;
pub mod hw;
pub mod layer_group;
pub mod nms;
pub mod postprocess;
pub mod topology;

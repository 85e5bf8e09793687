//! Error kinds of the controller.

use vstd::prelude::*;

verus! {

/// Failure kinds of construction, streaming and decoding.
#[derive(Clone, Copy, Debug, PartialEq, Eq, Structural)]
pub enum YoloError {
    /// A hardware-description or archive lookup failed at construction.
    ConfigError,
    /// A weight, bias or input buffer was read before it was populated.
    BufferNotReady,
    /// A DMA transfer failed or a completion flag never came; the current
    /// forward pass is lost and the controller must be reconstructed.
    DmaError,
    /// A decoded box fell outside the model's coordinate range; the box is
    /// dropped and the pass continues.
    OutOfRangeDetection,
    /// An expected intermediate buffer was absent after a stage.
    TopologyError,
}

impl YoloError {
    /// A short description, for callers that print errors.
    pub fn describe(&self) -> &'static str {
        match self {
            YoloError::ConfigError => "hardware description lookup failed",
            YoloError::BufferNotReady => "buffer accessed before population",
            YoloError::DmaError => "DMA transfer failed",
            YoloError::OutOfRangeDetection => "detection out of coordinate range",
            YoloError::TopologyError => "intermediate buffer missing after stage",
        }
    }
}

} // verus!

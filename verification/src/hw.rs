//! Abstract ports of the accelerator's register interface.
//!
//! The controller is generic over these three port shapes, so any
//! backend that implements them — memory-mapped hardware, a simulator,
//! or a mock — is substitutable.  The methods are blocking calls into
//! hardware and promise nothing: every completion flag is polled with
//! a bound, and the length of every DMA read is checked by the
//! controller, so no proof rests on how a port behaves.

use vstd::prelude::*;

use crate::errors::YoloError;

verus! {

/// A processing unit with named configuration registers, a start
/// trigger, and a done flag that is polled after a pass.
pub trait HwUnit {
    /// Writes the configuration register called `name`.
    fn set(&self, name: &str, value: u32);

    /// Starts one processing pass; data sent afterwards is consumed.
    fn start(&self);

    /// Polls the unit's done flag.  The flag is owned by hardware, so
    /// nothing is promised of its value; an implementation may sleep
    /// between polls.
    fn is_done(&self) -> bool;
}

/// An AXI4-Stream switch that routes one unit's stream to another.
pub trait StreamSwitch {
    /// Holds routing updates back while ports are being rewired.
    fn reg_update_disable(&self);

    /// Commits the rewired routing.
    fn reg_update_enable(&self);

    /// Detaches every master port before rewiring.
    fn disable_all_mi_ports(&self);

    /// Routes slave port `si` to master port `mi`.
    fn enable_mi_port(&self, mi: u8, si: u8);
}

/// A DMA engine with a memory-to-stream and a stream-to-memory channel.
pub trait DmaChannel {
    /// Brings the engine up; called once at construction.
    fn start(&self);

    /// Halts the engine; called at teardown whatever the exit path.
    fn stop(&self);

    /// Streams `data` to the hardware.  A failure loses the current
    /// forward pass.
    fn write(&mut self, data: &[i16]) -> Result<(), YoloError>;

    /// Reads back `count` samples.  The controller checks the length
    /// of what actually arrives, so nothing is assumed of it here.
    fn read(&mut self, count: usize) -> Result<Vec<i16>, YoloError>;

    /// Polls whether the memory-to-stream side has drained.  The flag
    /// is owned by hardware, so nothing is promised of its value; an
    /// implementation may sleep between polls.
    fn is_mm2s_idle(&mut self) -> Result<bool, YoloError>;
}

} // verus!

//! Host-side runtime model for a reconfigurable hardware accelerator.
//!
//! The library arbitrates access to an FPGA fabric that hosts multiple
//! instances of multiple processing-element (PE) types.  It models the
//! device access-mode state machine and its ordering contract with the
//! kernel driver, the per-region memory subsystem (an allocator paired
//! with a transport strategy, selected by hardware class), and the PE
//! scheduler's acquisition/release protocol.
//!
//! All operating-system interaction (opening device files, memory
//! mapping, driver requests) is performed by the surrounding process:
//! the library computes every decision and hands the driver requests
//! out as [`access::DriverCommand`] values.

use vstd::prelude::*;

pub mod access;
pub mod allocator;
pub mod device;
pub mod job;
pub mod scheduler;
pub mod status;
pub mod transport;

verus! {

/// Identifier of one physical or virtual accelerator device.
pub type DeviceId = u32;

/// Identifier of a processing-element *type* (not of an instance).
pub type PEId = usize;

/// Generic type for an address on the device.
pub type DeviceAddress = u64;

/// Generic type to specify the size of a memory segment on the device.
pub type DeviceSize = u64;

} // verus!

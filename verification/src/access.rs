//! The device access-mode state machine and its ordering contract with
//! the kernel driver.
//!
//! Moving to a new mode first tears down the current mode in the driver
//! (unless the device is still inactive) and only then requests the new
//! mode; there is no direct inactive-to-exclusive shortcut at the driver
//! level.  The library plans these driver requests; the surrounding
//! process issues them on the device's control file.

use vstd::prelude::*;

verus! {

/// The kernel driver's coarse permission level for one device.
///
/// `Inactive` is the unacquired baseline, `Monitor` permits read-only
/// introspection, and `Exclusive` is required for PE acquisition.
#[derive(Clone, Copy, Debug, PartialEq, Eq, Structural)]
pub enum AccessMode {
    /// No access mode is currently held in the driver.
    Inactive,
    /// Read-only introspection of the device.
    Monitor,
    /// Sole control of scheduling and interrupts.
    Exclusive,
}

/// One request to the kernel driver's mode interface, issued on the
/// device's control file by the surrounding process.
#[derive(Clone, Copy, Debug, PartialEq, Eq, Structural)]
pub enum DriverCommand {
    /// Tear down the given access mode.
    Destroy { mode: AccessMode },
    /// Request the given access mode.
    Create { mode: AccessMode },
}

/// The driver requests that a transition from `cur` to `target` issues,
/// in order.  A transition to the mode already held issues none; every
/// other transition first tears down the current mode (if any) and then
/// requests the new one.
pub open spec fn transition_commands(cur: AccessMode, target: AccessMode) -> Seq<DriverCommand> {
    if cur == target {
        Seq::empty()
    } else if cur == AccessMode::Inactive {
        seq![DriverCommand::Create { mode: target }]
    } else {
        seq![
            DriverCommand::Destroy { mode: cur },
            DriverCommand::Create { mode: target },
        ]
    }
}

/// The access mode held after a transition to `target` completes.
pub open spec fn mode_after_transition(target: AccessMode) -> AccessMode {
    target
}

/// Law: changing the access mode is idempotent.  After a transition to
/// `target`, a second transition to the same `target` issues no driver
/// request and leaves the mode unchanged.
pub proof fn lemma_transition_idempotent(cur: AccessMode, target: AccessMode)
    ensures
        transition_commands(mode_after_transition(target), target) == Seq::<DriverCommand>::empty(),
        mode_after_transition(target) == target,
{
}

} // verus!

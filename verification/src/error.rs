//! What can go wrong, per subsystem and for a whole call.

use vstd::prelude::*;
use crate::kinds::Controllers;

verus! {

/// The failure of one subsystem's part of an operation.
#[derive(Clone, Copy, Debug, PartialEq, Eq, Structural, Hash)]
pub enum ControllerError {
    /// The directive cannot be expressed on the running kernel.
    Unsupported,
    /// The subsystem's hierarchy or directory is absent.
    NotMounted,
    /// The caller may not change the control file.
    PermissionDenied,
    /// A numeric field lies outside the range that the subsystem accepts.
    InvalidValue,
    /// Any other failure of a read or write.
    Io,
}

/// The failure of a call on a control group.
#[derive(Clone, Debug, PartialEq, Eq)]
pub enum CgroupError {
    /// None of the requested subsystems could be used.
    NoControllersAvailable,
    /// The group was deleted before the call.
    AlreadyDeleted,
    /// The named subsystem still has member processes.
    Busy(Controllers),
    /// The subsystems that failed, each with its error, in the order in which
    /// the group registered them.
    Failed(Vec<(Controllers, ControllerError)>),
}

} // verus!

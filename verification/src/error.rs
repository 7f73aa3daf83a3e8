//! Structured error kinds.

use vstd::prelude::*;
use crate::scalar::ScalarType;

verus! {

/// Names one device: its position in the enumeration and the identifier of its engine.
#[derive(Clone, Copy, Debug, PartialEq, Eq, Structural)]
pub struct DeviceId {
    pub index: usize,
    pub handle: u64,
}

/// The device has entered the lost state. Terminal for its engine.
#[derive(Clone, Copy, Debug, PartialEq, Eq, Structural)]
pub struct DeviceLost {
    pub index: usize,
    pub handle: u64,
}

/// Why a kernel could not be specialized.
#[derive(Clone, Copy, Debug, PartialEq, Eq, Structural)]
pub enum SpecializationError {
    /// A constant that sets the workgroup size along `dim` is zero.
    ZeroThreads { dim: usize },
    /// The kernel declares constants and none were given.
    NotSpecialized,
    /// The bytecode is not a module that can be loaded.
    InvalidBytecode,
    /// The constant at this position among the module's globals does not have
    /// literals of as many words as the value has.
    LiteralMismatch { position: usize },
}

/// Why an argument cannot be bound.
#[derive(Clone, Copy, Debug, PartialEq, Eq, Structural)]
pub enum BindingMismatch {
    /// A kernel was built for the host.
    KernelOnHost,
    /// The slice at this binding lives in host memory.
    SliceOnHost { binding: usize },
    /// The slice at this binding belongs to another device than the kernel.
    Device { binding: usize, expected: DeviceId, found: DeviceId },
    /// The slice at this binding starts or ends beyond what 32 bits count,
    /// in elements.
    Range { binding: usize },
    /// The slice at this binding is not of the kind that the kernel declares.
    ScalarType { binding: usize, declared: ScalarType, given: ScalarType },
    /// The kernel writes this binding, and the slice cannot be written.
    Mutability { binding: usize },
    /// The push constant at this position is not of the kind that the
    /// kernel declares.
    PushType { index: usize, declared: ScalarType, given: ScalarType },
    /// The buffer is not a buffer of the device that was asked for it.
    Buffer { expected: DeviceId, found: DeviceId },
    /// The dispatch was assembled for another device.
    Command { expected: DeviceId, found: DeviceId },
}

/// Why the dispatch extent cannot be determined.
#[derive(Clone, Copy, Debug, PartialEq, Eq, Structural)]
pub enum ExtentError {
    /// The extent would follow from the item slices, but the workgroup is not
    /// one-dimensional.
    ThreadsNotLinear,
    /// Neither groups nor global threads were given, and no slice is an item slice.
    NotProvided,
}

#[derive(Clone, Copy, Debug, PartialEq, Eq, Structural)]
pub enum Error {
    DeviceUnavailable,
    DeviceIndexOutOfRange { index: usize, devices: usize },
    DeviceNotSupported,
    DeviceLost(DeviceLost),
    ArtifactDecode,
    Specialization(SpecializationError),
    BindingMismatch(BindingMismatch),
    ExtentUnspecified(ExtentError),
    InvalidLength { expected: usize, found: usize },
    AllocationFailed,
}

/// The letter of a workgroup dimension.
pub open spec fn spec_dim_letter(dim: usize) -> char {
    if dim == 0 {
        'x'
    } else if dim == 1 {
        'y'
    } else {
        'z'
    }
}

pub fn dim_letter(dim: usize) -> (r: char)
    requires
        dim < 3,
    ensures
        r == spec_dim_letter(dim),
{
    if dim == 0 {
        'x'
    } else if dim == 1 {
        'y'
    } else {
        'z'
    }
}

impl DeviceLost {
    pub fn index(&self) -> (r: usize)
        ensures
            r == self.index,
    {
        self.index
    }

    pub fn handle(&self) -> (r: u64)
        ensures
            r == self.handle,
    {
        self.handle
    }
}

} // verus!

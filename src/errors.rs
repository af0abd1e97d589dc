//! What can go wrong while planning a build, a bundle or a transport step.
use vstd::prelude::*;

verus! {

/// The kinds of failure, each with a description of what was being attempted.
#[derive(Clone, Debug)]
pub enum DinghyError {
    /// A toolchain directory holds no compiler, or no sysroot.
    ToolchainMalformed(String),
    /// A transport step ended with a non-zero status.
    TransportFailure(String),
    /// No device can run what the platform builds.
    CompatibilityMismatch(String),
    /// The device does not offer this operation.
    UnsupportedOperation(String),
    /// A path that should name a file does not.
    InvalidPath(String),
    /// A file name yields no library name.
    InvalidLibName(String),
    /// An Android architecture without a known default API level.
    UnknownArch(String),
    /// A platform is configured without what it needs.
    Configuration(String),
}

} // verus!

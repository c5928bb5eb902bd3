use vstd::prelude::*;

verus! {

/// Errors reported by the library.
#[derive(Debug, PartialEq, Eq)]
pub enum NativeExtensionsError {
    /// A descriptor or dropped-file blob is structurally malformed.
    InvalidData,
    /// Acquiring or copying a virtual file failed (including cancellation).
    VirtualFileReceiveError(String),
    /// The provider failed with an unexpected status code.
    WindowsError(i32),
    /// Any other failure, such as a missing delegate.
    OtherError(String),
}

pub type NativeExtensionsResult<T> = Result<T, NativeExtensionsError>;

} // verus!

//! Return codes, labels and object types of capability invocations.

use vstd::prelude::*;

verus! {

/// Return value placed in `a0` when an invocation completes successfully.
pub const OK: isize = 0;

/// The target capability type does not support invocation.
pub const ERR_UNSUPPORTED_CAP: usize = usize::MAX;

/// The capability lookup did not resolve.
pub const ERR_LOOKUP: usize = usize::MAX - 1;

/// The label is unknown for the selected capability.
pub const ERR_UNSUPPORTED_LABEL: usize = usize::MAX - 2;

/// The requested object type is not supported.
pub const ERR_UNSUPPORTED_OBJECT: usize = usize::MAX - 3;

/// The destination slot was invalid or already used.
pub const ERR_DESTINATION: usize = usize::MAX - 4;

/// The requested size is invalid or the untyped region lacks space.
pub const ERR_UNTYPED_SPACE: usize = usize::MAX - 5;

/// Untyped invocation label: retype part of the untyped into a new object.
pub const UNTYPED_RETYPE: usize = 1;

/// Object type: a frame.
pub const OBJECT_FRAME: usize = 1;

} // verus!

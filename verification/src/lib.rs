//! Client-side orchestration for a remote packet-marking (DSCP) configuration
//! service: parameter validation, target resolution, sequential fan-out over
//! dataplane instances, and rendering of collected results as a tree or as a
//! structured document.
use vstd::prelude::*;

pub mod fanout;
pub mod numfmt;
pub mod resolve;
pub mod roundtrip;
pub mod structured;
pub mod tree;
pub mod types;

verus! {

/// Reasons a command is rejected before any request is issued.
#[derive(Debug, Clone, Copy, PartialEq, Eq, Structural)]
pub enum ValidationError {
    /// The marking flag is outside {0, 1, 2}.
    InvalidFlag,
    /// The mark value does not fit in the 6-bit DSCP field.
    InvalidMark,
}

impl ValidationError {
    /// The human description of the rejection, as printed at the invocation
    /// boundary.
    pub fn message(&self) -> (r: String)
        ensures
            *self == ValidationError::InvalidFlag ==> r@ == "Invalid flag value (must be 0, 1, or 2)"@,
            *self == ValidationError::InvalidMark ==> r@ == "Invalid mark value (must be 0-63)"@,
    {
        match self {
            ValidationError::InvalidFlag => String::from_str("Invalid flag value (must be 0, 1, or 2)"),
            ValidationError::InvalidMark => String::from_str("Invalid mark value (must be 0-63)"),
        }
    }
}

/// A marking policy is well-formed when the flag is one of the three defined
/// conditions and the mark fits in 6 bits.
pub open spec fn marking_valid(flag: u32, mark: u32) -> bool {
    flag <= 2 && mark <= 63
}

/// Rejects out-of-range marking parameters before any instance is contacted.
/// An invalid flag is reported ahead of an invalid mark.
pub fn validate_marking(flag: u32, mark: u32) -> (r: Result<(), ValidationError>)
    ensures
        r is Ok <==> marking_valid(flag, mark),
        flag > 2 ==> r == Result::<(), ValidationError>::Err(ValidationError::InvalidFlag),
        flag <= 2 && mark > 63 ==> r == Result::<(), ValidationError>::Err(
            ValidationError::InvalidMark,
        ),
{
    if flag > 2 {
        Err(ValidationError::InvalidFlag)
    } else if mark > 63 {
        Err(ValidationError::InvalidMark)
    } else {
        Ok(())
    }
}

} // verus!

use vstd::prelude::*;

verus! {

/// Why a proof is refused without being checked.
#[derive(Clone, Copy, Debug, PartialEq, Eq, Structural)]
pub enum ContractError {
    /// The sizes do not fit, or a point is not valid.
    InvalidArgument,
    /// There are no public inputs, or one of them may not be used.
    InvalidPublicInputs,
}

} // verus!

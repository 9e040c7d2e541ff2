use vstd::prelude::*;

verus! {

/// Failure taxonomy of the record store. Every fallible operation of the
/// crate reports exactly one of these.
#[derive(Clone, Copy, Debug, PartialEq, Eq, Structural)]
pub enum AppError {
    /// Unknown instruction tag, truncated payload, or text that does not fit
    /// its field.
    InvalidInstruction,
    /// The record buffer is not owned by the expected program.
    IncorrectOwner,
    /// The acting identity is not the record's recorded creator.
    Unauthorized,
    /// A stored buffer fails the length or text validity checks of the codec.
    MalformedRecord,
}

} // verus!

use vstd::prelude::*;

verus! {

/// The failures a command or a persistence hook can report. A missing key
/// is not one of them: commands answer a null or a false reply for it.
#[derive(Clone, Copy, Debug, PartialEq, Eq)]
pub enum StatsError {
    /// A command argument does not parse as a finite number.
    InvalidArgument,
    /// The named key holds a value of a different registered type.
    TypeMismatch,
    /// A persisted blob cannot be decoded back into a summary.
    CorruptPersistedValue,
}

} // verus!

use vstd::prelude::*;

verus! {

/// Why a generator returned no area.
#[derive(Clone, Copy, Debug, PartialEq, Eq, Structural)]
pub enum GenerationError {
    /// A width or height that is not positive, or a coordinate that does not
    /// fit the grid's integer range.
    InvalidDimensions,
    /// A room size that no partition of the area can hold, or a negative
    /// depth limit.
    InvalidParameters,
    /// The partition held no room.
    NoRoomsProduced,
}

impl GenerationError {
    /// The text shown for each error.
    pub open spec fn spec_message(self) -> Seq<char> {
        match self {
            GenerationError::InvalidDimensions => "invalid dimensions"@,
            GenerationError::InvalidParameters => "invalid parameters"@,
            GenerationError::NoRoomsProduced => "no rooms produced"@,
        }
    }

    /// A short description of the error.
    pub fn message(&self) -> (text: &'static str)
        ensures
            text@ == self.spec_message(),
    {
        match self {
            GenerationError::InvalidDimensions => "invalid dimensions",
            GenerationError::InvalidParameters => "invalid parameters",
            GenerationError::NoRoomsProduced => "no rooms produced",
        }
    }
}

} // verus!

//! The errors of the library.

use vstd::prelude::*;
use vstd::string::StringExecFns;

verus! {

/// What went wrong.
#[derive(Clone, Copy, Debug, PartialEq, Eq, Structural)]
pub enum Error {
    /// The number of cores does not suit the layout strategy.
    Configuration,
    /// A required area is missing from the table of estimates.
    Lookup,
    /// There is nothing to render.
    Precondition,
    /// The name of the output format is not known.
    FormatSelection,
}

impl Error {
    /// The description of the error, as a sequence of characters.
    pub open spec fn text(self) -> Seq<char> {
        match self {
            Error::Configuration => "the number of cores should be a multiple of 4"@,
            Error::Lookup => "failed to find a required value in the table"@,
            Error::Precondition => "no elements to render"@,
            Error::FormatSelection => "the output format is unknown"@,
        }
    }

    /// Describe the error.
    pub fn message(&self) -> (s: String)
        ensures
            s@ == self.text(),
    {
        match self {
            Error::Configuration => String::from_str(
                "the number of cores should be a multiple of 4",
            ),
            Error::Lookup => String::from_str("failed to find a required value in the table"),
            Error::Precondition => String::from_str("no elements to render"),
            Error::FormatSelection => String::from_str("the output format is unknown"),
        }
    }
}

} // verus!

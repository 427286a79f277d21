//! Why reading a text or building a scene failed.
use vstd::prelude::*;
use vstd::string::StringExecFns;

verus! {

/// The ways in which reading a model or building its scene fails.
#[derive(Clone, Copy, Debug, PartialEq, Eq, Structural)]
pub enum ParseError {
    /// A word that had to be a number is none.
    Fetch,
    /// A corner of a face has more than three parts.
    FaceShape,
    /// Neither the material asked for nor the fallback is defined.
    MaterialNotFound,
    /// An index points outside of what it indexes.
    IndexOutOfRange,
    /// A directive that needs a name has none.
    MissingName,
}

impl ParseError {
    /// What the error says.
    pub open spec fn text(self) -> Seq<char> {
        match self {
            ParseError::Fetch => "Fetch error"@,
            ParseError::FaceShape => "Error while parsing face"@,
            ParseError::MaterialNotFound => "The material doesn't exist"@,
            ParseError::IndexOutOfRange => "Index out of range"@,
            ParseError::MissingName => "Can't parse groups."@,
        }
    }

    /// What the error says.
    pub fn message(&self) -> (out: String)
        ensures
            out@ == self.text(),
    {
        match self {
            ParseError::Fetch => String::from_str("Fetch error"),
            ParseError::FaceShape => String::from_str("Error while parsing face"),
            ParseError::MaterialNotFound => String::from_str("The material doesn't exist"),
            ParseError::IndexOutOfRange => String::from_str("Index out of range"),
            ParseError::MissingName => String::from_str("Can't parse groups."),
        }
    }
}

} // verus!

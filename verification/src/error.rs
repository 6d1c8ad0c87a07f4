//! Error values returned by coordinate construction and mesh-code decoding.

use vstd::prelude::*;
use vstd::string::StringExecFns;

verus! {

/// Which component of a coordinate an error refers to.
#[derive(Debug, Clone, Copy, PartialEq, Eq, Structural)]
pub enum CoordinateField {
    Latitude,
    Longitude,
}

/// A fixed-point component lies outside the interval allowed for it.
///
/// `value` is the offending component in units of 10^-7 degree, and
/// `min ..= max` is the interval it was required to lie in.
#[derive(Debug, Clone, Copy, PartialEq, Eq, Structural)]
pub struct OutOfRangeError {
    pub field: CoordinateField,
    pub value: i32,
    pub min: i32,
    pub max: i32,
}

impl OutOfRangeError {
    /// The text of the error.
    pub open spec fn message(&self) -> Seq<char> {
        match self.field {
            CoordinateField::Latitude => {
                "Invalid latitude: must be between -90 and 90 degrees in decimicro"@
            },
            CoordinateField::Longitude => {
                "Invalid longitude: must be between -180 and 180 degrees in decimicro"@
            },
        }
    }

    /// Renders the error as text.
    pub fn to_string(&self) -> (text: String)
        ensures
            text@ == self.message(),
    {
        match self.field {
            CoordinateField::Latitude => String::from_str(
                "Invalid latitude: must be between -90 and 90 degrees in decimicro",
            ),
            CoordinateField::Longitude => String::from_str(
                "Invalid longitude: must be between -180 and 180 degrees in decimicro",
            ),
        }
    }
}

/// One of the four digit groups of a second-level mesh code.
#[derive(Debug, Clone, Copy, PartialEq, Eq, Structural)]
pub enum MeshField {
    /// Characters 0 and 1: the first-level latitude index.
    FirstLatitude,
    /// Characters 2 and 3: the first-level longitude index.
    FirstLongitude,
    /// Character 4: the second-level latitude index.
    SecondLatitude,
    /// Character 5: the second-level longitude index.
    SecondLongitude,
}

/// Why a string is not a second-level mesh code.
#[derive(Debug, Clone, Copy, PartialEq, Eq, Structural)]
pub enum InvalidMeshCodeError {
    /// The string does not have exactly six characters.
    WrongLength,
    /// The named digit group holds a character that is not a digit.
    MalformedField(MeshField),
}

impl InvalidMeshCodeError {
    /// The text of the error.
    pub open spec fn message(&self) -> Seq<char> {
        match self {
            InvalidMeshCodeError::WrongLength => "Invalid mesh code: must be 6 digits long"@,
            InvalidMeshCodeError::MalformedField(MeshField::FirstLatitude) => {
                "Invalid latitude part"@
            },
            InvalidMeshCodeError::MalformedField(MeshField::FirstLongitude) => {
                "Invalid longitude part"@
            },
            InvalidMeshCodeError::MalformedField(MeshField::SecondLatitude) => {
                "Invalid latitude fraction"@
            },
            InvalidMeshCodeError::MalformedField(MeshField::SecondLongitude) => {
                "Invalid longitude fraction"@
            },
        }
    }

    /// Renders the error as text.
    pub fn to_string(&self) -> (text: String)
        ensures
            text@ == self.message(),
    {
        match self {
            InvalidMeshCodeError::WrongLength => String::from_str(
                "Invalid mesh code: must be 6 digits long",
            ),
            InvalidMeshCodeError::MalformedField(MeshField::FirstLatitude) => String::from_str(
                "Invalid latitude part",
            ),
            InvalidMeshCodeError::MalformedField(MeshField::FirstLongitude) => String::from_str(
                "Invalid longitude part",
            ),
            InvalidMeshCodeError::MalformedField(MeshField::SecondLatitude) => String::from_str(
                "Invalid latitude fraction",
            ),
            InvalidMeshCodeError::MalformedField(MeshField::SecondLongitude) => String::from_str(
                "Invalid longitude fraction",
            ),
        }
    }
}

/// Why decoding a mesh code failed: either the string is not a mesh code,
/// or a corner of the cell it names is not a valid coordinate.
#[derive(Debug, Clone, Copy, PartialEq, Eq, Structural)]
pub enum MeshDecodeError {
    InvalidMeshCode(InvalidMeshCodeError),
    OutOfRange(OutOfRangeError),
}

impl MeshDecodeError {
    /// The text of the error: that of the error it holds.
    pub open spec fn message(&self) -> Seq<char> {
        match self {
            MeshDecodeError::InvalidMeshCode(e) => e.message(),
            MeshDecodeError::OutOfRange(e) => e.message(),
        }
    }

    /// Renders the error as text.
    pub fn to_string(&self) -> (text: String)
        ensures
            text@ == self.message(),
    {
        match self {
            MeshDecodeError::InvalidMeshCode(e) => e.to_string(),
            MeshDecodeError::OutOfRange(e) => e.to_string(),
        }
    }
}

} // verus!

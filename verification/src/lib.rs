//! Fixed-point geographic coordinates and the second-level grid-square code
//! of the Japanese standard regional mesh.
//!
//! A coordinate stores latitude and longitude as integers in units of
//! 10^-7 degree. Every operation of this crate is integer arithmetic on
//! those units, so each result is exact and each contract is stated over
//! mathematical integers and sequences of characters.

pub mod base;
pub mod decimal;
pub mod error;
pub mod mesh;

pub use base::{from_second_mesh_code, GeoCoordinate, LatLon};
pub use error::{
    CoordinateField, InvalidMeshCodeError, MeshDecodeError, MeshField, OutOfRangeError,
};

//! The coordinate value type, its text, and its mesh code.

use vstd::prelude::*;
use vstd::string::{StrSliceExecFns, StringExecFns};
use crate::decimal::{
    all_digits, decimal_text, digit_value, fixed_width_text, push_decimal, push_fixed_width,
    push_signed, push_two_digit,
};
use crate::error::{
    CoordinateField, InvalidMeshCodeError, MeshDecodeError, MeshField, OutOfRangeError,
};
use crate::mesh::{
    decode_second_mesh, in_mesh_domain, latitude_at, lemma_cell_extent,
    lemma_decode_malformed_field, lemma_decode_six_characters, lemma_decode_six_digits,
    lemma_mesh_text_in_domain, longitude_at, parse_field, second_mesh_text, whole_and_eighths,
};

verus! {

/// Smallest latitude, -90 degrees, in units of 10^-7 degree.
pub const LAT_MIN: i32 = -900_000_000;

/// Largest latitude, +90 degrees, in units of 10^-7 degree.
pub const LAT_MAX: i32 = 900_000_000;

/// Smallest longitude, -180 degrees, in units of 10^-7 degree.
pub const LON_MIN: i32 = -1_800_000_000;

/// Largest longitude, +180 degrees, in units of 10^-7 degree.
pub const LON_MAX: i32 = 1_800_000_000;

/// The mathematical value of a coordinate: latitude and longitude as
/// unbounded integers in units of 10^-7 degree.
pub struct LatLon {
    pub lat: int,
    pub lon: int,
}

impl LatLon {
    /// Latitude within ±90 degrees and longitude within ±180 degrees.
    pub open spec fn in_range(self) -> bool {
        &&& LAT_MIN <= self.lat <= LAT_MAX
        &&& LON_MIN <= self.lon <= LON_MAX
    }
}

/// What validating the pair `(lat, lon)` yields: the point itself when both
/// components are in range, otherwise an error for the latitude if it is out
/// of range, and for the longitude if only that is.
pub open spec fn checked_point(lat: int, lon: int) -> Result<LatLon, OutOfRangeError>
    recommends
        i32::MIN <= lat <= i32::MAX,
        i32::MIN <= lon <= i32::MAX,
{
    if !(LAT_MIN <= lat <= LAT_MAX) {
        Err(
            OutOfRangeError {
                field: CoordinateField::Latitude,
                value: lat as i32,
                min: LAT_MIN,
                max: LAT_MAX,
            },
        )
    } else if !(LON_MIN <= lon <= LON_MAX) {
        Err(
            OutOfRangeError {
                field: CoordinateField::Longitude,
                value: lon as i32,
                min: LON_MIN,
                max: LON_MAX,
            },
        )
    } else {
        Ok(LatLon { lat, lon })
    }
}

/// The text of the angle `v`, given in units of 10^-7 degree, as degrees
/// with exactly seven digits after the decimal point. A negative angle has
/// a minus sign in front; any other has no sign.
pub open spec fn degrees_text(v: int) -> Seq<char> {
    let magnitude = if v < 0 {
        -v
    } else {
        v
    };
    let sign = if v < 0 {
        seq!['-']
    } else {
        Seq::<char>::empty()
    };
    sign + decimal_text((magnitude / 10_000_000) as nat) + seq!['.'] + fixed_width_text(
        (magnitude % 10_000_000) as nat,
        7,
    )
}

/// The text of the point `p`: `Lat: ` and the latitude in degrees, then
/// `, Lon: ` and the longitude in degrees.
pub open spec fn coordinate_text(p: LatLon) -> Seq<char> {
    seq!['L', 'a', 't', ':', ' '] + degrees_text(p.lat) + seq![',', ' ', 'L', 'o', 'n', ':', ' ']
        + degrees_text(p.lon)
}

/// Appends the text of the angle `v` in degrees.
fn push_degrees(out: &mut String, v: i32)
    ensures
        final(out)@ == old(out)@ + degrees_text(v as int),
{
    let wide: i64 = v as i64;
    let magnitude: u64 = if wide < 0 {
        (-wide) as u64
    } else {
        wide as u64
    };
    if wide < 0 {
        proof {
            reveal_strlit("-");
        }
        out.append("-");
    }
    push_decimal(out, magnitude / 10_000_000);
    proof {
        reveal_strlit(".");
    }
    out.append(".");
    push_fixed_width(out, magnitude % 10_000_000, 7);
    assert(out@ =~= old(out)@ + degrees_text(v as int));
}

/// A point on the Earth's surface, held as two integers in units of
/// 10^-7 degree. Every value of this type has its latitude within ±90
/// degrees and its longitude within ±180 degrees.
#[derive(Debug, Clone, Copy, PartialEq, Eq, Structural)]
pub struct GeoCoordinate {
    lat: i32,
    lon: i32,
}

impl View for GeoCoordinate {
    type V = LatLon;

    closed spec fn view(&self) -> LatLon {
        LatLon { lat: self.lat as int, lon: self.lon as int }
    }
}

/// The outcome of a construction with the coordinate, if there is one,
/// replaced by its mathematical value.
pub open spec fn point_of(result: Result<GeoCoordinate, OutOfRangeError>) -> Result<
    LatLon,
    OutOfRangeError,
> {
    match result {
        Ok(c) => Ok(c@),
        Err(e) => Err(e),
    }
}

/// The outcome of a decoding with the two corners, if they are there,
/// replaced by their mathematical values.
pub open spec fn corners_of(result: Result<(GeoCoordinate, GeoCoordinate), MeshDecodeError>)
    -> Result<(LatLon, LatLon), MeshDecodeError> {
    match result {
        Ok((south_west, north_east)) => Ok((south_west@, north_east@)),
        Err(e) => Err(e),
    }
}

/// Two coordinates are equal exactly when their mathematical values are.
pub proof fn lemma_equal_by_value(a: GeoCoordinate, b: GeoCoordinate)
    ensures
        a == b <==> a@ == b@,
{
}

impl GeoCoordinate {
    /// The invariant of the type: both components are in range.
    #[verifier::type_invariant]
    pub open spec fn well_formed(&self) -> bool {
        self@.in_range()
    }

    /// Builds a coordinate from fixed-point components, in units of 10^-7
    /// degree.
    ///
    /// Fails exactly when the latitude is outside ±900,000,000 or the
    /// longitude is outside ±1,800,000,000; both ends of each interval are
    /// accepted. The error names the latitude when that is out of range,
    /// whatever the longitude is.
    pub fn new_from_decimicro(lat: i32, lon: i32) -> (result: Result<Self, OutOfRangeError>)
        ensures
            point_of(result) == checked_point(lat as int, lon as int),
            result is Err <==> !(-900_000_000 <= lat <= 900_000_000) || !(-1_800_000_000 <= lon
                <= 1_800_000_000),
            result matches Ok(c) ==> c@.lat == lat && c@.lon == lon,
    {
        if lat < LAT_MIN || lat > LAT_MAX {
            return Err(
                OutOfRangeError {
                    field: CoordinateField::Latitude,
                    value: lat,
                    min: LAT_MIN,
                    max: LAT_MAX,
                },
            );
        }
        if lon < LON_MIN || lon > LON_MAX {
            return Err(
                OutOfRangeError {
                    field: CoordinateField::Longitude,
                    value: lon,
                    min: LON_MIN,
                    max: LON_MAX,
                },
            );
        }
        Ok(Self { lat, lon })
    }

    /// Builds a coordinate from components that are known to be in range.
    ///
    /// This is the constructor for literal values. It has no error to
    /// return: the caller must establish the range beforehand.
    pub fn new_from_decimicro_const(lat: i32, lon: i32) -> (c: Self)
        requires
            -900_000_000 <= lat <= 900_000_000,
            -1_800_000_000 <= lon <= 1_800_000_000,
        ensures
            c@ == (LatLon { lat: lat as int, lon: lon as int }),
    {
        Self { lat, lon }
    }

    /// The latitude in units of 10^-7 degree.
    pub fn lat_decimicro(&self) -> (lat: i32)
        ensures
            lat == self@.lat,
            -900_000_000 <= lat <= 900_000_000,
    {
        proof {
            use_type_invariant(self);
        }
        self.lat
    }

    /// The longitude in units of 10^-7 degree.
    pub fn lon_decimicro(&self) -> (lon: i32)
        ensures
            lon == self@.lon,
            -1_800_000_000 <= lon <= 1_800_000_000,
    {
        proof {
            use_type_invariant(self);
        }
        self.lon
    }

    /// The coordinate as text, both angles in degrees with seven digits
    /// after the decimal point.
    pub fn to_string(&self) -> (text: String)
        ensures
            text@ == coordinate_text(self@),
    {
        proof {
            reveal_strlit("Lat: ");
            reveal_strlit(", Lon: ");
        }
        let mut text = String::from_str("Lat: ");
        push_degrees(&mut text, self.lat);
        text.append(", Lon: ");
        push_degrees(&mut text, self.lon);
        assert(text@ =~= coordinate_text(self@));
        text
    }

    /// The code of the second-level mesh cell that holds the coordinate.
    ///
    /// Nothing is refused: for a coordinate south of the equator, west of
    /// 100 degrees east, or at 66 2/3 degrees north and beyond, the code
    /// is not six digits.
    pub fn to_second_mesh(&self) -> (code: String)
        ensures
            code@ == second_mesh_text(self@),
            in_mesh_domain(self@) ==> code@.len() == 6 && all_digits(code@),
    {
        proof {
            use_type_invariant(self);
            if in_mesh_domain(self@) {
                lemma_mesh_text_in_domain(self@);
            }
        }
        let (lat_1st, lat_2nd) = whole_and_eighths(3 * (self.lat as i64), 20_000_000);
        let (lon_1st, lon_2nd) = whole_and_eighths(self.lon as i64 - 1_000_000_000, 10_000_000);
        let mut code = String::new();
        push_two_digit(&mut code, lat_1st);
        push_two_digit(&mut code, lon_1st);
        push_signed(&mut code, lat_2nd);
        push_signed(&mut code, lon_2nd);
        assert(code@ =~= second_mesh_text(self@));
        code
    }
}

/// The south-west and north-east corners of the cell that a second-level
/// mesh code names.
///
/// Fails with `WrongLength` unless the code has exactly six characters,
/// with `MalformedField` for the first digit group that holds a character
/// other than a digit, and with an out-of-range error where a corner of
/// the cell lies east of 180 degrees.
pub fn from_second_mesh_code(mesh_code: &str) -> (result: Result<
    (GeoCoordinate, GeoCoordinate),
    MeshDecodeError,
>)
    ensures
        corners_of(result) == decode_second_mesh(mesh_code@),
        mesh_code@.len() != 6 <==> result == Err::<(GeoCoordinate, GeoCoordinate), MeshDecodeError>(
            MeshDecodeError::InvalidMeshCode(InvalidMeshCodeError::WrongLength),
        ),
        mesh_code@.len() == 6 && !all_digits(mesh_code@) <==> result matches Err(
            MeshDecodeError::InvalidMeshCode(InvalidMeshCodeError::MalformedField(_)),
        ),
        result matches Ok((south_west, north_east)) ==> {
            &&& south_west@.lat < north_east@.lat
            &&& south_west@.lon + 1_250_000 == north_east@.lon
        },
{
    proof {
        if mesh_code@.len() == 6 {
            lemma_decode_six_characters(mesh_code@);
            if all_digits(mesh_code@) {
                lemma_decode_six_digits(mesh_code@);
                lemma_cell_extent(
                    10 * digit_value(mesh_code@[0]) + digit_value(mesh_code@[1]),
                    10 * digit_value(mesh_code@[2]) + digit_value(mesh_code@[3]),
                    digit_value(mesh_code@[4]),
                    digit_value(mesh_code@[5]),
                );
            } else {
                lemma_decode_malformed_field(mesh_code@);
            }
        }
    }
    if mesh_code.unicode_len() != 6 {
        return Err(MeshDecodeError::InvalidMeshCode(InvalidMeshCodeError::WrongLength));
    }
    let lat_1st = match parse_field(mesh_code, 0, 2) {
        Some(v) => v,
        None => {
            return Err(
                MeshDecodeError::InvalidMeshCode(
                    InvalidMeshCodeError::MalformedField(MeshField::FirstLatitude),
                ),
            );
        },
    };
    let lon_1st = match parse_field(mesh_code, 2, 4) {
        Some(v) => v,
        None => {
            return Err(
                MeshDecodeError::InvalidMeshCode(
                    InvalidMeshCodeError::MalformedField(MeshField::FirstLongitude),
                ),
            );
        },
    };
    let lat_2nd = match parse_field(mesh_code, 4, 5) {
        Some(v) => v,
        None => {
            return Err(
                MeshDecodeError::InvalidMeshCode(
                    InvalidMeshCodeError::MalformedField(MeshField::SecondLatitude),
                ),
            );
        },
    };
    let lon_2nd = match parse_field(mesh_code, 5, 6) {
        Some(v) => v,
        None => {
            return Err(
                MeshDecodeError::InvalidMeshCode(
                    InvalidMeshCodeError::MalformedField(MeshField::SecondLongitude),
                ),
            );
        },
    };
    let row = 8 * lat_1st + lat_2nd;
    let column = 8 * lon_1st + lon_2nd;
    let lower_left = match GeoCoordinate::new_from_decimicro(
        latitude_at(row) as i32,
        longitude_at(column) as i32,
    ) {
        Ok(c) => c,
        Err(e) => {
            return Err(MeshDecodeError::OutOfRange(e));
        },
    };
    let upper_right = match GeoCoordinate::new_from_decimicro(
        latitude_at(row + 1) as i32,
        longitude_at(column + 1) as i32,
    ) {
        Ok(c) => c,
        Err(e) => {
            return Err(MeshDecodeError::OutOfRange(e));
        },
    };
    Ok((lower_left, upper_right))
}

} // verus!

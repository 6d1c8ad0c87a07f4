//! Arithmetic of the second-level grid of the standard regional mesh.
//!
//! A first-level cell spans two thirds of a degree of latitude and one
//! degree of longitude, counted from the equator and from the meridian
//! 100 degrees east. It is cut into eight rows and eight columns, so a
//! second-level cell is one twelfth of a degree high and one eighth of a
//! degree wide. A mesh code writes the first-level latitude and longitude
//! indices with two digits each, then the row and the column with one
//! digit each.
//!
//! All quantities here are integers in units of 10^-7 degree.

use vstd::prelude::*;
use vstd::arithmetic::div_mod::{
    lemma_fundamental_div_mod, lemma_fundamental_div_mod_converse, lemma_mod_pos_bound,
};
use vstd::string::StrSliceExecFns;
use crate::base::{checked_point, LatLon};
use crate::decimal::{
    all_digits, digit_char, digit_of_char, digit_value, digits_value, is_digit,
    lemma_two_digit_text_reads_back, signed_text, two_digit_text,
};
use crate::error::{CoordinateField, InvalidMeshCodeError, MeshDecodeError, MeshField};

verus! {

/// The remainder of `n` by `d` under division that rounds toward zero: it
/// has the sign of `n`, and `n` minus it is a multiple of `d`.
pub open spec fn truncated_rem(n: int, d: int) -> int
    recommends
        d > 0,
{
    if n >= 0 {
        n % d
    } else {
        -((-n) % d)
    }
}

/// How many whole eighths lie in the fractional part of `n / d`, the
/// fractional part being taken toward zero: the floor of eight times
/// `truncated_rem(n, d) / d`. From 0 to 7 when `n` is not negative, and
/// from -8 to 0 when it is.
pub open spec fn eighths_of_fraction(n: int, d: int) -> int
    recommends
        d > 0,
{
    (8 * truncated_rem(n, d)) / d
}

/// First-level latitude index of the latitude `lat`: the floor of one and
/// a half times the latitude in degrees.
pub open spec fn first_lat_index(lat: int) -> int {
    (3 * lat) / 20_000_000
}

/// First-level longitude index of the longitude `lon`: the floor of the
/// longitude in degrees less one hundred.
pub open spec fn first_lon_index(lon: int) -> int {
    (lon - 1_000_000_000) / 10_000_000
}

/// Second-level latitude index of the latitude `lat`: the eighths in the
/// fractional part of one and a half times the latitude in degrees.
pub open spec fn second_lat_index(lat: int) -> int {
    eighths_of_fraction(3 * lat, 20_000_000)
}

/// Second-level longitude index of the longitude `lon`: the eighths in
/// the fractional part of the longitude in degrees less one hundred.
pub open spec fn second_lon_index(lon: int) -> int {
    eighths_of_fraction(lon - 1_000_000_000, 10_000_000)
}

/// The mesh code of the point `p`: both first-level indices padded to two
/// characters, then both second-level indices.
///
/// Where an index is negative or the first-level latitude index exceeds
/// 99, the text is still its decimal text, sign included, so the code is
/// then longer than six characters or holds a minus sign.
pub open spec fn second_mesh_text(p: LatLon) -> Seq<char> {
    two_digit_text(first_lat_index(p.lat)) + two_digit_text(first_lon_index(p.lon))
        + signed_text(second_lat_index(p.lat)) + signed_text(second_lon_index(p.lon))
}

/// The points whose mesh code is six digits and names a cell that lies
/// within the valid coordinates: latitude from the equator to below
/// 66 2/3 degrees north, longitude from 100 degrees east to below 180
/// degrees.
pub open spec fn in_mesh_domain(p: LatLon) -> bool {
    &&& 0 <= p.lat <= 666_666_666
    &&& 1_000_000_000 <= p.lon < 1_800_000_000
}

/// For `n >= 0` and `d > 0`, the integer nearest to `n / d`; where `n / d`
/// lies halfway between two integers, the larger.
pub open spec fn nearest_quotient(n: int, d: int) -> int
    recommends
        n >= 0,
        d > 0,
{
    (2 * n + d) / (2 * d)
}

/// The latitude that lies `twelfths` twelfths of a degree north of the
/// equator, to the nearest unit.
pub open spec fn latitude_of_twelfths(twelfths: int) -> int
    recommends
        twelfths >= 0,
{
    nearest_quotient(twelfths * 10_000_000, 12)
}

/// The longitude that lies `eighths` eighths of a degree east of the
/// meridian 100 degrees east.
pub open spec fn longitude_of_eighths(eighths: int) -> int {
    1_000_000_000 + eighths * 1_250_000
}

/// The south-west and north-east corners of the cell with first-level
/// indices `lat1`, `lon1` and second-level indices `lat2`, `lon2`, none of
/// them negative.
///
/// The south-west corner is validated first, then the north-east one; the
/// error is that of the first corner that is not a valid coordinate.
pub open spec fn cell_corners(lat1: int, lon1: int, lat2: int, lon2: int) -> Result<
    (LatLon, LatLon),
    MeshDecodeError,
>
    recommends
        0 <= lat1,
        0 <= lon1,
        0 <= lat2,
        0 <= lon2,
{
    let row = 8 * lat1 + lat2;
    let column = 8 * lon1 + lon2;
    match checked_point(latitude_of_twelfths(row), longitude_of_eighths(column)) {
        Err(e) => Err(MeshDecodeError::OutOfRange(e)),
        Ok(south_west) => match checked_point(
            latitude_of_twelfths(row + 1),
            longitude_of_eighths(column + 1),
        ) {
            Err(e) => Err(MeshDecodeError::OutOfRange(e)),
            Ok(north_east) => Ok((south_west, north_east)),
        },
    }
}

/// What decoding the text `s` yields.
///
/// A text of any length but six is refused. The four digit groups are
/// then read in order, and the first that holds a character other than a
/// digit is reported. Otherwise the result is that of `cell_corners` on
/// the four numbers.
pub open spec fn decode_second_mesh(s: Seq<char>) -> Result<(LatLon, LatLon), MeshDecodeError> {
    if s.len() != 6 {
        Err(MeshDecodeError::InvalidMeshCode(InvalidMeshCodeError::WrongLength))
    } else if !all_digits(s.subrange(0, 2)) {
        Err(
            MeshDecodeError::InvalidMeshCode(
                InvalidMeshCodeError::MalformedField(MeshField::FirstLatitude),
            ),
        )
    } else if !all_digits(s.subrange(2, 4)) {
        Err(
            MeshDecodeError::InvalidMeshCode(
                InvalidMeshCodeError::MalformedField(MeshField::FirstLongitude),
            ),
        )
    } else if !all_digits(s.subrange(4, 5)) {
        Err(
            MeshDecodeError::InvalidMeshCode(
                InvalidMeshCodeError::MalformedField(MeshField::SecondLatitude),
            ),
        )
    } else if !all_digits(s.subrange(5, 6)) {
        Err(
            MeshDecodeError::InvalidMeshCode(
                InvalidMeshCodeError::MalformedField(MeshField::SecondLongitude),
            ),
        )
    } else {
        cell_corners(
            digits_value(s.subrange(0, 2)),
            digits_value(s.subrange(2, 4)),
            digits_value(s.subrange(4, 5)),
            digits_value(s.subrange(5, 6)),
        )
    }
}

/// The quotient of `n` by `d` rounded toward negative infinity.
pub(crate) fn floor_div(n: i64, d: i64) -> (q: i64)
    requires
        0 < d,
        i64::MIN < n,
    ensures
        q == n / d,
{
    proof {
        lemma_floor_from_truncation(n as int, d as int);
    }
    let q = n / d;
    if n % d < 0 {
        q - 1
    } else {
        q
    }
}

/// The whole part of `n / d`, rounded toward negative infinity, together
/// with the eighths in its fractional part.
pub(crate) fn whole_and_eighths(n: i64, d: i64) -> (parts: (i64, i64))
    requires
        0 < d <= 1_000_000_000,
        -4_000_000_000 <= n <= 4_000_000_000,
    ensures
        parts.0 == n / d,
        parts.1 == eighths_of_fraction(n as int, d as int),
{
    proof {
        lemma_mod_pos_bound(if n >= 0 { n as int } else { -n }, d as int);
    }
    let whole = floor_div(n, d);
    let fraction = n % d;
    let eighths = floor_div(8 * fraction, d);
    (whole, eighths)
}

/// Reads the characters of `s` from position `from` up to, not including,
/// position `to` as a decimal number. `None` where one of them is not a
/// digit.
pub(crate) fn parse_field(s: &str, from: usize, to: usize) -> (value: Option<i64>)
    requires
        from <= to <= s@.len(),
        to - from <= 2,
    ensures
        value is Some <==> all_digits(s@.subrange(from as int, to as int)),
        value matches Some(v) ==> v == digits_value(s@.subrange(from as int, to as int)) && 0
            <= v <= 99,
{
    let mut value: i64 = 0;
    let mut i: usize = from;
    while i < to
        invariant
            from <= i <= to <= s@.len(),
            to - from <= 2,
            all_digits(s@.subrange(from as int, i as int)),
            value == digits_value(s@.subrange(from as int, i as int)),
            i == from ==> value == 0,
            i == from + 1 ==> 0 <= value <= 9,
            0 <= value <= 99,
        decreases to - i,
    {
        let ghost read = s@.subrange(from as int, i as int);
        let ghost next = s@.subrange(from as int, i + 1);
        assert(next.drop_last() =~= read);
        assert(next.last() == s@[i as int]);
        match digit_of_char(s.get_char(i)) {
            None => {
                assert(!is_digit(next[i - from]));
                assert(!all_digits(s@.subrange(from as int, to as int))) by {
                    assert(s@.subrange(from as int, to as int)[i - from] == s@[i as int]);
                }
                return None;
            },
            Some(d) => {
                assert forall|k: int| 0 <= k < next.len() implies is_digit(#[trigger] next[k]) by {
                    if k < read.len() {
                        assert(next[k] == read[k]);
                    }
                }
                value = 10 * value + d as i64;
            },
        }
        i = i + 1;
    }
    Some(value)
}

/// The latitude `twelfths` twelfths of a degree north of the equator.
pub(crate) fn latitude_at(twelfths: i64) -> (lat: i64)
    requires
        0 <= twelfths <= 1_000_000,
    ensures
        lat == latitude_of_twelfths(twelfths as int),
{
    (2 * (twelfths * 10_000_000) + 12) / 24
}

/// The longitude `eighths` eighths of a degree east of the meridian 100
/// degrees east.
pub(crate) fn longitude_at(eighths: i64) -> (lon: i64)
    requires
        0 <= eighths <= 1_000_000,
    ensures
        lon == longitude_of_eighths(eighths as int),
{
    1_000_000_000 + eighths * 1_250_000
}

/// Division rounding toward zero, written over a non-negative dividend,
/// determines division rounding toward negative infinity.
proof fn lemma_floor_from_truncation(n: int, d: int)
    requires
        d > 0,
    ensures
        n < 0 && (-n) % d == 0 ==> n / d == -((-n) / d) && n % d == 0,
        n < 0 && (-n) % d != 0 ==> n / d == -((-n) / d) - 1 && n % d == d - (-n) % d,
{
    if n < 0 {
        let m = -n;
        lemma_fundamental_div_mod(m, d);
        lemma_mod_pos_bound(m, d);
        if m % d == 0 {
            assert(n == (-(m / d)) * d + 0) by (nonlinear_arith)
                requires
                    m == d * (m / d) + m % d,
                    m % d == 0,
                    n == -m,
            ;
            lemma_fundamental_div_mod_converse(n, d, -(m / d), 0);
        } else {
            assert(n == (-(m / d) - 1) * d + (d - m % d)) by (nonlinear_arith)
                requires
                    m == d * (m / d) + m % d,
                    n == -m,
            ;
            lemma_fundamental_div_mod_converse(n, d, -(m / d) - 1, d - m % d);
        }
    }
}

/// The digit group that the character at position `i` of a mesh code
/// belongs to.
pub open spec fn field_at(i: int) -> MeshField
    recommends
        0 <= i < 6,
{
    if i < 2 {
        MeshField::FirstLatitude
    } else if i < 4 {
        MeshField::FirstLongitude
    } else if i == 4 {
        MeshField::SecondLatitude
    } else {
        MeshField::SecondLongitude
    }
}

/// The place of a digit group in the order in which the groups are read.
pub open spec fn field_order(field: MeshField) -> int {
    match field {
        MeshField::FirstLatitude => 0,
        MeshField::FirstLongitude => 1,
        MeshField::SecondLatitude => 2,
        MeshField::SecondLongitude => 3,
    }
}

/// The point `p` lies in the rectangle with the given corners, borders
/// included.
pub open spec fn cell_contains(south_west: LatLon, north_east: LatLon, p: LatLon) -> bool {
    &&& south_west.lat <= p.lat <= north_east.lat
    &&& south_west.lon <= p.lon <= north_east.lon
}

/// A text whose length is not six is refused as such, whatever it holds.
pub proof fn lemma_decode_wrong_length(s: Seq<char>)
    requires
        s.len() != 6,
    ensures
        decode_second_mesh(s) == Err::<(LatLon, LatLon), MeshDecodeError>(
            MeshDecodeError::InvalidMeshCode(InvalidMeshCodeError::WrongLength),
        ),
{
}

/// A text of six characters that holds a character other than a digit is
/// refused as malformed. The digit group that the error names holds such
/// a character, and no such character stands in a group before it.
pub proof fn lemma_decode_malformed_field(s: Seq<char>)
    requires
        s.len() == 6,
        !all_digits(s),
    ensures
        decode_second_mesh(s) matches Err(
            MeshDecodeError::InvalidMeshCode(InvalidMeshCodeError::MalformedField(field)),
        ) && {
            &&& exists|i: int| 0 <= i < 6 && !is_digit(s[i]) && field_at(i) == field
            &&& forall|i: int|
                0 <= i < 6 && !is_digit(#[trigger] s[i]) ==> field_order(field) <= field_order(
                    field_at(i),
                )
        },
{
    lemma_groups_by_character(s);
    let bad = choose|i: int| 0 <= i < 6 && !is_digit(#[trigger] s[i]);
    if !is_digit(s[0]) {
        assert(field_at(0) == MeshField::FirstLatitude);
    } else if !is_digit(s[1]) {
        assert(field_at(1) == MeshField::FirstLatitude);
    } else if !is_digit(s[2]) {
        assert(field_at(2) == MeshField::FirstLongitude);
    } else if !is_digit(s[3]) {
        assert(field_at(3) == MeshField::FirstLongitude);
    } else if !is_digit(s[4]) {
        assert(field_at(4) == MeshField::SecondLatitude);
    } else {
        assert(bad == 5);
        assert(field_at(5) == MeshField::SecondLongitude);
    }
}

/// A text of six characters is refused as malformed only if it holds a
/// character other than a digit, and as of the wrong length never.
pub proof fn lemma_decode_six_characters(s: Seq<char>)
    requires
        s.len() == 6,
    ensures
        decode_second_mesh(s) matches Err(MeshDecodeError::InvalidMeshCode(e)) ==> e
            != InvalidMeshCodeError::WrongLength && !all_digits(s),
{
    lemma_groups_by_character(s);
}

/// Each digit group of a text of six characters holds only digits exactly
/// when each of its characters is a digit.
proof fn lemma_groups_by_character(s: Seq<char>)
    requires
        s.len() == 6,
    ensures
        all_digits(s.subrange(0, 2)) <==> is_digit(s[0]) && is_digit(s[1]),
        all_digits(s.subrange(2, 4)) <==> is_digit(s[2]) && is_digit(s[3]),
        all_digits(s.subrange(4, 5)) <==> is_digit(s[4]),
        all_digits(s.subrange(5, 6)) <==> is_digit(s[5]),
        all_digits(s) <==> is_digit(s[0]) && is_digit(s[1]) && is_digit(s[2]) && is_digit(s[3])
            && is_digit(s[4]) && is_digit(s[5]),
{
    assert(s.subrange(0, 2)[0] == s[0] && s.subrange(0, 2)[1] == s[1]);
    assert(s.subrange(2, 4)[0] == s[2] && s.subrange(2, 4)[1] == s[3]);
    assert(s.subrange(4, 5)[0] == s[4]);
    assert(s.subrange(5, 6)[0] == s[5]);
}

/// Decoding read character by character: a text of six digits names the
/// cell whose indices are written by its digits.
pub proof fn lemma_decode_six_digits(s: Seq<char>)
    requires
        s.len() == 6,
        all_digits(s),
    ensures
        decode_second_mesh(s) == cell_corners(
            10 * digit_value(s[0]) + digit_value(s[1]),
            10 * digit_value(s[2]) + digit_value(s[3]),
            digit_value(s[4]),
            digit_value(s[5]),
        ),
{
    lemma_two_digits_value(s.subrange(0, 2));
    lemma_two_digits_value(s.subrange(2, 4));
    lemma_one_digit_value(s.subrange(4, 5));
    lemma_one_digit_value(s.subrange(5, 6));
}

/// The value of a single digit read as a number.
proof fn lemma_one_digit_value(s: Seq<char>)
    requires
        s.len() == 1,
    ensures
        digits_value(s) == digit_value(s[0]),
{
    reveal_with_fuel(digits_value, 2);
}

/// The value of two digits read as a number.
proof fn lemma_two_digits_value(s: Seq<char>)
    requires
        s.len() == 2,
    ensures
        digits_value(s) == 10 * digit_value(s[0]) + digit_value(s[1]),
{
    lemma_one_digit_value(s.drop_last());
}

/// Which cells have both corners among the valid coordinates: those that
/// end at 180 degrees east or west of it. For every other cell the error
/// names the longitude of the first corner that lies beyond.
pub proof fn lemma_cell_corners_defined(lat1: int, lon1: int, lat2: int, lon2: int)
    requires
        0 <= lat1 <= 99,
        0 <= lon1 <= 99,
        0 <= lat2 <= 9,
        0 <= lon2 <= 9,
    ensures
        cell_corners(lat1, lon1, lat2, lon2) is Ok <==> 8 * lon1 + lon2 < 640,
        cell_corners(lat1, lon1, lat2, lon2) matches Err(e) ==> e matches MeshDecodeError::OutOfRange(
            r,
        ) && r.field == CoordinateField::Longitude && r.value
            == longitude_of_eighths(
            if 8 * lon1 + lon2 > 640 {
                8 * lon1 + lon2
            } else {
                8 * lon1 + lon2 + 1
            },
        ),
{
}

/// The shape of a cell: its south-west corner lies south and west of its
/// north-east corner, it is one eighth of a degree wide, and one twelfth
/// of a degree high to the nearest unit.
pub proof fn lemma_cell_extent(lat1: int, lon1: int, lat2: int, lon2: int)
    requires
        0 <= lat1,
        0 <= lon1,
        0 <= lat2,
        0 <= lon2,
    ensures
        cell_corners(lat1, lon1, lat2, lon2) matches Ok((south_west, north_east)) ==> {
            &&& south_west.in_range()
            &&& north_east.in_range()
            &&& north_east.lon - south_west.lon == 1_250_000
            &&& 833_333 <= north_east.lat - south_west.lat <= 833_334
        },
{
}

/// The mesh code of a point in the mesh domain is six digits: the
/// first-level latitude index, from 0 to 99, the first-level longitude
/// index, from 0 to 79, and the two second-level indices, from 0 to 7.
pub proof fn lemma_mesh_text_in_domain(p: LatLon)
    requires
        in_mesh_domain(p),
    ensures
        0 <= first_lat_index(p.lat) <= 99,
        0 <= first_lon_index(p.lon) <= 79,
        0 <= second_lat_index(p.lat) <= 7,
        0 <= second_lon_index(p.lon) <= 7,
        second_mesh_text(p) == seq![
            digit_char(first_lat_index(p.lat) / 10),
            digit_char(first_lat_index(p.lat) % 10),
            digit_char(first_lon_index(p.lon) / 10),
            digit_char(first_lon_index(p.lon) % 10),
            digit_char(second_lat_index(p.lat)),
            digit_char(second_lon_index(p.lon)),
        ],
        all_digits(second_mesh_text(p)),
{
    let lat1 = first_lat_index(p.lat);
    let lon1 = first_lon_index(p.lon);
    let lat2 = second_lat_index(p.lat);
    let lon2 = second_lon_index(p.lon);
    lemma_two_digit_text_reads_back(lat1);
    lemma_two_digit_text_reads_back(lon1);
    let text = seq![
        digit_char(lat1 / 10),
        digit_char(lat1 % 10),
        digit_char(lon1 / 10),
        digit_char(lon1 % 10),
        digit_char(lat2),
        digit_char(lon2),
    ];
    assert(second_mesh_text(p) =~= text);
}

/// Decoding the mesh code of a point in the mesh domain succeeds, and the
/// cell it yields contains the point. The cell is the one whose south
/// border lies the whole number of twelfths of a degree below the point's
/// latitude, and whose west border the whole number of eighths of a
/// degree below its longitude.
pub proof fn lemma_decode_of_mesh_text(p: LatLon)
    requires
        in_mesh_domain(p),
    ensures
        decode_second_mesh(second_mesh_text(p)) matches Ok((south_west, north_east)) && {
            &&& cell_contains(south_west, north_east, p)
            &&& south_west.lat == latitude_of_twelfths((12 * p.lat) / 10_000_000)
            &&& south_west.lon == longitude_of_eighths((p.lon - 1_000_000_000) / 1_250_000)
            &&& north_east.lat == latitude_of_twelfths((12 * p.lat) / 10_000_000 + 1)
            &&& north_east.lon == longitude_of_eighths((p.lon - 1_000_000_000) / 1_250_000 + 1)
        },
{
    let lat1 = first_lat_index(p.lat);
    let lon1 = first_lon_index(p.lon);
    let lat2 = second_lat_index(p.lat);
    let lon2 = second_lon_index(p.lon);
    let text = second_mesh_text(p);
    lemma_mesh_text_in_domain(p);
    lemma_decode_six_digits(text);
    assert(decode_second_mesh(text) == cell_corners(lat1, lon1, lat2, lon2));
    assert(8 * lat1 + lat2 == (12 * p.lat) / 10_000_000);
    assert(8 * lon1 + lon2 == (p.lon - 1_000_000_000) / 1_250_000);
}

} // verus!

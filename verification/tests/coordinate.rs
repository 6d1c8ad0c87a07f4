use geo_mesh::{from_second_mesh_code, CoordinateField, GeoCoordinate, OutOfRangeError};

/// Degrees to fixed-point units: scale by ten million, round to nearest.
fn units_of_degrees(degrees: f64) -> i32 {
    (degrees * 10_000_000.0).round() as i32
}

/// Fixed-point units to degrees.
fn degrees_of_units(units: i32) -> f64 {
    units as f64 / 10_000_000.0
}

#[test]
fn it_works() {
    let coord_from_decimicro =
        GeoCoordinate::new_from_decimicro(327_903_862, 1_306_883_252).unwrap();
    assert_eq!(
        coord_from_decimicro.to_string(),
        "Lat: 32.7903862, Lon: 130.6883252"
    );

    let coord_from_f64 =
        GeoCoordinate::new_from_decimicro(units_of_degrees(35.6895), units_of_degrees(139.6917))
            .unwrap();
    assert_eq!(
        coord_from_f64.to_string(),
        "Lat: 35.6895000, Lon: 139.6917000"
    );

    let invalid_coord = GeoCoordinate::new_from_decimicro(1_000_000_000, 2_000_000_000);
    assert_eq!(
        invalid_coord.err().unwrap().to_string(),
        "Invalid latitude: must be between -90 and 90 degrees in decimicro"
    );

    let mesh_code = coord_from_decimicro.to_second_mesh();
    assert_eq!(mesh_code, "493015");

    let result = from_second_mesh_code("493015").unwrap();
    assert_eq!(result.0.to_string(), "Lat: 32.7500000, Lon: 130.6250000");
    assert_eq!(result.1.to_string(), "Lat: 32.8333333, Lon: 130.7500000");

    let co = GeoCoordinate::new_from_decimicro_const(327_903_862, 1_306_883_252);
    assert_eq!(co.lat_decimicro(), 327_903_862);
}

#[test]
fn accessors_return_the_stored_units() {
    let c = GeoCoordinate::new_from_decimicro(-123_456_789, 1_234_567_890).unwrap();
    assert_eq!(c.lat_decimicro(), -123_456_789);
    assert_eq!(c.lon_decimicro(), 1_234_567_890);
}

#[test]
fn literal_constructor_keeps_both_components() {
    let c = GeoCoordinate::new_from_decimicro_const(-900_000_000, 1_800_000_000);
    assert_eq!(c.lat_decimicro(), -900_000_000);
    assert_eq!(c.lon_decimicro(), 1_800_000_000);
    assert_eq!(
        c,
        GeoCoordinate::new_from_decimicro(-900_000_000, 1_800_000_000).unwrap()
    );
}

#[test]
fn both_ends_of_both_ranges_are_accepted() {
    for lat in [-900_000_000, 0, 900_000_000] {
        for lon in [-1_800_000_000, 0, 1_800_000_000] {
            let c = GeoCoordinate::new_from_decimicro(lat, lon).unwrap();
            assert_eq!(c.lat_decimicro(), lat);
            assert_eq!(c.lon_decimicro(), lon);
        }
    }
}

#[test]
fn one_unit_beyond_an_end_is_refused() {
    assert_eq!(
        GeoCoordinate::new_from_decimicro(900_000_001, 0),
        Err(OutOfRangeError {
            field: CoordinateField::Latitude,
            value: 900_000_001,
            min: -900_000_000,
            max: 900_000_000,
        })
    );
    assert_eq!(
        GeoCoordinate::new_from_decimicro(-900_000_001, 0),
        Err(OutOfRangeError {
            field: CoordinateField::Latitude,
            value: -900_000_001,
            min: -900_000_000,
            max: 900_000_000,
        })
    );
    assert_eq!(
        GeoCoordinate::new_from_decimicro(0, 1_800_000_001),
        Err(OutOfRangeError {
            field: CoordinateField::Longitude,
            value: 1_800_000_001,
            min: -1_800_000_000,
            max: 1_800_000_000,
        })
    );
    assert_eq!(
        GeoCoordinate::new_from_decimicro(0, -1_800_000_001),
        Err(OutOfRangeError {
            field: CoordinateField::Longitude,
            value: -1_800_000_001,
            min: -1_800_000_000,
            max: 1_800_000_000,
        })
    );
}

#[test]
fn extreme_integers_are_refused() {
    let e = GeoCoordinate::new_from_decimicro(i32::MIN, i32::MAX).unwrap_err();
    assert_eq!(e.field, CoordinateField::Latitude);
    assert_eq!(e.value, i32::MIN);
    let e = GeoCoordinate::new_from_decimicro(0, i32::MIN).unwrap_err();
    assert_eq!(e.field, CoordinateField::Longitude);
    assert_eq!(e.value, i32::MIN);
}

#[test]
fn latitude_is_reported_before_longitude() {
    let e = GeoCoordinate::new_from_decimicro(1_000_000_000, 2_000_000_000).unwrap_err();
    assert_eq!(e.field, CoordinateField::Latitude);
    assert_eq!(e.value, 1_000_000_000);
    assert_eq!((e.min, e.max), (-900_000_000, 900_000_000));
}

#[test]
fn construction_fails_exactly_outside_the_ranges() {
    let lats = [
        i32::MIN,
        -900_000_001,
        -900_000_000,
        -1,
        0,
        899_999_999,
        900_000_000,
        900_000_001,
        i32::MAX,
    ];
    let lons = [
        i32::MIN,
        -1_800_000_001,
        -1_800_000_000,
        -1,
        0,
        1_799_999_999,
        1_800_000_000,
        1_800_000_001,
        i32::MAX,
    ];
    for lat in lats {
        for lon in lons {
            let lat_ok = (-900_000_000..=900_000_000).contains(&lat);
            let lon_ok = (-1_800_000_000..=1_800_000_000).contains(&lon);
            let r = GeoCoordinate::new_from_decimicro(lat, lon);
            assert_eq!(r.is_ok(), lat_ok && lon_ok);
            if let Err(e) = r {
                if !lat_ok {
                    assert_eq!((e.field, e.value), (CoordinateField::Latitude, lat));
                } else {
                    assert_eq!((e.field, e.value), (CoordinateField::Longitude, lon));
                }
            }
        }
    }
}

#[test]
fn equality_is_by_components() {
    let a = GeoCoordinate::new_from_decimicro(1, 2).unwrap();
    let b = GeoCoordinate::new_from_decimicro(1, 2).unwrap();
    let c = GeoCoordinate::new_from_decimicro(1, 3).unwrap();
    let d = GeoCoordinate::new_from_decimicro(2, 2).unwrap();
    assert_eq!(a, b);
    assert_ne!(a, c);
    assert_ne!(a, d);
    let copy = a;
    assert_eq!(copy, a);
}

#[test]
fn text_of_the_origin() {
    let c = GeoCoordinate::new_from_decimicro(0, 0).unwrap();
    assert_eq!(c.to_string(), "Lat: 0.0000000, Lon: 0.0000000");
}

#[test]
fn text_of_the_extremes() {
    let c = GeoCoordinate::new_from_decimicro(900_000_000, -1_800_000_000).unwrap();
    assert_eq!(c.to_string(), "Lat: 90.0000000, Lon: -180.0000000");
    let c = GeoCoordinate::new_from_decimicro(-900_000_000, 1_800_000_000).unwrap();
    assert_eq!(c.to_string(), "Lat: -90.0000000, Lon: 180.0000000");
}

#[test]
fn text_keeps_seven_fraction_digits() {
    let c = GeoCoordinate::new_from_decimicro(1, -1).unwrap();
    assert_eq!(c.to_string(), "Lat: 0.0000001, Lon: -0.0000001");
    let c = GeoCoordinate::new_from_decimicro(-5, 10_000_000).unwrap();
    assert_eq!(c.to_string(), "Lat: -0.0000005, Lon: 1.0000000");
    let c = GeoCoordinate::new_from_decimicro(-9_999_999, 99_999_999).unwrap();
    assert_eq!(c.to_string(), "Lat: -0.9999999, Lon: 9.9999999");
    let c = GeoCoordinate::new_from_decimicro(100_000_010, 1_000_000_100).unwrap();
    assert_eq!(c.to_string(), "Lat: 10.0000010, Lon: 100.0000100");
}

#[test]
fn text_agrees_with_fixed_notation_of_the_degrees() {
    let mut lat: i64 = -900_000_000;
    let mut lon: i64 = -1_800_000_000;
    while lat <= 900_000_000 {
        let c = GeoCoordinate::new_from_decimicro(lat as i32, lon as i32).unwrap();
        let expected = format!(
            "Lat: {:.7}, Lon: {:.7}",
            degrees_of_units(lat as i32),
            degrees_of_units(lon as i32)
        );
        assert_eq!(c.to_string(), expected);
        lat += 1_234_567;
        lon += 2_469_134;
    }
}

#[test]
fn text_agrees_with_fixed_notation_near_whole_degrees() {
    for degree in -90..=90_i32 {
        for offset in -3..=3_i32 {
            let lat = degree * 10_000_000 + offset;
            let lon = 2 * degree * 10_000_000 - offset;
            if let Ok(c) = GeoCoordinate::new_from_decimicro(lat, lon) {
                let expected = format!(
                    "Lat: {:.7}, Lon: {:.7}",
                    degrees_of_units(lat),
                    degrees_of_units(lon)
                );
                assert_eq!(c.to_string(), expected);
            }
        }
    }
}

#[test]
fn degrees_survive_the_fixed_point_round_trip() {
    let samples = [
        (35.6895, 139.6917),
        (32.7903862, 130.6883252),
        (-33.8688197, 151.2092955),
        (0.0, 0.0),
        (90.0, 180.0),
        (-90.0, -180.0),
        (0.00000004, -0.00000004),
        (45.123456789, -122.987654321),
    ];
    for (lat, lon) in samples {
        let c = GeoCoordinate::new_from_decimicro(units_of_degrees(lat), units_of_degrees(lon))
            .unwrap();
        assert!((degrees_of_units(c.lat_decimicro()) - lat).abs() <= 1e-7);
        assert!((degrees_of_units(c.lon_decimicro()) - lon).abs() <= 1e-7);
    }
}

#[test]
fn degrees_out_of_range_are_refused() {
    let r = GeoCoordinate::new_from_decimicro(units_of_degrees(90.0000001), units_of_degrees(0.0));
    assert_eq!(r.unwrap_err().field, CoordinateField::Latitude);
    let r = GeoCoordinate::new_from_decimicro(units_of_degrees(0.0), units_of_degrees(-180.5));
    assert_eq!(r.unwrap_err().field, CoordinateField::Longitude);
}

use std::convert::TryFrom;

use weather_app::location::{first_comma, parse, parse_zip, StructuredLocation};
use weather_util_rust::latitude::Latitude;
use weather_util_rust::longitude::Longitude;

fn city(name: &str) -> StructuredLocation {
    StructuredLocation::CityName(String::from(name))
}

fn lat_lon(lat: f64, lon: f64) -> StructuredLocation {
    StructuredLocation::LatLon(
        Latitude::try_from(lat).unwrap(),
        Longitude::try_from(lon).unwrap(),
    )
}

#[test]
fn zip_code_reads_as_zip() {
    assert_eq!(parse("10001"), StructuredLocation::Zip(10001));
}

#[test]
fn two_numbers_read_as_lat_lon() {
    assert_eq!(parse("40.7,-74.0"), lat_lon(40.7, -74.0));
}

#[test]
fn words_around_a_comma_read_as_city() {
    assert_eq!(parse("abc,xyz"), city("abc,xyz"));
}

#[test]
fn plain_word_reads_as_city() {
    assert_eq!(parse("Paris"), city("Paris"));
}

#[test]
fn missing_longitude_keeps_whole_text_as_city() {
    assert_eq!(parse("40.7,"), city("40.7,"));
}

#[test]
fn missing_latitude_keeps_whole_text_as_city() {
    assert_eq!(parse(",-74.0"), city(",-74.0"));
}

#[test]
fn empty_text_is_an_empty_city() {
    assert_eq!(parse(""), city(""));
}

#[test]
fn plus_sign_is_allowed_on_zip() {
    assert_eq!(parse("+42"), StructuredLocation::Zip(42));
}

#[test]
fn negative_number_is_no_zip() {
    assert_eq!(parse("-42"), city("-42"));
}

#[test]
fn largest_zip_fits() {
    assert_eq!(parse("18446744073709551615"), StructuredLocation::Zip(u64::MAX));
}

#[test]
fn zip_past_u64_is_a_city() {
    assert_eq!(parse("18446744073709551616"), city("18446744073709551616"));
}

#[test]
fn leading_zeros_keep_the_value() {
    assert_eq!(parse("01106"), StructuredLocation::Zip(1106));
}

#[test]
fn longitude_is_everything_after_first_comma() {
    assert_eq!(parse("1,2,3"), city("1,2,3"));
}

#[test]
fn exponents_and_signs_read_as_lat_lon() {
    assert_eq!(parse("+4.07e1,-7.4E1"), lat_lon(40.7, -74.0));
}

#[test]
fn spaces_are_not_float_syntax() {
    assert_eq!(parse("40.7, -74.0"), city("40.7, -74.0"));
}

#[test]
fn zip_reader_reads_digits() {
    assert_eq!(parse_zip("11106"), Some(11106));
    assert_eq!(parse_zip("+0"), Some(0));
    assert_eq!(parse_zip("+"), None);
    assert_eq!(parse_zip(""), None);
    assert_eq!(parse_zip("12a"), None);
    assert_eq!(parse_zip("99999999999999999999"), None);
}

#[test]
fn first_comma_is_found() {
    assert_eq!(first_comma("a,b,c"), Some(1));
    assert_eq!(first_comma("abc"), None);
    assert_eq!(first_comma("é,x"), Some(1));
}

#[test]
fn non_ascii_city_name_is_kept() {
    assert_eq!(parse("Zürich,CH"), city("Zürich,CH"));
}

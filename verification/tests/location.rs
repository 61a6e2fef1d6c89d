use inception::Location;

#[test]
fn site_formats_as_source_coordinate() {
    assert_eq!(
        Location::new("src/example.rs", 12, 7).to_string(),
        "src/example.rs:12:7"
    );
}

#[test]
fn location_parts_round_trip() {
    let location = Location::new("src/lib.rs", 0, 4_294_967_295);
    assert_eq!(location.file(), "src/lib.rs");
    assert_eq!(location.line(), 0);
    assert_eq!(location.column(), 4_294_967_295);
    assert_eq!(location.to_string(), "src/lib.rs:0:4294967295");
}

#[test]
fn decimal_numerals_have_no_leading_zeros() {
    assert_eq!(inception::text::decimal_string(0), "0");
    assert_eq!(inception::text::decimal_string(10), "10");
    assert_eq!(inception::text::decimal_string(907), "907");
    assert_eq!(
        inception::text::decimal_string(u64::MAX),
        "18446744073709551615"
    );
}

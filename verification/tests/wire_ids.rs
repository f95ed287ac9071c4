use cinema_sessions::ids::id_to_hex;
use cinema_sessions::ids::parse_hex_id;
use cinema_sessions::timefmt::format_instant;
use cinema_sessions::timefmt::MAX_TS;
use cinema_sessions::timefmt::MIN_TS;

#[test]
fn ids_render_as_24_lowercase_hex_digits() {
    assert_eq!(id_to_hex(0), "000000000000000000000000");
    assert_eq!(id_to_hex(1), "000000000000000000000001");
    assert_eq!(id_to_hex(0xdeadbeef), "0000000000000000deadbeef");
    assert_eq!(
        id_to_hex(0xffffffffffffffffffffffff),
        "ffffffffffffffffffffffff"
    );
}

#[test]
fn parse_accepts_exactly_24_hex_digits() {
    assert_eq!(parse_hex_id("000000000000000000000001"), Some(1));
    assert_eq!(parse_hex_id("0000000000000000DEADBEEF"), Some(0xdeadbeef));
    assert_eq!(parse_hex_id("ffffffffffffffffffffffff"), Some(0xffffffffffffffffffffffff));
    assert_eq!(parse_hex_id(""), None);
    assert_eq!(parse_hex_id("1"), None);
    assert_eq!(parse_hex_id("00000000000000000000000g"), None);
    assert_eq!(parse_hex_id("0000000000000000000000001"), None);
    assert_eq!(parse_hex_id("0000000000000000000000-1"), None);
}

#[test]
fn hex_round_trip() {
    for v in [0u128, 1, 42, 0xabcdef, 0xffffffffffffffffffffffff] {
        assert_eq!(parse_hex_id(&id_to_hex(v)), Some(v));
    }
}

#[test]
fn instants_render_in_rfc3339_with_milliseconds() {
    assert_eq!(format_instant(0).as_deref(), Some("1970-01-01T00:00:00.000Z"));
    assert_eq!(format_instant(1).as_deref(), Some("1970-01-01T00:00:00.001Z"));
    assert_eq!(
        format_instant(-1000).as_deref(),
        Some("1969-12-31T23:59:59.000Z")
    );
    assert_eq!(format_instant(MIN_TS).as_deref(), Some("0001-01-01T00:00:00.000Z"));
    assert_eq!(format_instant(MAX_TS).as_deref(), Some("9999-12-31T23:59:59.999Z"));
    assert_eq!(format_instant(MAX_TS + 1), None);
    assert_eq!(format_instant(MIN_TS - 1), None);
    assert_eq!(format_instant(i64::MAX), None);
}

use easynet::geoip::{CountryCodes, GeoIpMatcher};
use easynet::ip::{is_cgnat, is_private_ip, Ipv4Addr};

#[test]
fn test_is_private_ip() {
    assert!(is_private_ip(Ipv4Addr::new(10, 0, 0, 1)));
    assert!(is_private_ip(Ipv4Addr::new(172, 16, 0, 1)));
    assert!(is_private_ip(Ipv4Addr::new(192, 168, 0, 1)));
    assert!(is_private_ip(Ipv4Addr::new(127, 0, 0, 1)));
    assert!(is_private_ip(Ipv4Addr::new(169, 254, 1, 1)));
    assert!(is_private_ip(Ipv4Addr::new(0, 0, 0, 0)));
    assert!(is_private_ip(Ipv4Addr::new(255, 255, 255, 255)));
    assert!(is_private_ip(Ipv4Addr::new(224, 0, 0, 1)));
    assert!(is_private_ip(Ipv4Addr::new(100, 64, 0, 1)));
    assert!(is_private_ip(Ipv4Addr::new(100, 127, 255, 255)));

    assert!(!is_private_ip(Ipv4Addr::new(8, 8, 8, 8)));
    assert!(!is_private_ip(Ipv4Addr::new(1, 1, 1, 1)));
    assert!(!is_private_ip(Ipv4Addr::new(100, 63, 255, 255)));
    assert!(!is_private_ip(Ipv4Addr::new(100, 128, 0, 0)));
}

#[test]
fn test_matches_private_without_database() {
    let matcher = GeoIpMatcher::without_database();

    assert!(matcher.matches(Ipv4Addr::new(10, 0, 0, 1), "PRIVATE"));
    assert!(matcher.matches(Ipv4Addr::new(192, 168, 1, 1), "private"));
    assert!(matcher.matches(Ipv4Addr::new(127, 0, 0, 1), "Private"));
    assert!(!matcher.matches(Ipv4Addr::new(8, 8, 8, 8), "PRIVATE"));
}

#[test]
fn private_with_bytes_that_are_no_database() {
    let matcher = GeoIpMatcher::from_database_bytes(Vec::new());
    assert!(!matcher.has_database());
    // PRIVATE should still work and not touch the database
    assert!(matcher.matches(Ipv4Addr::new(10, 0, 0, 1), "PRIVATE"));
    assert!(!matcher.matches(Ipv4Addr::new(8, 8, 8, 8), "PRIVATE"));
}

#[test]
fn test_without_database_country_code_always_false() {
    let matcher = GeoIpMatcher::without_database();

    assert!(!matcher.matches(Ipv4Addr::new(8, 8, 8, 8), "US"));
    assert!(!matcher.matches(Ipv4Addr::new(1, 1, 1, 1), "CN"));
    assert!(!matcher.matches(Ipv4Addr::new(223, 5, 5, 5), "CN"));
}

#[test]
fn cgnat_range_edges() {
    assert!(is_cgnat(Ipv4Addr::new(100, 64, 0, 0)));
    assert!(is_cgnat(Ipv4Addr::new(100, 127, 255, 255)));
    assert!(!is_cgnat(Ipv4Addr::new(100, 63, 255, 255)));
    assert!(!is_cgnat(Ipv4Addr::new(100, 128, 0, 0)));
}

#[test]
fn country_codes_compare_in_uppercase() {
    let codes = CountryCodes {
        country: Some("US".to_string()),
        registered: None,
        represented: Some("DE".to_string()),
    };
    assert!(codes.matches_code("us"));
    assert!(codes.matches_code("De"));
    assert!(!codes.matches_code("CN"));
}

#[test]
fn database_path_skips_blank_paths() {
    assert_eq!(GeoIpMatcher::database_path(Some("rules/geo.mmdb")), Some("rules/geo.mmdb"));
    assert_eq!(GeoIpMatcher::database_path(Some("   ")), None);
    assert_eq!(GeoIpMatcher::database_path(None), None);
}

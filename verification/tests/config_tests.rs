use circuitdeck_backend::config::{normalize, parse_cors_origins, parse_secs, Config};
use circuitdeck_backend::text::{parse_i64, parse_u64, IntErrorKind};

#[test]
fn normalize_strips_trailing_slash() {
    assert_eq!(normalize("http://p:9090/"), "http://p:9090");
    assert_eq!(normalize("http://p:9090"), "http://p:9090");
    assert_eq!(normalize("  http://p:9090/ "), "http://p:9090");
}

#[test]
fn normalize_strips_every_trailing_slash() {
    assert_eq!(normalize("http://p//"), "http://p");
    assert_eq!(normalize("\t/\n"), "");
    assert_eq!(normalize("a /"), "a ");
}

#[test]
fn defaults_apply_when_unset() {
    let c = Config::from_settings(None, None, None, None, None).ok().unwrap();
    assert_eq!(c.bind_addr, "0.0.0.0:8080");
    assert_eq!(c.prometheus_url, "http://localhost:9090");
    assert_eq!(c.query_timeout_secs, 10);
    assert_eq!(c.ping_timeout_secs, 3);
    assert!(c.cors_origins.is_empty());
}

#[test]
fn settings_override_defaults() {
    let c = Config::from_settings(
        Some("127.0.0.1:9000".to_string()),
        Some(" http://prom:9090/ ".to_string()),
        Some("+25".to_string()),
        Some("7".to_string()),
        Some(" https://a.example , ,https://b.example,".to_string()),
    )
    .ok()
    .unwrap();
    assert_eq!(c.bind_addr, "127.0.0.1:9000");
    assert_eq!(c.prometheus_url, "http://prom:9090");
    assert_eq!(c.query_timeout_secs, 25);
    assert_eq!(c.ping_timeout_secs, 7);
    assert_eq!(c.cors_origins, vec!["https://a.example".to_string(), "https://b.example".to_string()]);
}

#[test]
fn bad_timeouts_are_reported_in_order() {
    let e = match Config::from_settings(None, None, Some("ten".to_string()), Some("".to_string()), None) {
        Err(e) => e,
        Ok(_) => panic!("expected an error"),
    };
    assert_eq!(e.key, "PROMETHEUS_QUERY_TIMEOUT_SECS");
    assert_eq!(e.message(), "PROMETHEUS_QUERY_TIMEOUT_SECS: invalid unsigned integer: invalid digit found in string");
    let e = match Config::from_settings(None, None, None, Some("".to_string()), None) {
        Err(e) => e,
        Ok(_) => panic!("expected an error"),
    };
    assert_eq!(e.message(), "PROMETHEUS_PING_TIMEOUT_SECS: invalid unsigned integer: cannot parse integer from empty string");
    let e = match parse_secs("K", Some("18446744073709551616".to_string()), 1) {
        Err(e) => e,
        Ok(_) => panic!("expected an error"),
    };
    assert_eq!(e.message(), "K: invalid unsigned integer: number too large to fit in target type");
}

#[test]
fn unsigned_parse_matches_std() {
    for s in ["", "+", "-", "0", "+7", "-7", "42", "0042", "18446744073709551615", "18446744073709551616",
              "99999999999999999999x", "1a", " 1", "1_000", "١"] {
        let ours = parse_u64(s);
        let std = s.parse::<u64>();
        match (ours, std) {
            (Ok(a), Ok(b)) => assert_eq!(a, b, "{s}"),
            (Err(k), Err(e)) => {
                let expected = match e.kind() {
                    std::num::IntErrorKind::Empty => IntErrorKind::Empty,
                    std::num::IntErrorKind::InvalidDigit => IntErrorKind::InvalidDigit,
                    std::num::IntErrorKind::PosOverflow => IntErrorKind::PosOverflow,
                    _ => IntErrorKind::NegOverflow,
                };
                assert_eq!(k, expected, "{s}");
            }
            _ => panic!("disagreement on {s:?}"),
        }
    }
}

#[test]
fn signed_parse_matches_std() {
    for s in ["", "+", "-", "0", "-0", "+12", "-12", "9223372036854775807", "9223372036854775808",
              "-9223372036854775808", "-9223372036854775809", "1.5", "1e3", "x"] {
        assert_eq!(parse_i64(s), s.parse::<i64>().ok(), "{s}");
    }
}

#[test]
fn cors_list_is_trimmed_and_skips_empty_entries() {
    assert!(parse_cors_origins("").is_empty());
    assert!(parse_cors_origins(" , ").is_empty());
    assert_eq!(parse_cors_origins("a"), vec!["a".to_string()]);
    assert_eq!(parse_cors_origins(" a ,b\u{3000},"), vec!["a".to_string(), "b".to_string()]);
}

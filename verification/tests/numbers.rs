use endgame::double::nearest_double;
use endgame::ids::{contains_id, insert_id, remove_id};
use endgame::json::{Json, parse_json};
use endgame::numeral::{parse_percent, parse_seconds_of, parse_truncated};
use endgame::paths::{extension, file_name, join_path, parent, with_extension};
use endgame::text::{lines, trim, words};

fn numerals() -> Vec<String> {
    let mut found: Vec<String> = [
        "", ".", "1.", ".5", "+3", "-3.7", "1e3", "1E-2", "1e400", "-1e400", "inf", "-infinity",
        "nan", "NaN", "0x10", "1_000", " 1", "9007199254740993", "9223372036854775807",
        "9223372036854775808", "18446744073709551615", "18446744073709551616", "99.99999999999999",
        "100.00000000000001", "0.1e1", "12e", "e5", "1.5.2", "-0", "4503599627370495.5",
        "4503599627370496.5", "2.9999999999999999999", "123456789012345678901234567890",
        "187.923000",
    ]
    .iter()
    .map(|text| text.to_string())
    .collect();
    let mut state: u64 = 1_442_695_040_888_963_407;
    for _ in 0..4_000 {
        state = state.wrapping_mul(6_364_136_223_846_793_005).wrapping_add(7);
        let whole = state >> (state % 61);
        state = state.wrapping_mul(6_364_136_223_846_793_005).wrapping_add(7);
        let part = state >> (state % 50);
        found.push(format!("{whole}.{part}"));
        found.push(format!("{whole}e-{}", part % 30));
        found.push(format!("{part}.{whole}e{}", whole % 25));
    }
    found
}

#[test]
fn truncated_seconds_are_those_of_doubles() {
    for text in numerals() {
        let expected = text.parse::<f64>().ok().map(|value| value as i64);
        assert_eq!(parse_truncated(&text), expected, "{text}");
    }
}

#[test]
fn percentages_are_those_of_doubles() {
    for text in numerals() {
        let expected = text
            .parse::<f64>()
            .ok()
            .map(|value| value.clamp(0.0, 100.0) as u8);
        assert_eq!(parse_percent(&text), expected, "{text}");
    }
}

#[test]
fn lengths_are_those_of_doubles() {
    for text in numerals() {
        let expected = text.parse::<f64>().ok().map(|value| {
            if value.is_finite() && value > 0.0 {
                value.min(i32::MAX as f64).floor() as u64
            } else {
                0
            }
        });
        assert_eq!(parse_seconds_of(&text), expected, "{text}");
    }
}

#[test]
fn whole_numbers_round_to_doubles() {
    for value in [0, 1, (1 << 53) - 1, (1 << 53) + 1, (1 << 54) + 2, (1 << 54) + 6, u64::MAX] {
        assert_eq!(nearest_double(value), value as f64 as u128);
    }
}

#[test]
fn paths_are_taken_apart() {
    assert_eq!(join_path("/a/b", "c.txt"), "/a/b/c.txt");
    assert_eq!(join_path("/a/b", "/c"), "/c");
    assert_eq!(parent("/a/b/c").as_deref(), Some("/a/b"));
    assert_eq!(file_name("/a/b/c.tar.gz").as_deref(), Some("c.tar.gz"));
    assert_eq!(extension("/a/b/c.tar.gz").as_deref(), Some("gz"));
    assert_eq!(extension(".hidden"), None);
    assert_eq!(with_extension("/a/b.txt", "jpg"), "/a/b.jpg");
}

#[test]
fn texts_are_taken_apart() {
    assert_eq!(trim("\u{a0} a b \n"), "a b");
    assert_eq!(words(" a\tb  c "), ["a", "b", "c"]);
    assert_eq!(lines("a\r\nb\n\nc"), ["a", "b", "", "c"]);
}

#[test]
fn json_is_read_as_it_is_written() {
    let Ok(Json::Object(members)) = parse_json(r#"{"b": [1, 2.5], "a": "x"}"#) else {
        panic!("expected an object");
    };
    assert_eq!(members.len(), 2);
    let found = members.iter().find(|(name, _)| name == "a").unwrap();
    assert_eq!(found.1.text().map(|text| text.to_string()), Some("x".to_string()));
    assert!(parse_json("{").is_err());
}

#[test]
fn ordered_ids_stay_unique() {
    let mut ids = Vec::new();
    assert!(insert_id(&mut ids, 5));
    assert!(insert_id(&mut ids, 2));
    assert!(!insert_id(&mut ids, 5));
    assert_eq!(ids, [2, 5]);
    assert!(contains_id(&ids, 2));
    assert!(remove_id(&mut ids, 2));
    assert!(!remove_id(&mut ids, 2));
}

use aoc::leaderboard::{Level, Member, StarInfo};
use aoc::text::{
    compare, decimal_string, has_suffix, padded, parse_decimal, parse_unsigned, same_text, Order,
};
use aoc::time::{instant_text, parse_instant, Timestamp};

#[test]
fn decimal_numbers_are_read() {
    assert_eq!(parse_decimal("0"), Some(0));
    assert_eq!(parse_decimal("2018"), Some(2018));
    assert_eq!(parse_decimal("+7"), Some(7));
    assert_eq!(parse_decimal("000000000000042"), Some(42));
    assert_eq!(parse_decimal("4294967295"), Some(u32::MAX));
    assert_eq!(parse_decimal("4294967296"), None);
    assert_eq!(parse_decimal("99999999999999999999999999"), None);
    for text in ["", "+", "-1", "1-", "+-1", "12a", "a12", " 1", "1 ", "１", "1.5", "0x10", "+ 1"] {
        assert_eq!(parse_decimal(text), None, "{:?}", text);
    }
    assert_eq!(parse_unsigned("17"), Some(17));
    assert_eq!(parse_unsigned("+17"), None);
    assert_eq!(parse_unsigned(""), None);
    assert_eq!(parse_unsigned("é"), None);
}

#[test]
fn decimal_numbers_are_written() {
    assert_eq!(decimal_string(0), "0");
    assert_eq!(decimal_string(9), "9");
    assert_eq!(decimal_string(10), "10");
    assert_eq!(decimal_string(4_294_967_295), "4294967295");
    assert_eq!(decimal_string(u128::MAX), "340282366920938463463374607431768211455");
    for n in [0u32, 1, 25, 1_000, 99_999, u32::MAX] {
        assert_eq!(parse_decimal(&decimal_string(n as u128)), Some(n));
    }
}

#[test]
fn text_is_padded_on_the_left() {
    assert_eq!(padded("7", 3, false), "  7");
    assert_eq!(padded("7", 2, true), "07");
    assert_eq!(padded("123", 3, false), "123");
    assert_eq!(padded("1234", 3, true), "1234");
    assert_eq!(padded("", 2, true), "00");
    assert_eq!(padded("é", 2, false), " é");
    assert_eq!(padded("x", 0, false), "x");
}

#[test]
fn strings_are_ordered_character_by_character() {
    assert_eq!(compare("a", "b"), Order::Before);
    assert_eq!(compare("b", "a"), Order::After);
    assert_eq!(compare("a", "a"), Order::Same);
    assert_eq!(compare("", ""), Order::Same);
    assert_eq!(compare("", "a"), Order::Before);
    assert_eq!(compare("a", ""), Order::After);
    assert_eq!(compare("ab", "abc"), Order::Before);
    assert_eq!(compare("10", "9"), Order::Before);
    assert_eq!(compare("Z", "a"), Order::Before);
    assert_eq!(compare("z", "é"), Order::Before);
    assert_eq!(compare("😀", "é"), Order::After);
    let words = ["", "10", "9", "a", "ab", "abc", "b", "é", "😀"];
    for (i, a) in words.iter().enumerate() {
        for (j, b) in words.iter().enumerate() {
            let wanted = match a.cmp(b) {
                std::cmp::Ordering::Less => Order::Before,
                std::cmp::Ordering::Equal => Order::Same,
                std::cmp::Ordering::Greater => Order::After,
            };
            assert_eq!(compare(a, b), wanted, "{} {}", i, j);
            assert_eq!(same_text(a, b), i == j);
        }
    }
}

#[test]
fn suffixes_are_found() {
    assert!(has_suffix("x.json", ".json"));
    assert!(has_suffix(".json", ".json"));
    assert!(has_suffix("x", ""));
    assert!(has_suffix("", ""));
    assert!(!has_suffix("json", ".json"));
    assert!(!has_suffix("x.jso", ".json"));
    assert!(!has_suffix("x.json ", ".json"));
    assert!(has_suffix("é😀", "😀"));
    assert!(!has_suffix("😀é", "😀"));
}

#[test]
fn entries_are_kept_in_ascending_order_of_their_keys() {
    let mut member = Member::new("1".to_string(), "M".to_string(), 0, 0, 0, Timestamp::new(0, 0));
    for (key, secs) in [("m", 1), ("b", 2), ("z", 3), ("a", 4), ("n", 5), ("b", 6), ("", 7)] {
        member.complete_day(key.to_string(), Level::new(StarInfo::new(Timestamp::new(secs, 0)), None));
    }
    let listed: Vec<(&str, i64)> = member
        .completed_days()
        .iter()
        .map(|(key, level)| (key.as_str(), level.one().get_star_ts.secs))
        .collect();
    assert_eq!(listed, vec![("", 7), ("a", 4), ("b", 6), ("m", 1), ("n", 5), ("z", 3)]);
    assert_eq!(member.level("a").map(|level| level.one().get_star_ts.secs), Some(4));
    assert_eq!(member.level("z").map(|level| level.one().get_star_ts.secs), Some(3));
    assert_eq!(member.level("").map(|level| level.one().get_star_ts.secs), Some(7));
    assert!(member.level("c").is_none());
    assert!(member.level("zz").is_none());
    let copy = member.clone();
    assert_eq!(copy, member);
    assert!(copy.same_as(&member));
}

#[test]
fn instants_are_written_in_utc() {
    assert_eq!(instant_text(Timestamp::new(0, 0)), Some("1970-01-01T00:00:00Z".to_string()));
    assert_eq!(
        instant_text(Timestamp::new(1_543_640_400, 0)),
        Some("2018-12-01T05:00:00Z".to_string())
    );
    assert_eq!(
        instant_text(Timestamp::new(1_543_640_400, 120_000_000)),
        Some("2018-12-01T05:00:00.120Z".to_string())
    );
    assert_eq!(
        instant_text(Timestamp::new(-1, 999_999_999)),
        Some("1969-12-31T23:59:59.999999999Z".to_string())
    );
    assert_eq!(instant_text(Timestamp::new(i64::MAX, 0)), None);
    assert_eq!(instant_text(Timestamp::new(0, 2_000_000_000)), None);
}

#[test]
fn instants_are_read_with_their_offsets() {
    assert_eq!(parse_instant("2018-12-01T05:00:00Z"), Some(Timestamp::new(1_543_640_400, 0)));
    assert_eq!(parse_instant("2018-12-01T00:00:00-05:00"), Some(Timestamp::new(1_543_640_400, 0)));
    assert_eq!(
        parse_instant("2018-12-01T06:00:00.5+01:00"),
        Some(Timestamp::new(1_543_640_400, 500_000_000))
    );
    assert_eq!(parse_instant("1969-12-31T23:59:59Z"), Some(Timestamp::new(-1, 0)));
    assert_eq!(parse_instant("2018-12-01"), None);
    assert_eq!(parse_instant("1543640400"), None);
    assert_eq!(parse_instant(""), None);
    for at in [Timestamp::new(0, 0), Timestamp::new(1_543_640_400, 1), Timestamp::new(-86_401, 999)] {
        assert_eq!(parse_instant(&instant_text(at).unwrap()), Some(at));
    }
}

use asgard::calendar::{
    day_of_month, days_in_month, have_days_passed, max_day, minus_days, month_start_str,
    month_to_date_window, parse_day, CostWindow,
};
use asgard::json::Json;
use asgard::sorted_map::SortedMap;
use asgard::text::{
    chars_of, contains, copy_option, copy_texts, decimal_int_text, decimal_text, ends_with,
    is_blank, is_white_space, join, list_contains, padded4_text, read_int, split, split_once,
    starts_with, strip_prefix, strip_suffix, text_before, text_between, text_eq, trim,
    trim_end_matches,
};
use asgard::usd::Usd;

// --- text -------------------------------------------------------------------

#[test]
fn white_space_is_what_the_standard_says() {
    for n in 0..=0x10ffffu32 {
        if let Some(c) = char::from_u32(n) {
            assert_eq!(is_white_space(c), c.is_whitespace(), "U+{n:04X}");
        }
    }
}

#[test]
fn text_functions_agree_with_the_standard() {
    let samples = [
        "", " ", "a", " a ", "a,b", ",a,,b,", "\u{a0}x\u{3000}", "proj-2026-0001", "ßé\t\n", "aaa",
        "-", "--a--", "\u{feff}a",
    ];
    for s in samples {
        assert_eq!(trim(s), s.trim());
        assert_eq!(is_blank(s), s.trim().is_empty());
        assert_eq!(chars_of(s), s.chars().collect::<Vec<char>>());
        assert_eq!(split(s, ','), s.split(',').map(str::to_string).collect::<Vec<String>>());
        assert_eq!(
            split_once(s, ','),
            s.split_once(',').map(|(a, b)| (a.to_string(), b.to_string()))
        );
        assert_eq!(trim_end_matches(s, '-'), s.trim_end_matches('-'));
        assert_eq!(ends_with(s, 'a'), s.ends_with('a'));
        for p in ["", "a", "proj-", ",", "aa"] {
            assert_eq!(contains(s, p), s.contains(p));
            assert_eq!(starts_with(s, p), s.starts_with(p));
            assert_eq!(strip_prefix(s, p), s.strip_prefix(p).map(str::to_string));
            assert_eq!(strip_suffix(s, p), s.strip_suffix(p).map(str::to_string));
        }
        for t in samples {
            assert_eq!(text_before(s, t), s < t, "{s:?} {t:?}");
            assert_eq!(text_eq(s, t), s == t);
        }
    }
    assert_eq!(text_between(&chars_of("abcd"), 1, 3), "bc");
    assert_eq!(copy_option(&Some("x".to_string())), Some("x".to_string()));
    let list = vec!["a".to_string(), "b".to_string()];
    assert_eq!(copy_texts(&list), list);
    assert_eq!(join(&list, ", "), "a, b");
    assert_eq!(join(&vec![], ", "), "");
    assert!(list_contains(&list, "b") && !list_contains(&list, "c"));
}

#[test]
fn numbers_are_written_and_read() {
    for n in [0u64, 7, 10, 99, 12345, u64::MAX] {
        assert_eq!(decimal_text(n), n.to_string());
        assert_eq!(padded4_text(n), format!("{n:04}"));
    }
    for n in [0i64, 1, -1, 42, i64::MAX, i64::MIN] {
        assert_eq!(decimal_int_text(n), n.to_string());
        assert_eq!(read_int(&n.to_string()), Some(n));
    }
    for s in ["", "-", "1.0", "01", "-0", "9223372036854775808", "a", " 1"] {
        assert_eq!(read_int(s), None, "{s:?}");
    }
}

// --- amounts ----------------------------------------------------------------

#[test]
fn amounts_compare_as_numbers_do() {
    let values = [
        0.0,
        -0.0,
        1.0,
        -1.0,
        0.1,
        1e300,
        -1e300,
        f64::INFINITY,
        f64::NEG_INFINITY,
        f64::NAN,
        f64::MIN_POSITIVE,
        5e-324,
    ];
    for a in values {
        let x = Usd { bits: a.to_bits() };
        assert_eq!(x.is_negative(), a < 0.0);
        assert_eq!(x.is_positive(), a > 0.0);
        assert_eq!(x.is_numeric(), !a.is_nan());
        assert_eq!(x.abs().bits, a.abs().to_bits());
        for b in values {
            let y = Usd { bits: b.to_bits() };
            assert_eq!(x.is_less(&y), a < b);
            assert_eq!(x.is_within(&y), a <= b);
            assert_eq!(x.is_before(&y), a.total_cmp(&b).is_lt());
        }
    }
    assert_eq!(f64::from_bits(Usd::zero().bits), 0.0);
}

// --- sorted maps ------------------------------------------------------------

#[test]
fn a_sorted_map_keeps_its_keys_in_order() {
    let mut m: SortedMap<u64> = SortedMap::new();
    assert!(m.is_empty());
    for (i, k) in ["pear", "apple", "fig", "apple"].iter().enumerate() {
        m.insert(k, i as u64);
    }
    assert_eq!(m.keys(), vec!["apple", "fig", "pear"]);
    assert_eq!(m.get("apple"), Some(&3));
    assert_eq!(m.key_at(1), "fig");
    assert_eq!(m.value_at(1), &2);
    assert_eq!(m.take("fig"), Some(2));
    assert_eq!(m.take("fig"), None);
    assert!(!m.contains("fig"));
    assert_eq!(m.len(), 2);
}

// --- JSON -------------------------------------------------------------------

#[test]
fn json_text_is_read_and_written() {
    let text = "{\"a\":[1,-2.5,1e3,true,null],\"b\":{\"c\":\"\\u00e9\\n\"},\"z\":\"\"}";
    let j = Json::parse(text).unwrap();
    assert_eq!(j.get("b").unwrap().get_str("c"), Some("é\n"));
    assert_eq!(j.get("a").unwrap().get_item(0).unwrap().as_i64(), Some(1));
    assert!(matches!(j.get("a").unwrap().get_item(3), Some(Json::Bool(true))));
    assert!(j.get("a").unwrap().get_item(5).is_none());
    let again = Json::parse(&j.text()).unwrap();
    assert!(again.same(&j));
    assert!(j.copy().same(&j));
    let alike = |a: &str, b: &str| Json::parse(a).unwrap().same(&Json::parse(b).unwrap());
    assert!(alike("[0.0]", "[-0.0]") && alike("{\"a\":-0.0}", "{\"a\":0.0}"));
    assert!(!alike("0", "0.0") && !alike("1.0", "-1.0") && !alike("{\"a\":1}", "{}"));
    let mut o = Json::object();
    o.insert_str("b", "x\"y");
    o.insert("a", Json::integer(-3));
    o.insert("a", Json::integer(4));
    assert_eq!(o.text(), "{\"a\":4,\"b\":\"x\\\"y\"}");
    let mut keys = o.keys();
    keys.sort();
    assert_eq!(keys, vec!["a", "b"]);
    assert!(o.is_object() && !Json::Null.is_object());
    assert_eq!(o.get_str_or_empty("none"), "");
    assert_eq!(Json::strings(&vec!["p".to_string()]).text(), "[\"p\"]");
    assert_eq!(Json::string("q").as_str(), Some("q"));
    assert_eq!(Json::Null.text(), "null");
}

#[test]
fn broken_json_is_refused_with_a_reason() {
    for s in ["", "{", "[1,]", "nul", "{\"a\":1} x"] {
        match Json::parse(s) {
            Ok(_) => panic!("{s:?} was read"),
            Err(why) => assert!(!why.is_empty()),
        }
    }
}

#[test]
fn later_members_win_in_an_overlay() {
    let mut base = Json::parse("{\"a\":1,\"b\":{\"x\":1}}").unwrap();
    base.overlay(&Json::parse("{\"b\":2,\"c\":3}").unwrap());
    assert_eq!(base.text(), "{\"a\":1,\"b\":2,\"c\":3}");
}

// --- the calendar -----------------------------------------------------------

#[test]
fn days_are_counted_over_months_and_years() {
    assert_eq!(month_start_str("2026-06-17"), "2026-06-01");
    assert_eq!(minus_days("2026-03-01", 1).unwrap(), "2026-02-28");
    assert_eq!(minus_days("2024-03-01", 1).unwrap(), "2024-02-29");
    assert_eq!(minus_days("2026-01-01", 1).unwrap(), "2025-12-31");
    assert_eq!(minus_days("2026-12-31", -1).unwrap(), "2027-01-01");
    assert_eq!(minus_days("2026-06-17", i64::MAX), None);
    let w = month_to_date_window("2026-06-17").unwrap();
    assert_eq!((w.start.as_str(), w.end.as_str()), ("2026-06-01", "2026-06-18"));
    let w = CostWindow::current_month("2026-12-31").unwrap();
    assert_eq!((w.start.as_str(), w.end.as_str()), ("2026-12-01", "2027-01-01"));
    for (d, n) in [
        ("2026-01-05", 31),
        ("2026-02-05", 28),
        ("2024-02-05", 29),
        ("2000-02-05", 29),
        ("1900-02-05", 28),
        ("2026-04-05", 30),
        ("2026-12-05", 31),
    ] {
        assert_eq!(days_in_month(d), n);
    }
    assert_eq!(day_of_month("2026-06-17"), 17);
    assert_eq!(max_day("2026-06-17", "2026-06-02"), "2026-06-17");
    let d = parse_day("2026-06-17");
    assert_eq!((d.year, d.month, d.day), (2026, 6, 17));
}

#[test]
fn what_is_no_day_counts_as_the_first_of_the_century() {
    let d = parse_day("yesterday");
    assert_eq!((d.year, d.month, d.day), (2000, 1, 1));
}

#[test]
fn days_pass_between_two_moments() {
    let t = "2026-06-01T00:00:00Z";
    assert!(!have_days_passed("2026-06-30T23:59:59Z", t, 30));
    assert!(have_days_passed("2026-07-01T00:00:00Z", t, 30));
    assert!(have_days_passed("2026-07-01T02:00:00+02:00", t, 30));
    assert!(!have_days_passed("nonsense", t, 30));
}

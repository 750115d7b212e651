use yt::json::Json;
use yt::number::{decimal_text, hex_of_bytes, hex_text, padded_text, parse_i64, parse_u64, signed_text};
use yt::paths::{config_path, now_secs, update_cache_path};
use yt::sorted::{comes_before, TextMap};
use yt::text;
use yt::wire;

// ---- texts ----

#[test]
fn texts_are_compared_and_searched() {
    assert!(text::same("a\u{e9}", "a\u{e9}"));
    assert!(!text::same("a", "A"));
    assert!(text::same_ignoring_case("Stra\u{df}E", "STRA\u{df}e"));
    assert!(!text::same_ignoring_case("\u{e9}", "\u{c9}"));
    assert!(text::contains("in progress", "prog"));
    assert!(text::contains("x", ""));
    assert!(!text::contains("", "x"));
    assert_eq!(text::find("a://b", "://"), 1);
    assert_eq!(text::find("ab", "://"), 2);
    assert!(text::any_digit("a1"));
    assert!(!text::any_digit("inf\u{0663}"));
    assert!(text::starts_with("Multi", "Mul"));
    assert!(text::ends_with("x[*]", "[*]"));
    assert_eq!(text::index_of("a-b", '-'), 1);
    assert_eq!(text::index_of_white("ab c"), 2);
    assert_eq!(text::index_of_white("abc"), 3);
}

#[test]
fn texts_are_cut_and_joined() {
    assert_eq!(text::trim(" \u{a0}x y\t\n"), "x y");
    assert_eq!(text::trim_end(" x \u{3000}"), " x");
    assert_eq!(text::trim_end_of("a//", '/'), "a");
    assert_eq!(text::trim_start_of("vva", 'v'), "a");
    assert_eq!(text::split("a..b", '.'), vec!["a", "", "b"]);
    assert_eq!(text::split("", '.'), vec![""]);
    assert_eq!(text::lines("a\r\nb\n\nc\r"), vec!["a", "b", "", "c\r"]);
    assert_eq!(text::lines(""), Vec::<String>::new());
    assert_eq!(text::join(&vec!["a".to_string(), "b".to_string()], ", "), "a, b");
    assert_eq!(text::join(&vec![], ", "), "");
    assert_eq!(text::take("h\u{e9}llo", 2), "h\u{e9}");
    assert_eq!(text::skip("h\u{e9}llo", 2), "llo");
    assert_eq!(text::lower("A\u{c9}z"), "a\u{c9}z");
}

// ---- numbers ----

#[test]
fn numbers_are_written() {
    assert_eq!(decimal_text(0), "0");
    assert_eq!(decimal_text(u128::MAX), u128::MAX.to_string());
    assert_eq!(signed_text(i128::MIN), i128::MIN.to_string());
    assert_eq!(padded_text(7, 4), "0007");
    assert_eq!(padded_text(-7, 4), "-007");
    assert_eq!(padded_text(12345, 4), "12345");
    assert_eq!(hex_text(255), "ff");
    assert_eq!(hex_text(0), "0");
    assert_eq!(hex_of_bytes(&[0, 10, 255]), "000aff");
}

#[test]
fn numbers_are_read_as_they_are_written() {
    for i in [0, 1, -1, 42, i64::MIN, i64::MAX] {
        assert_eq!(parse_i64(&signed_text(i as i128)), Some(i));
    }
    for n in [0, 7, u64::MAX] {
        assert_eq!(parse_u64(&decimal_text(n as u128)), Some(n));
    }
    for t in ["", "+", "-", "1 ", "1.0", "0x1", "9223372036854775808", "--1"] {
        assert_eq!(parse_i64(t), t.parse::<i64>().ok());
    }
    for t in ["+7", "-0", "007", "18446744073709551616", "-1"] {
        assert_eq!(parse_u64(t), t.parse::<u64>().ok());
        assert_eq!(parse_i64(t), t.parse::<i64>().ok());
    }
}

// ---- values and their text ----

#[test]
fn values_are_read_and_written() {
    let t = "{\"a\":[null,true,-5,18446744073709551615,1.5,\"x\\u0001\\\"\"],\"b\":{}}";
    let v = wire::parse(t).unwrap();
    assert_eq!(wire::to_text(&v), t);
    assert_eq!(
        wire::to_pretty_text(&wire::parse("{\"b\":[1],\"a\":{}}").unwrap()).unwrap(),
        "{\n  \"a\": {},\n  \"b\": [\n    1\n  ]\n}"
    );
    assert_eq!(wire::to_text(&Json::text("\u{8}\u{c}\n\r\t\\/\u{7f}")), "\"\\b\\f\\n\\r\\t\\\\/\u{7f}\"");
    assert!(wire::parse("[1,]").is_err());
    assert_eq!(
        wire::parse("nope").err().unwrap(),
        "expected ident at line 1 column 2"
    );
}

#[test]
fn the_later_member_counts() {
    let v = wire::parse("{\"a\":1,\"b\":2,\"a\":3}").unwrap();
    assert_eq!(v.member("a"), &Json::Integer(3));
    let v = Json::object().with("a", Json::Null).with("a", Json::Bool(true));
    assert_eq!(v.member("a").as_bool(), Some(true));
    assert_eq!(wire::to_text(&v), "{\"a\":true}");
    let many = Json::object()
        .with("b", Json::Integer(1))
        .with("a", Json::object().with("x", Json::Null).with("x", Json::text("y")))
        .with("b", Json::Integer(2))
        .with("c", Json::Null)
        .with("b", Json::Integer(3));
    assert_eq!(wire::to_text(&many), "{\"a\":{\"x\":\"y\"},\"b\":3,\"c\":null}");
    assert!(v.has("a"));
    assert!(!v.has("b"));
    assert_eq!(v.member("b"), &Json::Null);
    assert_eq!(Json::Null.member("a"), &Json::Null);
}

#[test]
fn values_are_looked_at() {
    let v = wire::parse("{\"s\":\"t\",\"n\":9223372036854775808,\"m\":-1,\"l\":[1],\"f\":1.0}").unwrap();
    assert_eq!(v.member("s").as_str(), Some("t"));
    assert_eq!(v.text_or("s", "?"), "t");
    assert_eq!(v.text_or("m", "?"), "?");
    assert_eq!(v.member("n").as_i64(), None);
    assert_eq!(v.member("n").as_u64(), Some(9223372036854775808));
    assert_eq!(v.member("m").as_i64(), Some(-1));
    assert_eq!(v.member("m").as_u64(), None);
    assert_eq!(v.member("f").as_i64(), None);
    assert_eq!(v.member("l").items().len(), 1);
    assert_eq!(v.member("s").items().len(), 0);
    assert_eq!(v.copy(), v);
}

#[test]
fn doubles_are_read() {
    assert_eq!(wire::parse_double("0.10"), Some(Json::Float("0.1".to_string())));
    assert_eq!(wire::parse_double("1e999"), Some(Json::Null));
    assert_eq!(wire::parse_double("inf"), None);
    assert_eq!(wire::parse_double("NaN"), None);
    for text in ["0.1", "-0.0", "1e300", "5e-324", "123456789.125", "2"] {
        let v = wire::parse_double(text).unwrap();
        let written = wire::to_text(&v);
        assert_eq!(v, Json::Float(written.clone()));
        assert_eq!(wire::parse_double(&written), Some(v));
    }
    assert_eq!(wire::parse_double("one"), None);
}

// ---- order ----

#[test]
fn maps_are_walked_in_order() {
    let mut m: TextMap<u8> = TextMap::new();
    for (k, v) in [("b", 1), ("a", 2), ("\u{10000}", 3), ("\u{ffff}", 4), ("b", 5), ("", 6)] {
        m.insert(k.to_string(), v);
    }
    assert_eq!(m.keys(), vec!["", "a", "b", "\u{ffff}", "\u{10000}"]);
    assert_eq!(m.get("b"), Some(&5));
    assert_eq!(m.get("c"), None);
    assert_eq!(m.len(), 5);
    assert_eq!(m.key_at(1), "a");
    assert_eq!(m.value_at(1), &2);
    assert!(comes_before("a", "ab"));
    assert!(!comes_before("a", "a"));
    assert!(comes_before("Z", "a"));
}

// ---- paths and time ----

#[test]
fn files_are_kept_in_the_configuration_directory() {
    assert_eq!(config_path(Some("/x"), Some("/h")), "/x/yt/config.json");
    assert_eq!(config_path(Some("/x/"), None), "/x/yt/config.json");
    assert_eq!(config_path(None, Some("/h")), "/h/.config/yt/config.json");
    assert_eq!(config_path(None, Some("")), ".config/yt/config.json");
    assert_eq!(config_path(Some(""), Some("/h")), "yt/config.json");
    assert_eq!(config_path(None, None), "yt/config.json");
    assert_eq!(update_cache_path(None, Some("/h")), "/h/.config/yt/update-check.json");
    assert_eq!(update_cache_path(None, None), "yt/update-check.json");
}

#[test]
fn paths_are_joined_the_way_of_std() {
    for dir in ["", "/", "a", "a/", "/b/c"] {
        let want = std::path::Path::new(dir).join("yt/config.json");
        assert_eq!(config_path(Some(dir), None), want.display().to_string());
        let want = std::path::Path::new(dir).join(".config").join("yt/config.json");
        assert_eq!(config_path(None, Some(dir)), want.display().to_string());
        let want = want.with_file_name("update-check.json");
        assert_eq!(update_cache_path(None, Some(dir)), want.display().to_string());
    }
}

#[test]
fn the_time_before_the_epoch_counts_as_zero() {
    assert_eq!(now_secs(Some(5)), 5);
    assert_eq!(now_secs(None), 0);
}

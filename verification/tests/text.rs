use avacity::modules::furniture::item_address;
use avacity::modules::location::join_text;
use avacity::text::{chars_of, i32_to_string, parse_i32, segment, split, string_from_chars};

#[test]
fn splitting_at_separators() {
    assert_eq!(split("h.r.info", '.'), vec!["h", "r", "info"]);
    assert_eq!(split("", '.'), vec![""]);
    assert_eq!(split("a..b.", '.'), vec!["a", "", "b", ""]);
    assert_eq!(segment("house_u1_2", '_', 2), Some("2".to_owned()));
    assert_eq!(segment("house_u1_2", '_', 3), None);
}

#[test]
fn numbers_to_text_and_back() {
    assert_eq!(i32_to_string(0), "0");
    assert_eq!(i32_to_string(-45), "-45");
    assert_eq!(i32_to_string(i32::MIN), "-2147483648");
    assert_eq!(i32_to_string(i32::MAX), "2147483647");
    assert_eq!(parse_i32("123"), Some(123));
    assert_eq!(parse_i32("+7"), Some(7));
    assert_eq!(parse_i32("-2147483648"), Some(i32::MIN));
    assert_eq!(parse_i32("2147483648"), None);
    assert_eq!(parse_i32(""), None);
    assert_eq!(parse_i32("-"), None);
    assert_eq!(parse_i32("1a"), None);
    assert_eq!(parse_i32(" 1"), None);
    for n in [0, 1, -1, 99, -1000, i32::MAX, i32::MIN] {
        assert_eq!(parse_i32(&i32_to_string(n)), Some(n));
    }
}

#[test]
fn characters_and_joins() {
    assert_eq!(chars_of("añb"), vec!['a', 'ñ', 'b']);
    assert_eq!(string_from_chars(&['x', 'é']), "xé");
    assert_eq!(join_text("ab", "cd"), "abcd");
    assert_eq!(item_address("chair", -3), "chair_-3");
}

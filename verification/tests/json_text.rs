use mjcore::text::i64_text;
use mjcore::text::is_number_literal;
use mjcore::text::u64_text;
use mjcore::value::mj_value;

#[test]
fn empty_containers() {
    assert_eq!(mj_value::new_map().to_json(), "{}");
    assert_eq!(mj_value::new_list().to_json(), "[]");
}

#[test]
fn scalars_render_as_json_literals() {
    let mut v = mj_value::new_map();
    v.set_bool("t", true);
    v.set_bool("f", false);
    v.set_i64("n", -5);
    v.set_u64("u", 7);
    v.set_str("s", "hi");
    v.set_f64_text("x", "1.5");
    assert_eq!(
        v.to_json(),
        "{\"t\":true,\"f\":false,\"n\":-5,\"u\":7,\"s\":\"hi\",\"x\":1.5}"
    );
}

#[test]
fn list_renders_in_order() {
    let mut v = mj_value::new_list();
    v.append_i64(1);
    v.append_i64(2);
    v.append_i64(3);
    assert_eq!(v.to_json(), "[1,2,3]");
}

#[test]
fn nested_containers_render_recursively() {
    let mut inner = mj_value::new_list();
    inner.append_u64(9);
    inner.append_str("s");
    let mut v = mj_value::new_map();
    v.set_value("l", &inner);
    let mut sub = mj_value::new_map();
    sub.set_bool("b", true);
    v.set_value("m", &sub);
    assert_eq!(v.to_json(), "{\"l\":[9,\"s\"],\"m\":{\"b\":true}}");
}

#[test]
fn strings_are_escaped() {
    let mut v = mj_value::new_list();
    v.append_str("a\"b\\c\nd\re\tf");
    assert_eq!(v.to_json(), "[\"a\\\"b\\\\c\\nd\\re\\tf\"]");
}

#[test]
fn control_characters_take_unicode_escapes() {
    let mut v = mj_value::new_list();
    v.append_str("\u{1}\u{1f}");
    assert_eq!(v.to_json(), "[\"\\u0001\\u001f\"]");
}

#[test]
fn overwrite_shows_only_latest_value() {
    let mut v = mj_value::new_map();
    v.set_i64("k", 1);
    v.set_i64("k", 2);
    assert_eq!(v.to_json(), "{\"k\":2}");
}

#[test]
fn integer_extremes_format_exactly() {
    assert_eq!(u64_text(0), "0");
    assert_eq!(u64_text(18446744073709551615), "18446744073709551615");
    assert_eq!(i64_text(-9223372036854775808), "-9223372036854775808");
    assert_eq!(i64_text(9223372036854775807), "9223372036854775807");
    assert_eq!(i64_text(0), "0");
    assert_eq!(i64_text(-1), "-1");
}

#[test]
fn narrow_widths_render_their_values() {
    let mut v = mj_value::new_list();
    v.append_i8(-128);
    v.append_u8(255);
    v.append_i16(-32768);
    v.append_u16(65535);
    v.append_i32(-2147483648);
    v.append_u32(4294967295);
    assert_eq!(v.to_json(), "[-128,255,-32768,65535,-2147483648,4294967295]");
}

#[test]
fn number_literals_accepted() {
    assert!(is_number_literal("0"));
    assert!(is_number_literal("-0"));
    assert!(is_number_literal("10"));
    assert!(is_number_literal("-10.25"));
    assert!(is_number_literal("1e5"));
    assert!(is_number_literal("1.5e-10"));
    assert!(is_number_literal("2E+3"));
    assert!(is_number_literal("0.0"));
}

#[test]
fn number_literals_rejected() {
    assert!(!is_number_literal(""));
    assert!(!is_number_literal("-"));
    assert!(!is_number_literal("01"));
    assert!(!is_number_literal("1."));
    assert!(!is_number_literal(".5"));
    assert!(!is_number_literal("1e"));
    assert!(!is_number_literal("1e+"));
    assert!(!is_number_literal("+1"));
    assert!(!is_number_literal("1a"));
    assert!(!is_number_literal("1.5.5"));
    assert!(!is_number_literal("NaN"));
    assert!(!is_number_literal("inf"));
}

#[test]
fn float_text_round_trips_through_json() {
    let mut v = mj_value::new_map();
    v.set_f32_text("a", "0.25");
    v.set_f64_text("b", "-1e300");
    assert_eq!(v.to_json(), "{\"a\":0.25,\"b\":-1e300}");
}

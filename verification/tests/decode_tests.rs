use printf_decode::ArgValue;
use printf_decode::decode_message;

#[test]
fn no_specifier_template_is_echoed_without_sentinel() {
    let vals: Vec<ArgValue> = Vec::new();
    assert_eq!(decode_message("hello world%s", &vals), "hello world");
    assert_eq!(decode_message("%s", &vals), "");
    assert_eq!(decode_message("", &vals), "");
}

#[test]
fn round_trip_value_end() {
    let vals = vec![ArgValue::Int(42)];
    assert_eq!(decode_message("value=%d end%s", &vals), "value=42 end");
}

#[test]
fn signed_integers_render_in_decimal() {
    let vals = vec![ArgValue::Int(-42)];
    assert_eq!(decode_message("%d%s", &vals), "-42");
    let vals = vec![ArgValue::Int(i64::MIN)];
    assert_eq!(decode_message("%ld%s", &vals), "-9223372036854775808");
    let vals = vec![ArgValue::Int(0)];
    assert_eq!(decode_message("%i%s", &vals), "0");
}

#[test]
fn unsigned_integers_render_in_decimal() {
    let vals = vec![ArgValue::Uint(0)];
    assert_eq!(decode_message("%u%s", &vals), "0");
    let vals = vec![ArgValue::Uint(8)];
    assert_eq!(decode_message("%o%s", &vals), "8");
    let vals = vec![ArgValue::Uint(u64::MAX)];
    assert_eq!(decode_message("%lu%s", &vals), "18446744073709551615");
}

#[test]
fn hex_renders_uppercase_with_prefix() {
    let vals = vec![ArgValue::Uint(255)];
    assert_eq!(decode_message("%x%s", &vals), "0xFF");
    let vals = vec![ArgValue::Uint(0xdead_beef)];
    assert_eq!(decode_message("addr=%X!%s", &vals), "addr=0xDEADBEEF!");
    let vals = vec![ArgValue::Uint(0)];
    assert_eq!(decode_message("%x%s", &vals), "0x0");
}

#[test]
fn pointers_render_in_debug_form() {
    let vals = vec![ArgValue::Ptr(255)];
    assert_eq!(decode_message("%p%s", &vals), "0xff");
    let vals = vec![ArgValue::Ptr(0)];
    assert_eq!(decode_message("%p%s", &vals), "0x0");
}

#[test]
fn float_text_passes_through() {
    let vals = vec![ArgValue::Float(String::from("3.5"))];
    assert_eq!(decode_message("%f%s", &vals), "3.5");
}

#[test]
fn string_arguments_are_spliced_in() {
    let vals = vec![ArgValue::Str(Some(String::from("bob")))];
    assert_eq!(decode_message("name=%s!%s", &vals), "name=bob!");
}

#[test]
fn invalid_text_argument_is_omitted() {
    let vals = vec![ArgValue::Str(None)];
    assert_eq!(decode_message("name=%s!%s", &vals), "name=!");
}

#[test]
fn unsupported_kinds_render_a_diagnostic_placeholder() {
    let vals: Vec<ArgValue> = Vec::new();
    assert_eq!(
        decode_message("a%cb%s", &vals),
        "aUnsupported argument type: Characterb"
    );
    assert_eq!(
        decode_message("a%%b%s", &vals),
        "aUnsupported argument type: Literalb"
    );
    assert_eq!(
        decode_message("%q%s", &vals),
        "Unsupported argument type: Unknown"
    );
    assert_eq!(
        decode_message("%n%s", &vals),
        "Unsupported argument type: WriteBytes"
    );
}

#[test]
fn unsupported_kinds_consume_no_value() {
    // the character tag renders a placeholder and leaves the single value
    // for the integer tag that follows it
    let vals = vec![ArgValue::Int(7)];
    assert_eq!(
        decode_message("%c%d%s", &vals),
        "Unsupported argument type: Character7"
    );
}

#[test]
fn mismatched_or_missing_values_yield_empty_fragments() {
    let vals = vec![ArgValue::Uint(7)];
    assert_eq!(decode_message("a%db%s", &vals), "ab");
    let vals: Vec<ArgValue> = Vec::new();
    assert_eq!(decode_message("a%db%s", &vals), "ab");
}

#[test]
fn values_are_consumed_in_template_order() {
    let vals = vec![
        ArgValue::Int(1),
        ArgValue::Uint(2),
        ArgValue::Str(Some(String::from("three"))),
    ];
    assert_eq!(decode_message("%d,%u,%s.%s", &vals), "1,2,three.");
}

#[test]
fn adjacent_specifiers_compose_back_to_back() {
    let vals = vec![ArgValue::Int(1), ArgValue::Int(2)];
    assert_eq!(decode_message("%d%d%s", &vals), "12");
}

#[test]
fn decoding_twice_gives_identical_text() {
    let template = "value=%d end %x %s!%s";
    let vals = vec![
        ArgValue::Int(-3),
        ArgValue::Uint(48879),
        ArgValue::Str(Some(String::from("done"))),
    ];
    let first = decode_message(template, &vals);
    let second = decode_message(template, &vals);
    assert_eq!(first, second);
    assert_eq!(first, "value=-3 end 0xBEEF done!");
}

#[test]
fn oversized_appends_are_dropped_whole() {
    // a single literal segment past the message capacity is dropped, not
    // cut mid-way
    let mut template = "x".repeat(600);
    template.push_str("%s");
    let vals: Vec<ArgValue> = Vec::new();
    assert_eq!(decode_message(&template, &vals), "");

    // earlier appends that fit stay intact when a later one is dropped
    let mut template = "x".repeat(400);
    template.push_str("%d");
    template.push_str(&"y".repeat(200));
    template.push_str("%s");
    let vals = vec![ArgValue::Int(42)];
    let out = decode_message(&template, &vals);
    let mut expected = "x".repeat(400);
    expected.push_str("42");
    assert_eq!(out, expected);
}

#[test]
fn capacity_overflow_still_decodes_the_retained_prefix() {
    let mut template = String::new();
    for _ in 0..60 {
        template.push_str("%d ");
    }
    template.push_str("%s");
    let vals: Vec<ArgValue> = (0..60).map(|_| ArgValue::Int(1)).collect();
    let out = decode_message(&template, &vals);
    // only the fifty retained tags contribute values; the segment before
    // each retained tag but the first is the one-space separator
    let mut expected = String::from("1");
    for _ in 0..49 {
        expected.push_str(" 1");
    }
    assert_eq!(out, expected);
}

#[test]
fn non_ascii_literal_segments_survive() {
    let vals = vec![ArgValue::Int(5)];
    assert_eq!(decode_message("héllo wörld %d°%s", &vals), "héllo wörld 5°");
}

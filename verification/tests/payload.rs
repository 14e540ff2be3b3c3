use kafka_bridge::payload::{
    check_parser_limits, normalize, normalize_given, try_normalize, MAX_FRACTION_ZEROS,
};

fn digits(count: usize) -> String {
    let mut text = String::new();
    for _ in 0..count {
        text.push('0');
    }
    text
}

#[test]
fn raw_text_becomes_a_string_literal() {
    assert_eq!(normalize("raw-text".to_string()), "\"raw-text\"");
}

#[test]
fn json_object_passes_through() {
    assert_eq!(normalize("{\"a\":1}".to_string()), "{\"a\":1}");
}

#[test]
fn json_scalars_pass_through() {
    for text in ["123", "-1.5e3", "true", "false", "null", "\"quoted\"", "[1, 2, 3]", " {} "] {
        assert_eq!(normalize(text.to_string()), text);
    }
}

#[test]
fn empty_payload_becomes_the_empty_literal() {
    assert_eq!(normalize(String::new()), "\"\"");
}

#[test]
fn quotes_backslashes_and_control_characters_are_escaped() {
    assert_eq!(normalize("say \"hi\"".to_string()), "\"say \\\"hi\\\"\"");
    assert_eq!(normalize("a\\b".to_string()), "\"a\\\\b\"");
    assert_eq!(normalize("line\nbreak\ttab".to_string()), "\"line\\nbreak\\ttab\"");
    assert_eq!(normalize("bell\u{7}".to_string()), "\"bell\\u0007\"");
}

#[test]
fn text_beyond_ascii_is_kept_as_it_is() {
    assert_eq!(normalize("grüße, 世界".to_string()), "\"grüße, 世界\"");
}

#[test]
fn normalized_text_always_parses() {
    let inputs = [
        "hello",
        "",
        "{",
        "{\"a\":",
        "[1,2",
        "tru",
        "\"open",
        "a\"b\\c\u{0}\u{1f}\u{7f}",
        "{\"a\":1}",
        "42",
        "not json at all \r\n",
        "émoji 🎉",
    ];
    for input in inputs {
        let out = normalize(input.to_string());
        assert!(json::parse(&out).is_ok(), "{:?} gave {:?}", input, out);
    }
}

#[test]
fn normalizing_twice_changes_nothing_more() {
    for input in ["hello", "{\"a\":1}", "", "\"x\"", "a\nb"] {
        let once = normalize(input.to_string());
        let twice = normalize(once.clone());
        assert_eq!(once, twice);
    }
}

#[test]
fn non_json_text_comes_back_when_the_literal_is_parsed() {
    for input in ["raw-text", "a\"b\\c", "tab\there", "\u{1}\u{2}", "ünï"] {
        let out = normalize(input.to_string());
        let parsed = json::parse(&out).unwrap();
        assert_eq!(parsed.as_str(), Some(input));
    }
}

#[test]
fn the_verdict_decides_what_is_forwarded() {
    assert_eq!(normalize_given("{\"a\":1}".to_string(), true), "{\"a\":1}");
    assert_eq!(normalize_given("{\"a\":1}".to_string(), false), "\"{\\\"a\\\":1}\"");
    assert_eq!(normalize_given("raw".to_string(), false), "\"raw\"");
    assert_eq!(normalize_given("raw".to_string(), true), "raw");
}

#[test]
fn zero_fractions_up_to_the_limit_are_within_limits() {
    assert_eq!(MAX_FRACTION_ZEROS, 32748);
    assert!(check_parser_limits(""));
    assert!(check_parser_limits("no digits"));
    assert!(check_parser_limits("0."));
    assert!(check_parser_limits("0.0"));
    let fraction = format!("0.{}", digits(MAX_FRACTION_ZEROS));
    assert!(check_parser_limits(&fraction));
    assert_eq!(normalize(fraction.clone()), fraction);
}

#[test]
fn the_limit_leaves_room_for_every_mantissa() {
    let zeros = digits(MAX_FRACTION_ZEROS);
    for rest in [
        "1",
        "9",
        "10000000000000000000",
        "100000000000000000000000000000",
        "18446744073709551615",
        "184467440737095516159999",
        "99999999999999999999999999",
        "576460752303423499",
        "5764607523034234990",
        "12345678901234567890123",
        "1844674407370955161",
        "1e5",
        "1E-32768",
        "10000000000000000000e-99999",
    ] {
        for sign in ["", "-"] {
            let number = format!("{}0.{}{}", sign, zeros, rest);
            assert!(check_parser_limits(&number));
            assert_eq!(normalize(number.clone()), number);
            let list = format!("[{}, {}]", number, number);
            assert_eq!(normalize(list.clone()), list);
        }
    }
}

#[test]
fn a_zero_fraction_past_the_limit_is_outside_limits() {
    let fraction = format!("0.{}", digits(MAX_FRACTION_ZEROS + 1));
    assert!(!check_parser_limits(&fraction));
    assert_eq!(try_normalize(fraction.clone()), None);
    assert!(!check_parser_limits(&format!("[1, -{}1]", fraction)));
    assert!(!check_parser_limits(&format!("x{}", fraction)));
    assert!(!check_parser_limits(&format!(".{}", fraction)));
    assert!(!check_parser_limits(&format!("é{}é", fraction)));
}

#[test]
fn only_zeros_behind_a_zero_and_a_point_are_counted() {
    let zeros = digits(40000);
    let ones = "1".repeat(40000);
    for text in [
        zeros.clone(),
        format!(".{}", zeros),
        format!("3.{}", zeros),
        format!("10.{}", zeros),
        format!("-20.{}", zeros),
        format!("00.{}", zeros),
        format!("x.{}", zeros),
        format!("0.1{}", zeros),
        format!("0. {}", zeros),
        format!("0.{}", ones),
        format!("3.{}", ones),
        format!("x.{}", ones),
        format!("1e{}", zeros),
        format!("{}.5", ones),
    ] {
        assert!(check_parser_limits(&text));
        let out = normalize(text.clone());
        assert!(json::parse(&out).is_ok());
        if json::parse(&text).is_ok() {
            assert_eq!(out, text);
        } else {
            assert_eq!(out, format!("\"{}\"", text));
        }
    }
    let valid = format!("3.{}", ones);
    assert_eq!(normalize(valid.clone()), valid);
    let invalid = format!("x.{}", ones);
    assert_eq!(normalize(invalid.clone()), format!("\"{}\"", invalid));
}

#[test]
fn every_zero_fraction_is_counted_on_its_own() {
    let mut text = format!("0.{}", digits(MAX_FRACTION_ZEROS));
    text.push_str(&format!("x0.{}", digits(MAX_FRACTION_ZEROS)));
    assert!(check_parser_limits(&text));
    text.push('0');
    assert!(!check_parser_limits(&text));
}

#[test]
fn try_normalize_agrees_with_normalize_within_limits() {
    assert_eq!(try_normalize("raw-text".to_string()), Some("\"raw-text\"".to_string()));
    assert_eq!(try_normalize("[1]".to_string()), Some("[1]".to_string()));
}

#[test]
fn every_single_character_is_quoted_and_comes_back() {
    let mut chars: Vec<char> = (0u32..0x300).filter_map(char::from_u32).collect();
    chars.extend(['\u{7ff}', '\u{800}', '\u{d7ff}', '\u{e000}', '\u{fffd}', '\u{ffff}']);
    chars.extend(['\u{10000}', '\u{1f389}', '\u{10ffff}']);
    for ch in chars {
        let text = format!("x{}y", ch);
        let out = normalize(text.clone());
        let parsed = json::parse(&out).unwrap();
        assert_eq!(parsed.as_str(), Some(text.as_str()), "{:?}", ch);
    }
}

#[test]
fn json_with_space_around_it_is_kept_as_it_is() {
    for text in [" 1", "1 ", "\t[ ]\r\n", "\n{ \"a\" : [ true , null ] }\n"] {
        assert_eq!(normalize(text.to_string()), text);
    }
}

#[test]
fn almost_json_is_quoted() {
    assert_eq!(normalize("{a:1}".to_string()), "\"{a:1}\"");
    assert_eq!(normalize("[1,]".to_string()), "\"[1,]\"");
    assert_eq!(normalize("01".to_string()), "\"01\"");
    assert_eq!(normalize("1 2".to_string()), "\"1 2\"");
    assert_eq!(normalize("nul".to_string()), "\"nul\"");
    assert_eq!(normalize("'x'".to_string()), "\"'x'\"");
}

#[test]
fn awkward_input_is_judged_without_a_panic() {
    let mut inputs: Vec<String> = vec![
        "-", "+1", "-a", "1e", "1e+", "1e-", "1.e1", ".5", "1.", "0x10", "1e99999999999999999999",
        "-0.0e-0", "1E400", "123456789012345678901234567890", "0.123456789012345678901234567890",
        "12345678901234567890.12345678901234567890e12345678901234567890",
        "\"\\u\"", "\"\\u12\"", "\"\\ud800\"", "\"\\ud800\\u0041\"", "\"\\udc00\\ud800\"",
        "\"\\ud83c\\udf89\"", "\"\\x\"", "\"\\", "\"\\u00e9\\", "\"\u{0}\"", "\"\t\"", "\u{0}",
        "\u{feff}1", "é", "\"é", "tré", "[é]", "{\"a\"é}", "{\"a\":é}", "[1é]", "nulé", "\"\\é\"",
        "\"\\u00é0\"", "-é", "1.é", "1eé", "{é", "{\"a\":1,é", "{\"a\":1 é", "[1,é", "1 é",
        "{\"a\":1,\"a\":2}", "{\"\":{}}", "[[],[[]],{}]", "{\"a\":{\"b\":{\"c\":[null,true,false]}}}",
    ]
    .into_iter()
    .map(String::from)
    .collect();
    inputs.push("[".repeat(600));
    inputs.push(format!("{}{}", "[".repeat(512), "]".repeat(512)));
    inputs.push(format!("{}{}", "[".repeat(513), "]".repeat(513)));
    inputs.push(format!("{}1{}", "{\"a\":".repeat(600), "}".repeat(600)));
    inputs.push("9".repeat(MAX_FRACTION_ZEROS));
    inputs.push("9".repeat(40000));
    inputs.push(format!("-{}", "1".repeat(70000)));
    inputs.push(format!("{}.5e5", "1".repeat(70000)));
    inputs.push(format!("1e{}", "9".repeat(70000)));
    inputs.push(format!("1.5E-{}", "9".repeat(70000)));
    inputs.push(format!("[{}]", "7".repeat(32800)));
    inputs.push(format!("1e{}", "9".repeat(MAX_FRACTION_ZEROS)));
    inputs.push(format!("1e-{}", "9".repeat(MAX_FRACTION_ZEROS)));
    inputs.push(format!("0.{}", "9".repeat(MAX_FRACTION_ZEROS)));
    inputs.push(format!("3.{}", "0".repeat(70000)));
    inputs.push(format!("10.{}", "0".repeat(70000)));
    inputs.push(format!("x.{}", "0".repeat(70000)));
    inputs.push(format!("0.{}", "7".repeat(70000)));
    inputs.push(format!("\"0.{}\"", "0".repeat(MAX_FRACTION_ZEROS)));
    inputs.push(format!("{}.{}", "9".repeat(MAX_FRACTION_ZEROS), "9".repeat(MAX_FRACTION_ZEROS)));
    inputs.push(format!("{}.{}e{}", "1".repeat(MAX_FRACTION_ZEROS), "0".repeat(MAX_FRACTION_ZEROS), "9".repeat(MAX_FRACTION_ZEROS)));
    inputs.push(format!("0.{}e-{}", "0".repeat(MAX_FRACTION_ZEROS), "9".repeat(MAX_FRACTION_ZEROS)));
    inputs.push(format!("0.{}1e-{}", "0".repeat(MAX_FRACTION_ZEROS), "9".repeat(70000)));
    inputs.push(format!("[{}]", "0.0000000000,".repeat(5000)));
    inputs.push(format!("\"{}\"", "\\u0000".repeat(10000)));
    for input in inputs {
        assert!(check_parser_limits(&input));
        let out = normalize(input.clone());
        assert!(json::parse(&out).is_ok());
        if json::parse(&input).is_ok() {
            assert_eq!(out, input);
        }
    }
}

#[test]
fn control_characters_are_written_in_lower_case_hex() {
    assert_eq!(normalize("\u{0}".to_string()), "\"\\u0000\"");
    assert_eq!(normalize("\u{b}".to_string()), "\"\\u000b\"");
    assert_eq!(normalize("\u{1a}".to_string()), "\"\\u001a\"");
    assert_eq!(normalize("\u{1f}".to_string()), "\"\\u001f\"");
    assert_eq!(normalize("\u{8}\u{c}\r".to_string()), "\"\\b\\f\\r\"");
    assert_eq!(normalize("\u{7f}/".to_string()), "\"\u{7f}/\"");
}

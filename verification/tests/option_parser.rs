use vmm_machine::cmd_parser::{parse_switch, CmdParser};
use vmm_machine::errors::ConfigError;
use vmm_machine::text::{
    chars_of, copy_range, find_in, has_char, parse_decimal, remove_char, str_eq, without_first,
};

fn text(s: &str) -> String {
    String::from(s)
}

fn chars(s: &str) -> Vec<char> {
    s.chars().collect()
}

#[test]
fn parser_stores_values_under_their_keys() {
    let parser = CmdParser::new("drive").push("").push("id").push("file").push("readonly");
    let parser = parser.parse("disk,id=rootfs,file=/a=b,readonly").unwrap();
    assert_eq!(parser.get_value(""), Some(&text("disk")));
    assert_eq!(parser.get_value("id"), Some(&text("rootfs")));
    assert_eq!(parser.get_value("file"), Some(&text("/a=b")));
    assert_eq!(parser.get_value("readonly"), Some(&text("")));
    assert_eq!(parser.get_value("format"), None);
}

#[test]
fn parser_leaves_fields_without_item_unset() {
    let parser = CmdParser::new("drive").push("").push("id").push("file");
    let parser = parser.parse("id=rootfs").unwrap();
    assert_eq!(parser.get_value(""), None);
    assert_eq!(parser.get_value("file"), None);
    assert_eq!(parser.get_value("id"), Some(&text("rootfs")));
}

#[test]
fn parser_declaring_a_field_again_keeps_one_field() {
    let parser = CmdParser::new("drive").push("id").push("id");
    let parser = parser.parse("id=a").unwrap();
    assert_eq!(parser.get_value("id"), Some(&text("a")));
    // Declaring a field that has a value clears the value.
    let parser = parser.push("id");
    assert_eq!(parser.get_value("id"), None);
}

#[test]
fn parser_refuses_malformed_options() {
    let fresh = || CmdParser::new("drive").push("").push("id");
    let invalid = |param: &str| Some(ConfigError::InvalidParam(text(param), text("drive")));
    assert_eq!(fresh().parse(",id=a").err(), invalid(",id=a"));
    assert_eq!(fresh().parse("id=a,").err(), invalid("id=a,"));
    assert_eq!(fresh().parse(",").err(), invalid(","));
    assert_eq!(fresh().parse("=a").err(), invalid("=a"));
    assert_eq!(fresh().parse("id=").err(), invalid("id="));
    assert_eq!(fresh().parse("x,=").err(), invalid("="));
    assert_eq!(fresh().parse("file=a").err(), invalid("file"));
    assert_eq!(fresh().parse("x,file").err(), invalid("file"));
    assert_eq!(
        fresh().parse("id=a,id=b").err(),
        Some(ConfigError::FieldRepeat(text("drive"), text("id")))
    );
    assert_eq!(
        fresh().parse("x,,y").err(),
        Some(ConfigError::FieldRepeat(text("drive"), text("")))
    );
    // Without an unnamed field the first bare item has nowhere to go.
    assert_eq!(
        CmdParser::new("drive").push("id").parse("x").err(),
        invalid("x")
    );
}

#[test]
fn parser_reads_numbers_and_switches() {
    let parser = CmdParser::new("smp").push("").push("cpus").push("on").push("off").push("bad");
    let parser = parser.parse("12,cpus=+7,on=yes,off=false,bad=2x").unwrap();
    assert_eq!(parser.get_number("", u64::MAX), Ok(Some(12)));
    assert_eq!(parser.get_number("cpus", 7), Ok(Some(7)));
    assert_eq!(
        parser.get_number("cpus", 6),
        Err(ConfigError::ConvertValueFailed(text("cpus"), text("+7")))
    );
    assert_eq!(
        parser.get_number("bad", u64::MAX),
        Err(ConfigError::ConvertValueFailed(text("bad"), text("2x")))
    );
    assert_eq!(parser.get_number("missing", u64::MAX), Ok(None));
    assert_eq!(parser.get_switch("on"), Ok(Some(true)));
    assert_eq!(parser.get_switch("off"), Ok(Some(false)));
    assert_eq!(parser.get_switch("missing"), Ok(None));
    assert_eq!(
        parser.get_switch(""),
        Err(ConfigError::ConvertValueFailed(text("smp"), text("12")))
    );
}

#[test]
fn switch_words() {
    assert_eq!(parse_switch("true"), Some(true));
    assert_eq!(parse_switch("on"), Some(true));
    assert_eq!(parse_switch("yes"), Some(true));
    assert_eq!(parse_switch("false"), Some(false));
    assert_eq!(parse_switch("off"), Some(false));
    assert_eq!(parse_switch("no"), Some(false));
    assert_eq!(parse_switch("On"), None);
    assert_eq!(parse_switch(""), None);
    assert_eq!(parse_switch("1"), None);
}

#[test]
fn decimal_numbers() {
    assert_eq!(parse_decimal(&chars("0"), u64::MAX), Some(0));
    assert_eq!(parse_decimal(&chars("+0"), 0), Some(0));
    assert_eq!(parse_decimal(&chars("007"), 10), Some(7));
    assert_eq!(parse_decimal(&chars("18446744073709551615"), u64::MAX), Some(u64::MAX));
    assert_eq!(parse_decimal(&chars("18446744073709551616"), u64::MAX), None);
    assert_eq!(parse_decimal(&chars("99999999999999999999999"), u64::MAX), None);
    assert_eq!(parse_decimal(&chars("4294967295"), 4294967295), Some(4294967295));
    assert_eq!(parse_decimal(&chars("4294967296"), 4294967295), None);
    assert_eq!(parse_decimal(&chars("9"), 8), None);
    assert_eq!(parse_decimal(&chars(""), u64::MAX), None);
    assert_eq!(parse_decimal(&chars("+"), u64::MAX), None);
    assert_eq!(parse_decimal(&chars("++1"), u64::MAX), None);
    assert_eq!(parse_decimal(&chars("-1"), u64::MAX), None);
    assert_eq!(parse_decimal(&chars("1_000"), u64::MAX), None);
    assert_eq!(parse_decimal(&chars(" 1"), u64::MAX), None);
    assert_eq!(parse_decimal(&chars("1 "), u64::MAX), None);
    assert_eq!(parse_decimal(&chars("0x10"), u64::MAX), None);
    assert_eq!(parse_decimal(&chars("\u{0661}"), u64::MAX), None);
}

#[test]
fn decimal_numbers_agree_with_the_standard_parser() {
    for s in ["0", "1", "+1", "-1", "", "+", "12a", "a12", "00", "18446744073709551615",
        "18446744073709551616", "1e3", "٣", " 5"] {
        assert_eq!(parse_decimal(&chars(s), u64::MAX), s.parse::<u64>().ok());
        assert_eq!(
            parse_decimal(&chars(s), u32::MAX as u64),
            s.parse::<u32>().ok().map(|n| n as u64)
        );
    }
}

#[test]
fn character_helpers() {
    assert_eq!(chars_of("a=é,z"), vec!['a', '=', 'é', ',', 'z']);
    assert_eq!(chars_of(""), Vec::<char>::new());
    assert!(str_eq("kvm", "kvm"));
    assert!(!str_eq("kvm", "kvm "));
    assert!(!str_eq("", "k"));
    let v = chars("a,b,,c");
    assert_eq!(find_in(&v, ',', 0), 1);
    assert_eq!(find_in(&v, ',', 1), 1);
    assert_eq!(find_in(&v, ',', 2), 3);
    assert_eq!(find_in(&v, ',', 5), 6);
    assert_eq!(find_in(&v, ';', 0), 6);
    assert_eq!(find_in(&v, ',', 6), 6);
    assert!(has_char(&v, 'c'));
    assert!(!has_char(&v, 'd'));
    assert_eq!(copy_range(&v, 2, 5), chars("b,,"));
    assert_eq!(copy_range(&v, 3, 3), chars(""));
    assert_eq!(without_first(&v, ','), chars("ab,,c"));
    assert_eq!(without_first(&v, 'c'), chars("a,b,,"));
    assert_eq!(without_first(&v, 'x'), v);
    assert_eq!(remove_char("a,b,,c", ','), "abc");
    assert_eq!(remove_char(",,", ','), "");
    assert_eq!(remove_char("é\"ü\"", '"'), "éü");
    assert_eq!(remove_char("plain", '"'), "plain");
}

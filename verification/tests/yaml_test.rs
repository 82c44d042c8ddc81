use belt_core::yaml::{
    classify_parse_error, emit_yaml, format_scalar_key, format_scalar_value, is_control_char, is_reserved_word,
    is_yaml_special_char, needs_quoting, parses_as_yaml_number, quote_double, starts_with_indicator, value_eq,
    Budget, DuplicateKeyPolicy, Mapping, Value, YamlError, YamlOptions,
};

fn s(x: &str) -> Value {
    Value::String(x.to_string())
}

fn float(f: f64) -> Value {
    Value::Float { bits: f.to_bits(), text: format!("{f}") }
}

#[test]
fn emit_rejects_nan_float() {
    let v = float(f64::NAN);
    let err = emit_yaml(&v).expect_err("nan must be rejected");
    assert!(matches!(err, YamlError::Serialize(_)));
}

#[test]
fn emit_rejects_inf_float() {
    let v = float(f64::INFINITY);
    let err = emit_yaml(&v).expect_err("inf must be rejected");
    assert!(matches!(err, YamlError::Serialize(_)));
}

#[test]
fn emit_rejects_non_string_mapping_key() {
    let mut m = Mapping::new();
    m.insert(Value::Int(1), s("x"));
    let v = Value::Mapping(m);
    let err = emit_yaml(&v).expect_err("non-string key must be rejected");
    match err {
        YamlError::Serialize(msg) => {
            assert!(msg.contains("non-string"), "msg: {msg}");
        },
        other => panic!("expected Serialize error, got {other:?}"),
    }
}

#[test]
fn emit_empty_mapping_uses_flow_style() {
    let v = Value::Mapping(Mapping::new());
    let out = emit_yaml(&v).expect("emit ok");
    assert_eq!(out, "{}\n");
}

#[test]
fn emit_empty_sequence_uses_flow_style() {
    let v = Value::Sequence(Vec::new());
    let out = emit_yaml(&v).expect("emit ok");
    assert_eq!(out, "[]\n");
}

#[test]
fn emit_string_with_colon_is_quoted() {
    let s = format_scalar_value("a:b");
    assert_eq!(s, "\"a:b\"");
}

#[test]
fn emit_string_with_hash_is_quoted() {
    assert_eq!(format_scalar_value("# not a comment"), "\"# not a comment\"");
}

#[test]
fn emit_string_plain_unquoted() {
    assert_eq!(format_scalar_value("hello"), "hello");
    assert_eq!(format_scalar_value("belt"), "belt");
}

#[test]
fn emit_string_empty_is_quoted() {
    assert_eq!(format_scalar_value(""), "\"\"");
}

#[test]
fn emit_string_leading_space_is_quoted() {
    assert_eq!(format_scalar_value(" leading"), "\" leading\"");
}

#[test]
fn needs_quoting_reserved_words_all_case_variants() {
    for w in [
        "true", "false", "null", "yes", "no", "on", "off", "True", "False", "Null", "Yes", "No", "On", "Off", "TRUE",
        "FALSE", "NULL", "YES", "NO", "ON", "OFF", "~",
    ] {
        assert!(needs_quoting(w), "{w} should be quoted");
    }
}

#[test]
fn needs_quoting_numeric_like() {
    for n in ["0", "1", "-1", "3.14", "1e9", "1.0e-9"] {
        assert!(needs_quoting(n), "{n} should be quoted");
    }
}

#[test]
fn needs_quoting_leading_dash_followed_by_space() {
    assert!(needs_quoting("- leading"));
    assert!(needs_quoting("- "));
    assert!(needs_quoting("-\ttab"));
}

#[test]
fn needs_quoting_lone_dash() {
    assert!(needs_quoting("-"));
}

#[test]
fn needs_quoting_leading_question_followed_by_space() {
    assert!(needs_quoting("? key"));
    assert!(needs_quoting("?"));
}

#[test]
fn needs_quoting_document_start_marker() {
    assert!(needs_quoting("---"));
}

#[test]
fn needs_quoting_document_end_marker() {
    assert!(needs_quoting("..."));
}

#[test]
fn mapping_insert_updates_in_place_preserving_order() {
    let mut m = Mapping::new();
    m.insert(s("a"), Value::Int(1));
    m.insert(s("b"), Value::Int(2));
    m.insert(s("c"), Value::Int(3));
    let prev = m.insert(s("b"), Value::Int(22));
    assert_eq!(prev, Some(Value::Int(2)));
    let entries: Vec<_> = m.iter().iter().collect();
    assert_eq!(entries.len(), 3);
    assert_eq!(entries[0].0, s("a"));
    assert_eq!(entries[1].0, s("b"));
    assert_eq!(entries[1].1, Value::Int(22));
    assert_eq!(entries[2].0, s("c"));
}

#[test]
fn emit_nested_mapping_uses_two_space_indent() {
    let mut inner = Mapping::new();
    inner.insert(s("tag"), s("t"));
    let mut outer = Mapping::new();
    outer.insert(s("outer"), s("hello"));
    outer.insert(s("inner"), Value::Mapping(inner));
    let v = Value::Mapping(outer);
    let out = emit_yaml(&v).expect("emit ok");
    assert_eq!(out, "outer: hello\ninner:\n  tag: t\n");
}

#[test]
fn emit_sequence_of_maps_inline_first_key() {
    let mut m1 = Mapping::new();
    m1.insert(s("k"), Value::Int(1));
    let mut m2 = Mapping::new();
    m2.insert(s("k"), Value::Int(2));
    let v = Value::Sequence(vec![Value::Mapping(m1), Value::Mapping(m2)]);
    let out = emit_yaml(&v).expect("emit ok");
    assert_eq!(out, "- k: 1\n- k: 2\n");
}

#[test]
fn emit_scalars_at_the_root() {
    assert_eq!(emit_yaml(&Value::Null).unwrap(), "null\n");
    assert_eq!(emit_yaml(&Value::Bool(true)).unwrap(), "true\n");
    assert_eq!(emit_yaml(&Value::Int(-42)).unwrap(), "-42\n");
    assert_eq!(emit_yaml(&s("yes")).unwrap(), "\"yes\"\n");
    assert_eq!(emit_yaml(&float(1.5)).unwrap(), "1.5\n");
}

#[test]
fn emit_whole_float_keeps_a_fraction() {
    assert_eq!(emit_yaml(&float(3.0)).unwrap(), "3.0\n");
}

#[test]
fn emit_nested_sequence_and_empty_children() {
    let mut m = Mapping::new();
    m.insert(s("items"), Value::Sequence(vec![s("a"), s("b")]));
    m.insert(s("none"), Value::Sequence(Vec::new()));
    m.insert(s("meta"), Value::Mapping(Mapping::new()));
    let out = emit_yaml(&Value::Mapping(m)).unwrap();
    assert_eq!(out, "items:\n  - a\n  - b\nnone: []\nmeta: {}\n");
}

#[test]
fn emit_quotes_keys_that_need_it() {
    let mut m = Mapping::new();
    m.insert(s("a:b"), Value::Int(1));
    let out = emit_yaml(&Value::Mapping(m)).unwrap();
    assert_eq!(out, "\"a:b\": 1\n");
}

#[test]
fn mapping_get_len_is_empty() {
    let mut m = Mapping::new();
    assert!(m.is_empty());
    assert_eq!(m.len(), 0);
    m.insert(s("x"), Value::Bool(false));
    assert!(!m.is_empty());
    assert_eq!(m.len(), 1);
    assert_eq!(m.get(&s("x")), Some(&Value::Bool(false)));
    assert_eq!(m.get(&s("y")), None);
}

#[test]
fn value_accessors() {
    let mut m = Mapping::new();
    m.insert(s("name"), s("belt"));
    m.insert(s("n"), Value::Int(7));
    m.insert(s("on"), Value::Bool(true));
    let v = Value::Mapping(m);
    assert!(v.is_mapping());
    assert!(!v.is_sequence());
    assert_eq!(v.get("name").and_then(|x| x.as_str()), Some("belt"));
    assert_eq!(v.get("n").and_then(|x| x.as_i64()), Some(7));
    assert_eq!(v.get("on").and_then(|x| x.as_bool()), Some(true));
    assert!(v.get("missing").is_none());
    assert!(v.as_mapping().is_some());
    assert!(v.as_sequence().is_none());
    let q = Value::Sequence(vec![Value::Null]);
    assert!(q.is_sequence());
    assert_eq!(q.as_sequence().map(|x| x.len()), Some(1));
    assert!(q.get("x").is_none());
}

#[test]
fn value_eq_treats_floats_by_value() {
    assert!(value_eq(&float(0.0), &float(-0.0)));
    assert!(!value_eq(&float(f64::NAN), &float(f64::NAN)));
    assert!(value_eq(&float(2.5), &float(2.5)));
    assert!(!value_eq(&Value::Int(1), &float(1.0)));
}

#[test]
fn needs_quoting_plain_strings() {
    assert!(!needs_quoting("hello world"));
    assert!(!needs_quoting("feature-dev"));
    assert!(!needs_quoting("a-b"));
    assert!(needs_quoting("trailing "));
    assert!(needs_quoting("a #b"));
    assert!(needs_quoting("tab\there"));
    assert!(needs_quoting("@at"));
    assert!(!needs_quoting("0x1F"));
    assert!(needs_quoting(".inf"));
    assert!(!needs_quoting("-.NaN"));
}

#[test]
fn number_grammar() {
    assert!(parses_as_yaml_number("42"));
    assert!(parses_as_yaml_number("+1.5e3"));
    assert!(parses_as_yaml_number(".5"));
    assert!(!parses_as_yaml_number("0o17"));
    assert!(parses_as_yaml_number("18446744073709551615"));
    assert!(parses_as_yaml_number(".NaN"));
    assert!(!parses_as_yaml_number("inf"));
    assert!(!parses_as_yaml_number("1e999"));
    assert!(!parses_as_yaml_number("1.2.3"));
    assert!(!parses_as_yaml_number("abc"));
    assert!(!parses_as_yaml_number(""));
}

#[test]
fn reserved_words_and_indicators() {
    assert!(is_reserved_word("Off"));
    assert!(!is_reserved_word("oFF"));
    assert!(!starts_with_indicator("*alias"));
    assert!(starts_with_indicator(": x"));
    assert!(starts_with_indicator("-"));
    assert!(!starts_with_indicator("-x"));
    assert!(is_yaml_special_char(':'));
    assert!(!is_yaml_special_char('a'));
    assert!(is_control_char('\u{7}'));
    assert!(!is_control_char('a'));
}

#[test]
fn quote_double_escapes() {
    assert_eq!(quote_double("a\"b\\c\nd"), "\"a\\\"b\\\\c\\nd\"");
    assert_eq!(quote_double("tab\t"), "\"tab\\t\"");
    assert_eq!(quote_double("bell\u{7}"), "\"bell\\x07\"");
    assert_eq!(quote_double("\u{85}"), "\"\\x85\"");
    assert_eq!(format_scalar_key("plain"), "plain");
    assert_eq!(format_scalar_key("with: colon"), "\"with: colon\"");
}

#[test]
fn classify_parse_error_variants() {
    assert_eq!(classify_parse_error("Duplicate key `a`"), YamlError::DuplicateKey("Duplicate key `a`".to_string()));
    assert_eq!(classify_parse_error("unexpected end"), YamlError::Parse("unexpected end".to_string()));
    assert!(YamlError::Budget("x".to_string()).message().contains("x"));
}

#[test]
fn options_default() {
    let o = YamlOptions::default();
    assert_eq!(o.duplicate_keys, DuplicateKeyPolicy::Error);
    let b = Budget::default();
    assert_eq!(o.budget, b);
}

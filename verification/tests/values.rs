use flagrant::names::valid_name;
use flagrant::text::{has_prefix, same_text, space, split_whitespace, trim};
use flagrant::values::{FeatureValue, ParseTypeError, ValueType};

#[test]
fn values_are_made_from_the_name_of_their_kind() {
    assert_eq!(FeatureValue::new("json", "{}"), Ok(FeatureValue::Json("{}".to_owned())));
    assert_eq!(FeatureValue::new("toml", "a = 1"), Ok(FeatureValue::Toml("a = 1".to_owned())));
    assert_eq!(FeatureValue::new("text", "hello"), Ok(FeatureValue::Text("hello".to_owned())));
    assert_eq!(FeatureValue::new("yaml", "a: 1"), Err(ParseTypeError::Type("yaml".to_owned())));
    assert_eq!(FeatureValue::new("JSON", "{}"), Err(ParseTypeError::Type("JSON".to_owned())));
    assert_eq!(FeatureValue::new("", ""), Err(ParseTypeError::Type(String::new())));
}

#[test]
fn encoded_values_split_at_the_first_separator() {
    assert_eq!(FeatureValue::parse("text::new-bar"), Ok(FeatureValue::Text("new-bar".to_owned())));
    assert_eq!("json::{\"a\": 2}".parse(), Ok(FeatureValue::Json("{\"a\": 2}".to_owned())));
    assert_eq!(FeatureValue::parse("text::a::b"), Ok(FeatureValue::Text("a::b".to_owned())));
    assert_eq!(FeatureValue::parse("toml::"), Ok(FeatureValue::Toml(String::new())));
    assert_eq!(FeatureValue::parse("plain"), Err(ParseTypeError::Encoding));
    assert_eq!(FeatureValue::parse(""), Err(ParseTypeError::Encoding));
    assert_eq!(FeatureValue::parse("text:"), Err(ParseTypeError::Encoding));
    assert_eq!(FeatureValue::parse("a:b:c"), Err(ParseTypeError::Encoding));
    assert_eq!(FeatureValue::parse("::x"), Err(ParseTypeError::Type(String::new())));
    assert_eq!(FeatureValue::parse("xml::<a/>"), Err(ParseTypeError::Type("xml".to_owned())));
    assert_eq!(FeatureValue::parse("text:::"), Ok(FeatureValue::Text(":".to_owned())));
}

#[test]
fn values_are_written_with_their_kind_and_trimmed() {
    assert_eq!(FeatureValue::Text("  padded \n".to_owned()).to_string(), "text::padded");
    assert_eq!(FeatureValue::Json("{\"foo\": 2}".to_owned()).to_string(), "json::{\"foo\": 2}");
    assert_eq!(FeatureValue::Toml(String::new()).to_string(), "toml::");
    assert_eq!(FeatureValue::Text("   ".to_owned()).to_string(), "text::");
}

#[test]
fn written_values_are_read_back() {
    for value in [
        FeatureValue::Text("foo".to_owned()),
        FeatureValue::Json("[1, 2]".to_owned()),
        FeatureValue::Toml("a = \"::\"".to_owned()),
    ] {
        assert_eq!(FeatureValue::parse(&value.to_string()), Ok(value));
    }
}

#[test]
fn values_decompose_into_kind_and_text() {
    assert_eq!(FeatureValue::Json("1".to_owned()).decompose(), ("json", "1"));
    assert_eq!(FeatureValue::Toml("2".to_owned()).decompose(), ("toml", "2"));
    assert_eq!(FeatureValue::Text("3".to_owned()).decompose(), ("text", "3"));
    assert_eq!(FeatureValue::Json("1".to_owned()).value_type(), ValueType::Json);
    assert_eq!(FeatureValue::default(), FeatureValue::Text(String::new()));
    assert_eq!(FeatureValue::build("x"), FeatureValue::Text("x".to_owned()));
    assert_eq!(
        FeatureValue::Json("1".to_owned()).clone_with("2"),
        FeatureValue::Json("2".to_owned())
    );
    let value = FeatureValue::Toml("a = 1".to_owned());
    assert_eq!(value.clone(), value);
}

#[test]
fn parse_errors_tell_the_unknown_kind() {
    assert_eq!(ParseTypeError::Type("yaml".to_owned()).unknown_type(), Some("yaml"));
    assert_eq!(ParseTypeError::Encoding.unknown_type(), None);
}

#[test]
fn trimming_agrees_with_the_standard_library() {
    for s in [
        "",
        " ",
        "a",
        "  a b  ",
        "\t\r\n x \u{a0}",
        "\u{2003}wide\u{3000}",
        "\u{85}next line\u{1680}",
        "\u{200b}zero width is no space\u{200b}",
        "\u{2028}\u{2029}\u{202f}\u{205f}in\u{b}\u{c}",
    ] {
        assert_eq!(trim(s), s.trim());
    }
}

#[test]
fn white_space_agrees_with_the_standard_library() {
    for code in 0..0x3100u32 {
        if let Some(c) = char::from_u32(code) {
            assert_eq!(space(c), c.is_whitespace(), "U+{:04X}", code);
        }
    }
    assert!(!space('\u{feff}'));
    assert!(!space('\u{1f495}'));
}

#[test]
fn splitting_at_white_space_agrees_with_the_standard_library() {
    for s in ["", "   ", "feature add", "  env\tto  staging \n", "a\u{a0}b", "one"] {
        assert_eq!(split_whitespace(s), s.split_whitespace().collect::<Vec<_>>());
    }
}

#[test]
fn texts_are_compared_and_matched_by_prefix() {
    assert!(same_text("abc", "abc"));
    assert!(!same_text("abc", "abd"));
    assert!(!same_text("abc", "ab"));
    assert!(same_text("", ""));
    assert!(has_prefix("staging", "sta"));
    assert!(has_prefix("staging", ""));
    assert!(has_prefix("staging", "staging"));
    assert!(!has_prefix("sta", "staging"));
    assert!(!has_prefix("staging", "tag"));
    assert!(has_prefix("żółw", "żó"));
}

#[test]
fn names_are_a_letter_and_then_letters_digits_underscores() {
    for name in ["ab", "F_1", "featuriozzo", "should_be_unique", "Z9", "a_"] {
        assert!(valid_name(name), "{name}");
    }
    for name in ["", "a", " ble", "123", "💕333", "foo-bazz", "_ab", "ab ", "a b", "ąb", "aé", "a\n"] {
        assert!(!valid_name(name), "{name:?}");
    }
    assert!(valid_name(&format!("a{}", "b".repeat(254))));
    assert!(!valid_name(&format!("a{}", "b".repeat(255))));
    assert!(!valid_name(&format!("F_{}", "x".repeat(1024))));
}

#[test]
fn a_typed_text_keeps_its_kind_and_an_untyped_one_borrows_it() {
    let json = FeatureValue::Json("{}".to_owned());
    assert_eq!(
        FeatureValue::typed_like("toml::a = 1", Some(&json)),
        FeatureValue::Toml("a = 1".to_owned())
    );
    assert_eq!(FeatureValue::typed_like("[1]", Some(&json)), FeatureValue::Json("[1]".to_owned()));
    assert_eq!(FeatureValue::typed_like("plain", None), FeatureValue::Text("plain".to_owned()));
    // an unknown kind is no kind: the whole text is the value
    assert_eq!(
        FeatureValue::typed_like("yaml::a", Some(&json)),
        FeatureValue::Json("yaml::a".to_owned())
    );
    assert_eq!(FeatureValue::typed_like("text::", None), FeatureValue::Text(String::new()));
}

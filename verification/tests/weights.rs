use flagrant::weights::{parse_weight, WeightError};

#[test]
fn weights_are_whole_numbers_from_0_to_100() {
    assert_eq!(parse_weight("0"), Ok(0));
    assert_eq!(parse_weight("7"), Ok(7));
    assert_eq!(parse_weight("40"), Ok(40));
    assert_eq!(parse_weight("100"), Ok(100));
    assert_eq!(parse_weight("+100"), Ok(100));
    assert_eq!(parse_weight("007"), Ok(7));
    assert_eq!(parse_weight("-0"), Ok(0));
    assert_eq!(parse_weight("0000000000000000000000100"), Ok(100));
}

#[test]
fn numbers_beyond_100_or_below_0_are_out_of_range() {
    for text in ["101", "255", "256", "32767", "-1", "-100", "-32768", "+101", "0032767"] {
        assert_eq!(parse_weight(text), Err(WeightError::OutOfRange), "{text}");
    }
}

#[test]
fn what_is_no_number_of_sixteen_bits_is_refused() {
    for text in [
        "", "+", "-", " 5", "5 ", "5%", "ten", "1e2", "0x10", "1.5", "--1", "+-1", "1-", "٣", "32768",
        "-32769", "40000", "400000", "99999999999999999999", "-99999999999999999999",
    ] {
        assert_eq!(parse_weight(text), Err(WeightError::NotANumber), "{text:?}");
    }
}

#[test]
fn reading_agrees_with_the_standard_library() {
    let mut texts: Vec<String> = (-33000i32..=33000).step_by(7).map(|n| n.to_string()).collect();
    texts.extend((-3i32..=103).map(|n| n.to_string()));
    texts.extend((0i32..=103).map(|n| format!("+{n}")));
    texts.extend((0i32..=103).map(|n| format!("0{n}")));
    for text in texts {
        let expected = match text.parse::<i16>() {
            Err(_) => Err(WeightError::NotANumber),
            Ok(n) if (0..=100).contains(&n) => Ok(n as u8),
            Ok(_) => Err(WeightError::OutOfRange),
        };
        assert_eq!(parse_weight(&text), expected, "{text}");
    }
}

use tui_calc::digits::{Decimal, Digits, PushError};

fn typed(keys: &str) -> Digits {
    let mut buffer = Digits::default();
    for key in keys.chars() {
        if key == '.' {
            buffer.set_decimal_position();
        } else {
            let _ = buffer.push(key);
        }
    }
    buffer
}

fn value_of(number: Decimal) -> f64 {
    let whole = number.magnitude as f64;
    let power = 10u128.pow(number.scale) as f64;
    (whole / power) * if number.negative { -1_f64 } else { 1_f64 }
}

#[test]
fn empty_buffer_shows_zero() {
    let buffer = Digits::default();
    assert!(buffer.is_empty());
    assert!(!buffer.is_negative());
    assert_eq!(buffer.to_string(), "0");
    assert_eq!(buffer.to_decimal(), Decimal { negative: false, magnitude: 0, scale: 0 });
}

#[test]
fn push_appends_in_typed_order() {
    let mut buffer = Digits::default();
    assert_eq!(buffer.push('1'), Ok(()));
    assert_eq!(buffer.push('2'), Ok(()));
    assert_eq!(buffer.push('3'), Ok(()));
    assert!(!buffer.is_empty());
    assert_eq!(buffer.to_string(), "123");
    assert_eq!(buffer.to_decimal(), Decimal { negative: false, magnitude: 123, scale: 0 });
}

#[test]
fn integer_entry_has_the_value_of_its_digits() {
    let buffer = typed("907");
    assert_eq!(value_of(buffer.to_decimal()), 907_f64);
    let mut negative = typed("450");
    negative.set_negative(true);
    assert_eq!(negative.to_decimal(), Decimal { negative: true, magnitude: 450, scale: 0 });
    assert_eq!(value_of(negative.to_decimal()), -450_f64);
}

#[test]
fn decimal_entry_divides_by_the_power_of_ten() {
    let buffer = typed("12.345");
    assert_eq!(buffer.to_decimal(), Decimal { negative: false, magnitude: 12345, scale: 3 });
    assert_eq!(value_of(buffer.to_decimal()), 12.345_f64);
    let trailing = typed("12.");
    assert_eq!(trailing.to_decimal(), Decimal { negative: false, magnitude: 12, scale: 0 });
    let small = typed("007.05");
    assert_eq!(small.to_decimal(), Decimal { negative: false, magnitude: 705, scale: 2 });
    assert_eq!(small.to_string(), "7.05");
}

#[test]
fn leading_zero_leaves_the_buffer_empty() {
    let mut buffer = Digits::default();
    assert_eq!(buffer.push('0'), Err(PushError::InvalidDigit('0')));
    assert!(buffer.is_empty());
    assert_eq!(buffer.to_string(), "0");
    assert_eq!(buffer.push('0'), Err(PushError::InvalidDigit('0')));
    assert!(buffer.is_empty());
    assert_eq!(buffer.to_string(), "0");
}

#[test]
fn zero_is_taken_behind_a_digit_or_a_point() {
    let mut buffer = Digits::default();
    assert_eq!(buffer.push('1'), Ok(()));
    assert_eq!(buffer.push('0'), Ok(()));
    assert_eq!(buffer.push('0'), Ok(()));
    assert_eq!(buffer.to_string(), "100");
    let mut fraction = Digits::default();
    fraction.set_decimal_position();
    assert_eq!(fraction.to_string(), "0.");
    assert_eq!(fraction.push('0'), Ok(()));
    assert_eq!(fraction.push('5'), Ok(()));
    assert_eq!(fraction.to_string(), "0.05");
    assert_eq!(fraction.to_decimal(), Decimal { negative: false, magnitude: 5, scale: 2 });
}

#[test]
fn push_refuses_what_is_no_digit() {
    let mut buffer = typed("4");
    assert_eq!(buffer.push('a'), Err(PushError::InvalidDigit('a')));
    assert_eq!(buffer.push('.'), Err(PushError::InvalidDigit('.')));
    assert_eq!(buffer.push('٣'), Err(PushError::InvalidDigit('٣')));
    assert_eq!(buffer.to_string(), "4");
}

#[test]
fn push_refuses_a_sixteenth_digit() {
    let mut buffer = typed("999999999999999");
    assert_eq!(buffer.to_decimal().magnitude, 999_999_999_999_999);
    assert_eq!(buffer.push('1'), Err(PushError::TooManyDigits));
    assert_eq!(buffer.push('x'), Err(PushError::TooManyDigits));
    assert_eq!(buffer.to_string(), "999999999999999");
}

#[test]
fn pop_hands_out_the_last_digit() {
    let mut buffer = typed("42");
    assert_eq!(buffer.pop(), Some('2'));
    assert_eq!(buffer.to_string(), "4");
    assert_eq!(buffer.pop(), Some('4'));
    assert!(buffer.is_empty());
    assert_eq!(buffer.pop(), None);
    assert_eq!(buffer.to_string(), "0");
}

#[test]
fn pop_takes_the_point_before_the_digits() {
    let mut buffer = typed("3.");
    assert_eq!(buffer.to_string(), "3.");
    assert_eq!(buffer.pop(), Some('.'));
    assert_eq!(buffer.to_string(), "3");
    assert!(!buffer.is_empty());
    buffer.set_decimal_position();
    assert_eq!(buffer.push('1'), Ok(()));
    assert_eq!(buffer.pop(), Some('1'));
    assert_eq!(buffer.to_string(), "3.");
}

#[test]
fn pop_of_the_only_digit_takes_the_sign() {
    let mut buffer = typed("9");
    buffer.set_negative(true);
    assert_eq!(buffer.to_string(), "-9");
    assert_eq!(buffer.pop(), Some('9'));
    assert!(!buffer.is_negative());
    assert_eq!(buffer.to_string(), "0");
}

#[test]
fn pop_of_an_empty_buffer_keeps_a_waiting_sign() {
    let mut buffer = Digits::default();
    buffer.set_negative(true);
    assert_eq!(buffer.pop(), None);
    assert!(buffer.is_negative());
}

#[test]
fn clear_resets_sign_point_and_digits() {
    let mut buffer = typed("1.5");
    buffer.set_negative(true);
    buffer.clear();
    assert!(buffer.is_empty());
    assert!(!buffer.is_negative());
    assert_eq!(buffer.to_string(), "0");
    assert_eq!(buffer.push('2'), Ok(()));
    assert_eq!(buffer.to_string(), "2");
}

#[test]
fn sign_can_wait_on_an_empty_buffer() {
    let mut buffer = Digits::default();
    buffer.set_negative(true);
    assert!(buffer.is_negative());
    assert!(buffer.is_empty());
    assert_eq!(buffer.to_string(), "-0");
    buffer.set_negative(true);
    assert!(buffer.is_negative());
    assert_eq!(buffer.push('7'), Ok(()));
    assert_eq!(buffer.to_string(), "-7");
    buffer.set_negative(false);
    assert_eq!(buffer.to_string(), "7");
}

#[test]
fn toggle_negative_keeps_the_sign() {
    let mut buffer = typed("7");
    buffer.toggle_negative();
    assert!(!buffer.is_negative());
    buffer.set_negative(true);
    buffer.toggle_negative();
    assert!(buffer.is_negative());
    assert_eq!(buffer.to_string(), "-7");
}

#[test]
fn second_point_changes_nothing() {
    let mut buffer = typed("1.2");
    buffer.set_decimal_position();
    assert_eq!(buffer.to_string(), "1.2");
    assert_eq!(buffer.to_decimal(), Decimal { negative: false, magnitude: 12, scale: 1 });
}

#[test]
fn point_without_digits_shows_a_zero_before_it() {
    let buffer = typed(".5");
    assert_eq!(buffer.to_string(), "0.5");
    let mut negative = typed(".25");
    negative.set_negative(true);
    assert_eq!(negative.to_string(), "-0.25");
    assert_eq!(value_of(negative.to_decimal()), -0.25_f64);
}

#[test]
fn reads_tells_decimal_text_apart() {
    assert!(Digits::reads("-12.5"));
    assert!(Digits::reads("0"));
    assert!(Digits::reads(""));
    assert!(!Digits::reads("inf"));
    assert!(!Digits::reads("NaN"));
    assert!(!Digits::reads("1e5"));
    assert!(!Digits::reads("12 "));
}

#[test]
fn from_text_rebuilds_the_buffer() {
    let half = Digits::from_text("0.5");
    assert_eq!(half.to_string(), "0.5");
    assert_eq!(half.to_decimal(), Decimal { negative: false, magnitude: 5, scale: 1 });
    let negative = Digits::from_text("-12.25");
    assert!(negative.is_negative());
    assert_eq!(negative.to_string(), "-12.25");
    assert_eq!(negative.to_decimal(), Decimal { negative: true, magnitude: 1225, scale: 2 });
    let round = Digits::from_text("100");
    assert_eq!(round.to_string(), "100");
    let zero = Digits::from_text("0");
    assert!(zero.is_empty());
    assert_eq!(zero.to_string(), "0");
}

#[test]
fn from_text_drops_what_the_buffer_refuses() {
    let long = Digits::from_text("100000000000000000000");
    assert_eq!(long.to_string(), "100000000000000");
    assert_eq!(long.to_decimal().magnitude, 100_000_000_000_000);
}

#[test]
fn number_survives_the_way_through_the_buffer() {
    let values = [0_f64, 0.5, 8_f64, -12.25, 0.001, 123456789012345_f64, -99999.9999, 3.14159];
    for value in values {
        let text = value.to_string();
        assert!(Digits::reads(&text));
        let buffer = Digits::from_text(&text);
        assert_eq!(value_of(buffer.to_decimal()), value);
        assert_eq!(buffer.to_string(), text);
    }
}

#[test]
fn buffer_survives_the_way_through_its_text() {
    for keys in ["", "5", "12.", ".5", "0.05", "100", "999999999999999", "1.000"] {
        let buffer = typed(keys);
        let again = Digits::from_text(&buffer.to_string());
        assert_eq!(again.to_string(), buffer.to_string());
        assert_eq!(again.to_decimal(), buffer.to_decimal());
    }
}

use tss_manager::text::append_decimal;

fn numeral(n: u16) -> String {
    let mut text = String::new();
    append_decimal(&mut text, n);
    text
}

#[test]
fn decimal_of_single_digits() {
    assert_eq!(numeral(0), "0");
    assert_eq!(numeral(7), "7");
    assert_eq!(numeral(9), "9");
}

#[test]
fn decimal_of_round_numbers() {
    assert_eq!(numeral(10), "10");
    assert_eq!(numeral(100), "100");
    assert_eq!(numeral(1000), "1000");
    assert_eq!(numeral(10000), "10000");
}

#[test]
fn decimal_of_the_largest_number() {
    assert_eq!(numeral(65535), "65535");
}

#[test]
fn decimal_agrees_with_the_standard_numerals() {
    for n in [0u16, 1, 12, 99, 101, 255, 256, 4095, 9999, 12345, 60000, 65534] {
        assert_eq!(numeral(n), n.to_string());
    }
}

#[test]
fn decimal_is_appended_to_what_is_there() {
    let mut text = String::from("party ");
    append_decimal(&mut text, 42);
    assert_eq!(text, "party 42");
    append_decimal(&mut text, 0);
    assert_eq!(text, "party 420");
}

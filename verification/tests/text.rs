use stopwatch::text::{digit, push_decimal, push_two_digits};

#[test]
fn digits_are_the_characters_from_0_to_9() {
    let all: String = (0u8..10).map(digit).collect();
    assert_eq!(all, "0123456789");
}

#[test]
fn push_decimal_appends_without_leading_zeros() {
    let mut text = String::from("n=");
    push_decimal(&mut text, 0);
    assert_eq!(text, "n=0");
    push_decimal(&mut text, 7);
    push_decimal(&mut text, 10);
    push_decimal(&mut text, 8759);
    assert_eq!(text, "n=07108759");
}

#[test]
fn push_decimal_takes_the_largest_number() {
    let mut text = String::new();
    push_decimal(&mut text, u32::MAX);
    assert_eq!(text, "4294967295");
}

#[test]
fn push_two_digits_pads_one_digit_only() {
    let mut text = String::new();
    push_two_digits(&mut text, 0);
    push_two_digits(&mut text, 9);
    push_two_digits(&mut text, 10);
    push_two_digits(&mut text, 99);
    push_two_digits(&mut text, 100);
    assert_eq!(text, "00091099100");
}

#[test]
fn push_two_digits_is_what_std_formats() {
    for n in [0u32, 1, 5, 9, 10, 11, 59, 60, 99, 100, 101, 999, 8759, 1_000_000] {
        let mut text = String::new();
        push_two_digits(&mut text, n);
        assert_eq!(text, format!("{:02}", n));
    }
}

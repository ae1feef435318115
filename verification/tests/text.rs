use rlox::text::{chars_of, collect_range, decimal_text, push_decimal};

#[test]
fn decimal_text_of_integers() {
    assert_eq!(decimal_text(0), "0");
    assert_eq!(decimal_text(7), "7");
    assert_eq!(decimal_text(10), "10");
    assert_eq!(decimal_text(909), "909");
    assert_eq!(decimal_text(1234567890), "1234567890");
    assert_eq!(decimal_text(usize::MAX), usize::MAX.to_string());
}

#[test]
fn push_decimal_appends() {
    let mut text = String::from("line ");
    push_decimal(&mut text, 42);
    assert_eq!(text, "line 42");
}

#[test]
fn chars_of_keeps_every_character() {
    assert_eq!(chars_of(""), Vec::<char>::new());
    assert_eq!(chars_of("añ→z"), vec!['a', 'ñ', '→', 'z']);
}

#[test]
fn collect_range_takes_the_stretch() {
    let chars = vec!['h', 'é', 'l', 'l', 'o'];
    assert_eq!(collect_range(&chars, 0, 5), "héllo");
    assert_eq!(collect_range(&chars, 1, 3), "él");
    assert_eq!(collect_range(&chars, 2, 2), "");
}

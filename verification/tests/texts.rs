use bowling::text::{align_right, format_number, repeat, to_decimal};

#[test]
fn decimal_of_small_and_large_numbers() {
    assert_eq!(to_decimal(0), "0");
    assert_eq!(to_decimal(7), "7");
    assert_eq!(to_decimal(10), "10");
    assert_eq!(to_decimal(99), "99");
    assert_eq!(to_decimal(100), "100");
    assert_eq!(to_decimal(300), "300");
    assert_eq!(to_decimal(65535), "65535");
}

#[test]
fn decimal_agrees_with_the_standard_numeral() {
    for n in 0..=1000u16 {
        assert_eq!(to_decimal(n), n.to_string());
    }
    for n in [9999u16, 10000, 12345, 40000, 60009, 65534] {
        assert_eq!(to_decimal(n), n.to_string());
    }
}

#[test]
fn no_pins_are_shown_as_a_dash() {
    assert_eq!(format_number(0), "-");
}

#[test]
fn pins_are_shown_as_their_number() {
    assert_eq!(format_number(1), "1");
    assert_eq!(format_number(9), "9");
    assert_eq!(format_number(10), "10");
}

#[test]
fn repeat_writes_the_part_over() {
    assert_eq!(repeat("ab", 3), "ababab");
    assert_eq!(repeat("x", 1), "x");
    assert_eq!(repeat("x", 0), "");
    assert_eq!(repeat("", 5), "");
    assert_eq!(repeat("\u{2500}\u{252c}", 2), "\u{2500}\u{252c}\u{2500}\u{252c}");
}

#[test]
fn align_right_pads_with_blanks() {
    assert_eq!(align_right("7", 3), "  7");
    assert_eq!(align_right("42", 3), " 42");
    assert_eq!(align_right("300", 5), "  300");
    assert_eq!(align_right("", 2), "  ");
}

#[test]
fn align_right_keeps_a_text_that_fills_the_field() {
    assert_eq!(align_right("300", 3), "300");
    assert_eq!(align_right("1234", 3), "1234");
    assert_eq!(align_right("x", 0), "x");
}

#[test]
fn align_right_counts_characters() {
    assert_eq!(align_right("\u{2502}", 3), "  \u{2502}");
}

#[test]
fn align_right_agrees_with_the_standard_format() {
    for n in [0u16, 5, 10, 99, 100, 300] {
        let numeral = to_decimal(n);
        assert_eq!(align_right(&numeral, 3), format!("{n:>3}"));
        assert_eq!(align_right(&numeral, 5), format!("{n:>5}"));
    }
}

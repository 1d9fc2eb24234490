use bowling::generators::Frame;

#[test]
fn strike_has_one_roll_of_ten() {
    assert_eq!(Frame::Strike.get_sub_scores(), vec![10]);
    assert_eq!(Frame::Strike.get_score(), 10);
}

#[test]
fn spare_second_roll_clears_the_rest() {
    assert_eq!(Frame::Spare { first: 7 }.get_sub_scores(), vec![7, 3]);
    assert_eq!(Frame::Spare { first: 0 }.get_sub_scores(), vec![0, 10]);
    assert_eq!(Frame::Spare { first: 9 }.get_sub_scores(), vec![9, 1]);
}

#[test]
fn every_spare_holds_its_first_roll_and_the_rest() {
    for first in 0..10u16 {
        let rolls = Frame::Spare { first }.get_sub_scores();
        assert_eq!(rolls, vec![first, 10 - first]);
        assert_eq!(Frame::Spare { first }.get_score(), 10);
    }
}

#[test]
fn open_frame_rolls_are_its_fields() {
    assert_eq!(Frame::Open { first: 4, second: 2 }.get_sub_scores(), vec![4, 2]);
    assert_eq!(Frame::Open { first: 0, second: 0 }.get_sub_scores(), vec![0, 0]);
    assert_eq!(Frame::Open { first: 9, second: 0 }.get_sub_scores(), vec![9, 0]);
    assert_eq!(Frame::Open { first: 0, second: 9 }.get_sub_scores(), vec![0, 9]);
}

#[test]
fn every_open_frame_holds_both_rolls() {
    for first in 0..10u16 {
        for second in 0..(10 - first) {
            let frame = Frame::Open { first, second };
            assert_eq!(frame.get_sub_scores(), vec![first, second]);
            assert_eq!(frame.get_score(), first + second);
            assert!(frame.get_score() < 10);
        }
    }
}

#[test]
fn frame_score_is_the_sum_of_its_rolls() {
    let frames = [
        Frame::Strike,
        Frame::Spare { first: 0 },
        Frame::Spare { first: 3 },
        Frame::Open { first: 0, second: 0 },
        Frame::Open { first: 8, second: 1 },
    ];
    for frame in frames {
        let sum: u16 = frame.get_sub_scores().into_iter().sum();
        assert_eq!(frame.get_score(), sum);
    }
    assert_eq!(Frame::Open { first: 8, second: 1 }.get_score(), 9);
    assert_eq!(Frame::Spare { first: 3 }.get_score(), 10);
}

#[test]
fn from_pins_tells_strike_spare_and_open_apart() {
    assert_eq!(Frame::from_pins(10, 0), Frame::Strike);
    assert_eq!(Frame::from_pins(3, 7), Frame::Spare { first: 3 });
    assert_eq!(Frame::from_pins(0, 10), Frame::Spare { first: 0 });
    assert_eq!(Frame::from_pins(3, 4), Frame::Open { first: 3, second: 4 });
    assert_eq!(Frame::from_pins(0, 0), Frame::Open { first: 0, second: 0 });
    assert_eq!(Frame::from_pins(9, 0), Frame::Open { first: 9, second: 0 });
}

#[test]
fn from_pins_ignores_the_second_count_after_a_strike() {
    assert_eq!(Frame::from_pins(10, 7), Frame::Strike);
}

#[test]
fn frame_text_in_plain_characters() {
    assert_eq!(Frame::Strike.sub_score_ascii_string(), "X| |");
    assert_eq!(Frame::Spare { first: 7 }.sub_score_ascii_string(), "7|/|");
    assert_eq!(Frame::Spare { first: 0 }.sub_score_ascii_string(), "-|/|");
    assert_eq!(Frame::Open { first: 4, second: 2 }.sub_score_ascii_string(), "4|2|");
    assert_eq!(Frame::Open { first: 0, second: 0 }.sub_score_ascii_string(), "-|-|");
    assert_eq!(Frame::Open { first: 0, second: 9 }.sub_score_ascii_string(), "-|9|");
}

#[test]
fn frame_text_with_box_drawing_bars() {
    assert_eq!(Frame::Strike.sub_score_ansi_string(), "X\u{2502} \u{2502}");
    assert_eq!(Frame::Spare { first: 7 }.sub_score_ansi_string(), "7\u{2502}/\u{2502}");
    assert_eq!(Frame::Spare { first: 0 }.sub_score_ansi_string(), "-\u{2502}/\u{2502}");
    assert_eq!(Frame::Open { first: 4, second: 2 }.sub_score_ansi_string(), "4|2\u{2502}");
    assert_eq!(Frame::Open { first: 0, second: 0 }.sub_score_ansi_string(), "-|-\u{2502}");
}

#[test]
fn frame_text_is_four_characters_wide() {
    for first in 0..10u16 {
        assert_eq!(Frame::Spare { first }.sub_score_ascii_string().chars().count(), 4);
        assert_eq!(Frame::Spare { first }.sub_score_ansi_string().chars().count(), 4);
        for second in 0..(10 - first) {
            let frame = Frame::Open { first, second };
            assert_eq!(frame.sub_score_ascii_string().chars().count(), 4);
            assert_eq!(frame.sub_score_ansi_string().chars().count(), 4);
        }
    }
    assert_eq!(Frame::Strike.sub_score_ansi_string().chars().count(), 4);
}

#[test]
fn frames_that_can_occur_are_valid() {
    assert!(Frame::Strike.is_valid());
    assert!(Frame::Spare { first: 0 }.is_valid());
    assert!(Frame::Spare { first: 9 }.is_valid());
    assert!(Frame::Open { first: 0, second: 0 }.is_valid());
    assert!(Frame::Open { first: 9, second: 0 }.is_valid());
    assert!(Frame::Open { first: 0, second: 9 }.is_valid());
    assert!(Frame::Open { first: 4, second: 5 }.is_valid());
}

#[test]
fn frames_that_cannot_occur_are_not_valid() {
    assert!(!Frame::Spare { first: 10 }.is_valid());
    assert!(!Frame::Spare { first: u16::MAX }.is_valid());
    assert!(!Frame::Open { first: 5, second: 5 }.is_valid());
    assert!(!Frame::Open { first: 10, second: 0 }.is_valid());
    assert!(!Frame::Open { first: 0, second: 10 }.is_valid());
    assert!(!Frame::Open { first: u16::MAX, second: 1 }.is_valid());
    assert!(!Frame::Open { first: 1, second: u16::MAX }.is_valid());
}

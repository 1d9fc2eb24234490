use bowling::game::Game;
use bowling::generators::{BowlingGenerator, DiceGenerator, Frame, LastFrame, UniformGenerator};
use rand::rngs::StdRng;
use rand::SeedableRng;

/// Hands out nine frames and then a tenth of its own.
struct Fixed {
    frames: [Frame; 9],
    last_frame: LastFrame,
    drawn: usize,
}

impl BowlingGenerator for Fixed {
    fn generate_frame(&mut self) -> Frame {
        let frame = self.frames[self.drawn % 9];
        self.drawn += 1;
        frame
    }

    fn generate_last_frame(&mut self) -> LastFrame {
        self.last_frame
    }
}

/// Hands out the frames of a list in turn, and leaves the tenth frame to
/// the default.
struct Script {
    frames: Vec<Frame>,
    drawn: usize,
}

impl BowlingGenerator for Script {
    fn generate_frame(&mut self) -> Frame {
        let frame = self.frames[self.drawn % self.frames.len()];
        self.drawn += 1;
        frame
    }
}

fn mixed_game() -> Game {
    Game::new(
        [
            Frame::Strike,
            Frame::Spare { first: 7 },
            Frame::Open { first: 4, second: 2 },
            Frame::Open { first: 0, second: 0 },
            Frame::Strike,
            Frame::Strike,
            Frame::Spare { first: 0 },
            Frame::Open { first: 9, second: 0 },
            Frame::Strike,
        ],
        LastFrame::StrikeOpen { second: 5, third: 2 },
    )
}

#[test]
fn perfect_game_scores_thirty_a_frame() {
    let game = Game::new([Frame::Strike; 9], LastFrame::TripleStrike);
    assert_eq!(game.get_frame_scores(), [30, 30, 30, 30, 30, 30, 30, 30, 30, 30]);
    assert_eq!(
        game.get_cumulative_frame_scores(),
        [30, 60, 90, 120, 150, 180, 210, 240, 270, 300]
    );
}

#[test]
fn gutter_game_scores_nothing() {
    let gutter = Frame::Open { first: 0, second: 0 };
    let game = Game::new([gutter; 9], LastFrame::Open { first: 0, second: 0 });
    assert_eq!(game.get_frame_scores(), [0; 10]);
    assert_eq!(game.get_cumulative_frame_scores(), [0; 10]);
}

#[test]
fn spare_takes_the_next_roll_as_bonus() {
    let mut frames = [Frame::Open { first: 0, second: 0 }; 9];
    frames[0] = Frame::Spare { first: 7 };
    frames[1] = Frame::Open { first: 4, second: 2 };
    let game = Game::new(frames, LastFrame::Open { first: 0, second: 0 });
    let scores = game.get_frame_scores();
    assert_eq!(scores[0], 14);
    assert_eq!(scores[1], 6);
    let totals = game.get_cumulative_frame_scores();
    assert_eq!(totals[0], 14);
    assert_eq!(totals[1], 20);
    assert_eq!(totals, [14, 20, 20, 20, 20, 20, 20, 20, 20, 20]);
}

#[test]
fn ninth_frame_strike_takes_two_rolls_of_the_last_frame() {
    let mut frames = [Frame::Open { first: 0, second: 0 }; 9];
    frames[8] = Frame::Strike;
    let game = Game::new(frames, LastFrame::StrikeOpen { second: 5, third: 2 });
    let scores = game.get_frame_scores();
    assert_eq!(scores[8], 25);
    assert_eq!(scores[9], 17);
    assert_eq!(game.get_cumulative_frame_scores()[9], 42);
}

#[test]
fn eighth_frame_strike_reaches_into_the_last_frame() {
    let mut frames = [Frame::Open { first: 1, second: 1 }; 9];
    frames[7] = Frame::Strike;
    frames[8] = Frame::Strike;
    let game = Game::new(frames, LastFrame::SpareOpen { first: 6, third: 3 });
    let scores = game.get_frame_scores();
    assert_eq!(scores[7], 26);
    assert_eq!(scores[8], 20);
    assert_eq!(scores[9], 13);
}

#[test]
fn ninth_frame_spare_takes_the_first_roll_of_the_last_frame() {
    let mut frames = [Frame::Open { first: 0, second: 0 }; 9];
    frames[8] = Frame::Spare { first: 2 };
    let game = Game::new(frames, LastFrame::Open { first: 3, second: 4 });
    let scores = game.get_frame_scores();
    assert_eq!(scores[8], 13);
    assert_eq!(scores[9], 7);
}

#[test]
fn strike_before_a_spare_takes_both_its_rolls() {
    let mut frames = [Frame::Open { first: 0, second: 0 }; 9];
    frames[2] = Frame::Strike;
    frames[3] = Frame::Spare { first: 4 };
    frames[4] = Frame::Open { first: 5, second: 0 };
    let game = Game::new(frames, LastFrame::Open { first: 0, second: 0 });
    let scores = game.get_frame_scores();
    assert_eq!(scores[2], 20);
    assert_eq!(scores[3], 15);
    assert_eq!(scores[4], 5);
}

#[test]
fn mixed_game_scores() {
    let game = mixed_game();
    assert_eq!(game.get_frame_scores(), [20, 14, 6, 0, 20, 20, 19, 9, 25, 17]);
    assert_eq!(
        game.get_cumulative_frame_scores(),
        [20, 34, 40, 40, 60, 80, 99, 108, 133, 150]
    );
}

#[test]
fn mixed_game_in_plain_characters() {
    let expected = [
        "___________________________________________",
        "|X| |7|/|4|2|-|-|X| |X| |-|/|9|-|X| |X|5|2|",
        "| '-| '-| '-| '-| '-| '-| '-| '-| '-| '---|",
        "| 20| 34| 40| 40| 60| 80| 99|108|133|  150|",
        "|___|___|___|___|___|___|___|___|___|_____|",
    ]
    .join("\n");
    assert_eq!(mixed_game().get_ascii_string(), expected);
}

#[test]
fn mixed_game_with_box_drawing_characters() {
    let expected = [
        "┌─┬─┬─┬─┬─┬─┬─┬─┬─┬─┬─┬─┬─┬─┬─┬─┬─┬─┬─┬─┬─┐",
        "│X│ │7│/│4|2│-|-│X│ │X│ │-│/│9|-│X│ │X|5|2│",
        "│ └─┤ └─┤ └─┤ └─┤ └─┤ └─┤ └─┤ └─┤ └─┤ └─┴─┤",
        "│ 20│ 34│ 40│ 40│ 60│ 80│ 99│108│133│  150│",
        "└───┴───┴───┴───┴───┴───┴───┴───┴───┴─────┘",
    ]
    .join("\n");
    assert_eq!(mixed_game().get_ansi_string(), expected);
}

#[test]
fn perfect_game_in_plain_characters() {
    let game = Game::new([Frame::Strike; 9], LastFrame::TripleStrike);
    let expected = [
        "___________________________________________",
        "|X| |X| |X| |X| |X| |X| |X| |X| |X| |X|X|X|",
        "| '-| '-| '-| '-| '-| '-| '-| '-| '-| '---|",
        "| 30| 60| 90|120|150|180|210|240|270|  300|",
        "|___|___|___|___|___|___|___|___|___|_____|",
    ]
    .join("\n");
    assert_eq!(game.get_ascii_string(), expected);
}

#[test]
fn gutter_game_in_plain_characters() {
    let gutter = Frame::Open { first: 0, second: 0 };
    let game = Game::new([gutter; 9], LastFrame::Open { first: 0, second: 0 });
    let expected = [
        "___________________________________________",
        "|-|-|-|-|-|-|-|-|-|-|-|-|-|-|-|-|-|-|-|-| |",
        "| '-| '-| '-| '-| '-| '-| '-| '-| '-| '---|",
        "|  0|  0|  0|  0|  0|  0|  0|  0|  0|    0|",
        "|___|___|___|___|___|___|___|___|___|_____|",
    ]
    .join("\n");
    assert_eq!(game.get_ascii_string(), expected);
}

#[test]
fn scoreboard_rows_are_equally_wide() {
    let game = mixed_game();
    for text in [game.get_ascii_string(), game.get_ansi_string()] {
        let rows: Vec<&str> = text.split('\n').collect();
        assert_eq!(rows.len(), 5);
        for row in rows {
            assert_eq!(row.chars().count(), 43);
        }
    }
}

#[test]
fn generate_keeps_the_frames_in_the_order_drawn() {
    let strategy = Fixed {
        frames: [
            Frame::Strike,
            Frame::Spare { first: 7 },
            Frame::Open { first: 4, second: 2 },
            Frame::Open { first: 0, second: 0 },
            Frame::Strike,
            Frame::Strike,
            Frame::Spare { first: 0 },
            Frame::Open { first: 9, second: 0 },
            Frame::Strike,
        ],
        last_frame: LastFrame::StrikeOpen { second: 5, third: 2 },
        drawn: 0,
    };
    let game = Game::generate(strategy);
    assert_eq!(game.get_frame_scores(), [20, 14, 6, 0, 20, 20, 19, 9, 25, 17]);
    assert_eq!(game.get_ascii_string(), mixed_game().get_ascii_string());
}

#[test]
fn generate_draws_the_last_frame_after_the_ninth() {
    let mut frames = vec![Frame::Open { first: 1, second: 2 }; 9];
    frames.push(Frame::Spare { first: 5 });
    frames.push(Frame::Strike);
    let game = Game::generate(Script { frames, drawn: 0 });
    assert_eq!(game.get_frame_scores(), [3, 3, 3, 3, 3, 3, 3, 3, 3, 20]);
    assert_eq!(game.get_cumulative_frame_scores()[9], 47);
}

#[test]
fn generate_from_strikes_alone_is_a_perfect_game() {
    let game = Game::generate(Script { frames: vec![Frame::Strike], drawn: 0 });
    assert_eq!(game.get_frame_scores(), [30; 10]);
    assert_eq!(game.get_cumulative_frame_scores()[9], 300);
}

fn assert_totals_add_up(game: &Game) {
    let scores = game.get_frame_scores();
    let totals = game.get_cumulative_frame_scores();
    let mut sum = 0;
    for i in 0..10 {
        assert!(scores[i] <= 30);
        sum += scores[i];
        assert_eq!(totals[i], sum);
    }
    assert!(totals[9] <= 300);
    let text = game.get_ascii_string();
    for row in text.split('\n') {
        assert_eq!(row.chars().count(), 43);
    }
}

#[test]
fn dice_games_add_up() {
    for seed in 0..200u64 {
        let game = Game::generate(DiceGenerator::new(StdRng::seed_from_u64(seed)));
        assert_totals_add_up(&game);
    }
}

#[test]
fn uniform_games_add_up() {
    for seed in 0..200u64 {
        let game = Game::generate(UniformGenerator::new(StdRng::seed_from_u64(seed)));
        assert_totals_add_up(&game);
    }
}

#[test]
fn same_seed_gives_the_same_game() {
    let one = Game::generate(DiceGenerator::new(StdRng::seed_from_u64(7)));
    let two = Game::generate(DiceGenerator::new(StdRng::seed_from_u64(7)));
    assert_eq!(one.get_ansi_string(), two.get_ansi_string());
    let one = Game::generate(UniformGenerator::new(StdRng::seed_from_u64(7)));
    let two = Game::generate(UniformGenerator::new(StdRng::seed_from_u64(7)));
    assert_eq!(one.get_ascii_string(), two.get_ascii_string());
}

#[test]
fn ten_pins_shown_as_a_number_widen_the_row_of_rolls() {
    let gutter = Frame::Open { first: 0, second: 0 };
    let game = Game::new([gutter; 9], LastFrame::SpareOpen { first: 4, third: 10 });
    let text = game.get_ascii_string();
    let rows: Vec<&str> = text.split('\n').collect();
    assert_eq!(rows[1], "|-|-|-|-|-|-|-|-|-|-|-|-|-|-|-|-|-|-|4|/|10|");
    assert_eq!(rows[3], "|  0|  0|  0|  0|  0|  0|  0|  0|  0|   20|");
    assert_eq!(rows[1].chars().count(), 44);
    assert_eq!(rows[3].chars().count(), 43);
}

//! The tenth frame of a game.

use crate::generators::frame::Frame;
use crate::pins::{lemma_total_of_three, lemma_total_of_two, pins, sum_pins, total};
use crate::text::{format_number, glyph, lemma_glyph_len};
use vstd::prelude::*;
use vstd::string::*;

verus! {

/// The tenth frame: two rolls, or three where the first two clear the rack.
/// A variant names what is rolled, and holds the pin counts that this does
/// not fix.
#[derive(Debug, Clone, Copy, PartialEq, Eq, Hash, Structural)]
pub enum LastFrame {
    /// Three strikes.
    TripleStrike,
    /// Two strikes, then `third` pins at a fresh rack.
    DoubleStrikeOpen { third: u16 },
    /// A strike, then a spare at the next rack that begins with `second`
    /// pins.
    StrikeSpare { second: u16 },
    /// A strike, then two rolls that leave pins standing at the next rack.
    StrikeOpen { second: u16, third: u16 },
    /// A spare that begins with `first` pins, then a strike.
    SpareStrike { first: u16 },
    /// A spare that begins with `first` pins, then `third` pins at a fresh
    /// rack.
    SpareOpen { first: u16, third: u16 },
    /// Two rolls that leave pins standing: there is no third roll.
    Open { first: u16, second: u16 },
}

impl LastFrame {
    /// The frame can occur in a game. Rolls at one rack of ten pins leave a
    /// pin standing unless the variant says that the rack is cleared; a roll
    /// at a fresh rack is any count up to ten.
    pub open spec fn wf(self) -> bool {
        match self {
            LastFrame::TripleStrike => true,
            LastFrame::DoubleStrikeOpen { third } => third <= 10,
            LastFrame::StrikeSpare { second } => second < 10,
            LastFrame::StrikeOpen { second, third } => second + third < 10,
            LastFrame::SpareStrike { first } => first < 10,
            LastFrame::SpareOpen { first, third } => first < 10 && third <= 10,
            LastFrame::Open { first, second } => first + second < 10,
        }
    }

    /// Tells whether the frame can occur in a game.
    pub fn is_valid(&self) -> (valid: bool)
        ensures
            valid == self.wf(),
    {
        match *self {
            LastFrame::TripleStrike => true,
            LastFrame::DoubleStrikeOpen { third } => third <= 10,
            LastFrame::StrikeSpare { second } => second < 10,
            LastFrame::StrikeOpen { second, third } => second < 10 && third < 10 - second,
            LastFrame::SpareStrike { first } => first < 10,
            LastFrame::SpareOpen { first, third } => first < 10 && third <= 10,
            LastFrame::Open { first, second } => first < 10 && second < 10 - first,
        }
    }

    /// The pins that each roll of the frame knocks down, in order.
    pub open spec fn rolls(self) -> Seq<int> {
        match self {
            LastFrame::TripleStrike => seq![10, 10, 10],
            LastFrame::DoubleStrikeOpen { third } => seq![10, 10, third as int],
            LastFrame::StrikeSpare { second } => seq![10, second as int, 10 - second],
            LastFrame::StrikeOpen { second, third } => seq![10, second as int, third as int],
            LastFrame::SpareStrike { first } => seq![first as int, 10 - first, 10],
            LastFrame::SpareOpen { first, third } => seq![first as int, 10 - first, third as int],
            LastFrame::Open { first, second } => seq![first as int, second as int],
        }
    }

    /// The tenth frame that up to three draws of a regular frame make, each
    /// draw standing for the rolls at one rack: `None` where the draws given
    /// end with a cleared rack and another draw is needed. A draw that
    /// follows a spare or two strikes gives only its first roll, and a draw
    /// that is not needed is not looked at.
    pub open spec fn composed(first: Frame, second: Option<Frame>, third: Option<Frame>) -> Option<
        LastFrame,
    > {
        match first {
            Frame::Open { first, second } => Some(LastFrame::Open { first, second }),
            Frame::Spare { first } => match second {
                None => None,
                Some(Frame::Strike) => Some(LastFrame::SpareStrike { first }),
                Some(Frame::Spare { first: third }) => Some(LastFrame::SpareOpen { first, third }),
                Some(Frame::Open { first: third, .. }) => Some(
                    LastFrame::SpareOpen { first, third },
                ),
            },
            Frame::Strike => match second {
                None => None,
                Some(Frame::Open { first: second, second: third }) => Some(
                    LastFrame::StrikeOpen { second, third },
                ),
                Some(Frame::Spare { first: second }) => Some(LastFrame::StrikeSpare { second }),
                Some(Frame::Strike) => match third {
                    None => None,
                    Some(Frame::Strike) => Some(LastFrame::TripleStrike),
                    Some(Frame::Spare { first: third }) => Some(
                        LastFrame::DoubleStrikeOpen { third },
                    ),
                    Some(Frame::Open { first: third, .. }) => Some(
                        LastFrame::DoubleStrikeOpen { third },
                    ),
                },
            },
        }
    }

    /// Packs up to three draws of a regular frame into the tenth frame, or
    /// says with `None` that the draws given do not end it yet.
    pub fn compose(first: Frame, second: Option<Frame>, third: Option<Frame>) -> (last: Option<
        LastFrame,
    >)
        ensures
            last == LastFrame::composed(first, second, third),
            second is Some && third is Some ==> last is Some,
            first.wf() && (second is Some ==> second->Some_0.wf()) && (third is Some
                ==> third->Some_0.wf()) && last is Some ==> last->Some_0.wf(),
    {
        match first {
            Frame::Open { first, second } => Some(LastFrame::Open { first, second }),
            Frame::Spare { first } => match second {
                None => None,
                Some(Frame::Strike) => Some(LastFrame::SpareStrike { first }),
                Some(Frame::Spare { first: third }) => Some(LastFrame::SpareOpen { first, third }),
                Some(Frame::Open { first: third, .. }) => Some(
                    LastFrame::SpareOpen { first, third },
                ),
            },
            Frame::Strike => match second {
                None => None,
                Some(Frame::Open { first: second, second: third }) => Some(
                    LastFrame::StrikeOpen { second, third },
                ),
                Some(Frame::Spare { first: second }) => Some(LastFrame::StrikeSpare { second }),
                Some(Frame::Strike) => match third {
                    None => None,
                    Some(Frame::Strike) => Some(LastFrame::TripleStrike),
                    Some(Frame::Spare { first: third }) => Some(
                        LastFrame::DoubleStrikeOpen { third },
                    ),
                    Some(Frame::Open { first: third, .. }) => Some(
                        LastFrame::DoubleStrikeOpen { third },
                    ),
                },
            },
        }
    }

    /// The score of the frame: the pins of all its rolls. Nothing follows
    /// the tenth frame, so it takes no bonus from elsewhere.
    pub fn get_score(&self) -> (score: u16)
        requires
            self.wf(),
        ensures
            score as int == total(self.rolls()),
            score <= 30,
    {
        let rolls = self.get_sub_scores();
        proof {
            self.lemma_pins_in_frame();
        }
        sum_pins(&rolls)
    }

    /// The pins that each roll of the frame knocks down, in order.
    pub fn get_sub_scores(&self) -> (rolls: Vec<u16>)
        requires
            self.wf(),
        ensures
            pins(rolls@) == self.rolls(),
    {
        let rolls: Vec<u16> = match *self {
            LastFrame::TripleStrike => vec![10, 10, 10],
            LastFrame::DoubleStrikeOpen { third } => vec![10, 10, third],
            LastFrame::StrikeSpare { second } => {
                let rest: u16 = 10 - second;
                vec![10, second, rest]
            },
            LastFrame::StrikeOpen { second, third } => vec![10, second, third],
            LastFrame::SpareStrike { first } => {
                let rest: u16 = 10 - first;
                vec![first, rest, 10]
            },
            LastFrame::SpareOpen { first, third } => {
                let rest: u16 = 10 - first;
                vec![first, rest, third]
            },
            LastFrame::Open { first, second } => vec![first, second],
        };
        assert(pins(rolls@) =~= self.rolls());
        rolls
    }

    /// The rolls of the frame as the scoreboard shows them in its drawing
    /// with box-drawing characters: `X` for a strike, `/` for a spare, a
    /// blank for a third roll that is not made, and a bar after each. Some
    /// of the bars inside the frame are plain ones.
    pub open spec fn ansi_text(self) -> Seq<char> {
        match self {
            LastFrame::TripleStrike => "X│X|X│"@,
            LastFrame::DoubleStrikeOpen { third } => "X│X│"@ + glyph(third as nat) + "│"@,
            LastFrame::StrikeSpare { second } => "X│"@ + glyph(second as nat) + "|/│"@,
            LastFrame::StrikeOpen { second, third } => "X|"@ + glyph(second as nat) + "|"@
                + glyph(third as nat) + "│"@,
            LastFrame::SpareStrike { first } => glyph(first as nat) + "│/│X│"@,
            LastFrame::SpareOpen { first, third } => glyph(first as nat) + "│/│"@
                + glyph(third as nat) + "│"@,
            LastFrame::Open { first, second } => glyph(first as nat) + "│"@
                + glyph(second as nat) + "│ │"@,
        }
    }

    /// The rolls of the frame as the scoreboard shows them in its drawing
    /// with plain characters: `X` for a strike, `/` for a spare, a blank for
    /// a third roll that is not made, and a bar after each.
    pub open spec fn ascii_text(self) -> Seq<char> {
        match self {
            LastFrame::TripleStrike => "X|X|X|"@,
            LastFrame::DoubleStrikeOpen { third } => "X|X|"@ + glyph(third as nat) + "|"@,
            LastFrame::StrikeSpare { second } => "X|"@ + glyph(second as nat) + "|/|"@,
            LastFrame::StrikeOpen { second, third } => "X|"@ + glyph(second as nat) + "|"@
                + glyph(third as nat) + "|"@,
            LastFrame::SpareStrike { first } => glyph(first as nat) + "|/|X|"@,
            LastFrame::SpareOpen { first, third } => glyph(first as nat) + "|/|"@
                + glyph(third as nat) + "|"@,
            LastFrame::Open { first, second } => glyph(first as nat) + "|"@
                + glyph(second as nat) + "| |"@,
        }
    }

    /// Writes the rolls of the frame for the scoreboard drawn with
    /// box-drawing characters.
    pub fn sub_score_ansi_string(&self) -> (text: String)
        ensures
            text@ == self.ansi_text(),
    {
        match *self {
            LastFrame::TripleStrike => String::from_str("X│X|X│"),
            LastFrame::DoubleStrikeOpen { third } => {
                let mut text = String::from_str("X│X│");
                text.append(format_number(third).as_str());
                text.append("│");
                text
            },
            LastFrame::StrikeSpare { second } => {
                let mut text = String::from_str("X│");
                text.append(format_number(second).as_str());
                text.append("|/│");
                text
            },
            LastFrame::StrikeOpen { second, third } => {
                let mut text = String::from_str("X|");
                text.append(format_number(second).as_str());
                text.append("|");
                text.append(format_number(third).as_str());
                text.append("│");
                text
            },
            LastFrame::SpareStrike { first } => {
                let mut text = format_number(first);
                text.append("│/│X│");
                text
            },
            LastFrame::SpareOpen { first, third } => {
                let mut text = format_number(first);
                text.append("│/│");
                text.append(format_number(third).as_str());
                text.append("│");
                text
            },
            LastFrame::Open { first, second } => {
                let mut text = format_number(first);
                text.append("│");
                text.append(format_number(second).as_str());
                text.append("│ │");
                text
            },
        }
    }

    /// Writes the rolls of the frame for the scoreboard drawn with plain
    /// characters.
    pub fn sub_score_ascii_string(&self) -> (text: String)
        ensures
            text@ == self.ascii_text(),
    {
        match *self {
            LastFrame::TripleStrike => String::from_str("X|X|X|"),
            LastFrame::DoubleStrikeOpen { third } => {
                let mut text = String::from_str("X|X|");
                text.append(format_number(third).as_str());
                text.append("|");
                text
            },
            LastFrame::StrikeSpare { second } => {
                let mut text = String::from_str("X|");
                text.append(format_number(second).as_str());
                text.append("|/|");
                text
            },
            LastFrame::StrikeOpen { second, third } => {
                let mut text = String::from_str("X|");
                text.append(format_number(second).as_str());
                text.append("|");
                text.append(format_number(third).as_str());
                text.append("|");
                text
            },
            LastFrame::SpareStrike { first } => {
                let mut text = format_number(first);
                text.append("|/|X|");
                text
            },
            LastFrame::SpareOpen { first, third } => {
                let mut text = format_number(first);
                text.append("|/|");
                text.append(format_number(third).as_str());
                text.append("|");
                text
            },
            LastFrame::Open { first, second } => {
                let mut text = format_number(first);
                text.append("|");
                text.append(format_number(second).as_str());
                text.append("| |");
                text
            },
        }
    }

    /// The rolls that up to three draws stand for, one draw after the other.
    pub open spec fn drawn_rolls(first: Frame, second: Option<Frame>, third: Option<Frame>) -> Seq<
        int,
    > {
        first.rolls() + match second {
            Some(draw) => draw.rolls(),
            None => Seq::empty(),
        } + match third {
            Some(draw) => draw.rolls(),
            None => Seq::empty(),
        }
    }

    /// Composing reads the draws as the rolls of the tenth frame. Where a
    /// third frame is only drawn after a second, the draws make a tenth frame
    /// as soon as they hold its rolls: two that leave a pin standing, or
    /// three. Its rolls are then the first of the rolls drawn, and it can
    /// occur in a game.
    pub proof fn lemma_composed_rolls(first: Frame, second: Option<Frame>, third: Option<Frame>)
        requires
            first.wf(),
            second matches Some(draw) ==> draw.wf(),
            third matches Some(draw) ==> draw.wf(),
            third is Some ==> second is Some,
        ensures
            ({
                let drawn = LastFrame::drawn_rolls(first, second, third);
                let needed: int = if drawn.len() >= 2 && drawn[0] + drawn[1] < 10 {
                    2
                } else {
                    3
                };
                match LastFrame::composed(first, second, third) {
                    Some(last) => last.wf() && needed <= drawn.len() && last.rolls() == drawn.take(
                        needed,
                    ),
                    None => drawn.len() < needed,
                }
            }),
    {
        let drawn = LastFrame::drawn_rolls(first, second, third);
        match LastFrame::composed(first, second, third) {
            Some(last) => {
                assert(last.rolls() =~= drawn.take(last.rolls().len() as int));
            },
            None => {},
        }
    }

    /// A draw that is not needed is not looked at: once the draws make a
    /// tenth frame, further draws leave it as it is.
    pub proof fn lemma_composed_is_settled(first: Frame, second: Frame, third: Frame)
        ensures
            LastFrame::composed(first, None, None) is Some ==> LastFrame::composed(
                first,
                Some(second),
                None,
            ) == LastFrame::composed(first, None, None),
            LastFrame::composed(first, Some(second), None) is Some ==> LastFrame::composed(
                first,
                Some(second),
                Some(third),
            ) == LastFrame::composed(first, Some(second), None),
            LastFrame::composed(first, Some(second), Some(third)) is Some,
    {
    }

    /// The last roll is made at a fresh rack and clears it, yet the frame
    /// holds it as a number of pins.
    pub open spec fn ends_on_ten_pins(self) -> bool {
        match self {
            LastFrame::DoubleStrikeOpen { third } => third == 10,
            LastFrame::SpareOpen { third, .. } => third == 10,
            _ => false,
        }
    }

    /// The text of a tenth frame that can occur in a game is six characters
    /// wide, or seven where it shows a roll of ten pins as a number.
    pub proof fn lemma_text_width(self)
        requires
            self.wf(),
        ensures
            self.ansi_text().len() == if self.ends_on_ten_pins() {
                7nat
            } else {
                6nat
            },
            self.ascii_text().len() == self.ansi_text().len(),
    {
        reveal_strlit("X│X|X│");
        reveal_strlit("X│X│");
        reveal_strlit("│");
        reveal_strlit("X│");
        reveal_strlit("|/│");
        reveal_strlit("X|");
        reveal_strlit("|");
        reveal_strlit("│/│X│");
        reveal_strlit("│/│");
        reveal_strlit("│ │");
        reveal_strlit("X|X|X|");
        reveal_strlit("X|X|");
        reveal_strlit("|/|");
        reveal_strlit("|/|X|");
        reveal_strlit("| |");
        match self {
            LastFrame::TripleStrike => {},
            LastFrame::DoubleStrikeOpen { third } => {
                lemma_glyph_len(third as nat);
            },
            LastFrame::StrikeSpare { second } => {
                lemma_glyph_len(second as nat);
            },
            LastFrame::StrikeOpen { second, third } => {
                lemma_glyph_len(second as nat);
                lemma_glyph_len(third as nat);
            },
            LastFrame::SpareStrike { first } => {
                lemma_glyph_len(first as nat);
            },
            LastFrame::SpareOpen { first, third } => {
                lemma_glyph_len(first as nat);
                lemma_glyph_len(third as nat);
            },
            LastFrame::Open { first, second } => {
                lemma_glyph_len(first as nat);
                lemma_glyph_len(second as nat);
            },
        }
    }

    /// The tenth frame has two or three rolls, each of zero to ten pins. It
    /// has three exactly where the first two clear a rack, and then scores
    /// ten to thirty pins; an open tenth frame scores fewer than ten.
    pub proof fn lemma_pins_in_frame(self)
        requires
            self.wf(),
        ensures
            2 <= self.rolls().len() <= 3,
            forall|i: int| 0 <= i < self.rolls().len() ==> 0 <= #[trigger] self.rolls()[i] <= 10,
            self.rolls().len() == 3 <==> self.rolls()[0] + self.rolls()[1] >= 10,
            self.rolls().len() == 3 ==> 10 <= total(self.rolls()) <= 30,
            self.rolls().len() == 2 ==> total(self.rolls()) < 10,
    {
        let rolls = self.rolls();
        if rolls.len() == 2 {
            lemma_total_of_two(rolls[0], rolls[1]);
            assert(rolls =~= seq![rolls[0], rolls[1]]);
        } else {
            lemma_total_of_three(rolls[0], rolls[1], rolls[2]);
            assert(rolls =~= seq![rolls[0], rolls[1], rolls[2]]);
        }
    }
}

} // verus!

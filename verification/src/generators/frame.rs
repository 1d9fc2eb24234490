//! One of the first nine frames of a game.

use crate::pins::{lemma_total_of_one, lemma_total_of_two, pins, sum_pins, total};
use crate::text::{format_number, glyph, lemma_glyph_len};
use vstd::prelude::*;
use vstd::string::*;

verus! {

/// A regular frame: one or two rolls at a rack of ten pins.
#[derive(Debug, Clone, Copy, PartialEq, Eq, Hash, Structural)]
pub enum Frame {
    /// All ten pins fall on the first roll.
    Strike,
    /// `first` pins fall on the first roll, the rest on the second.
    Spare { first: u16 },
    /// Pins are left standing after both rolls.
    Open { first: u16, second: u16 },
}

impl Frame {
    /// The frame can occur in a game: a spare leaves pins for its second
    /// roll, and an open frame leaves pins standing at its end.
    pub open spec fn wf(self) -> bool {
        match self {
            Frame::Strike => true,
            Frame::Spare { first } => first < 10,
            Frame::Open { first, second } => first + second < 10,
        }
    }

    /// Tells whether the frame can occur in a game.
    pub fn is_valid(&self) -> (valid: bool)
        ensures
            valid == self.wf(),
    {
        match *self {
            Frame::Strike => true,
            Frame::Spare { first } => first < 10,
            Frame::Open { first, second } => first < 10 && second < 10 - first,
        }
    }

    /// The pins that each roll of the frame knocks down, in order.
    pub open spec fn rolls(self) -> Seq<int> {
        match self {
            Frame::Strike => seq![10],
            Frame::Spare { first } => seq![first as int, 10 - first],
            Frame::Open { first, second } => seq![first as int, second as int],
        }
    }

    /// The frame that two pin counts make: a strike where the first roll
    /// clears the rack, a spare where both rolls together do, else an open
    /// frame.
    pub open spec fn of_pins(first: int, second: int) -> Frame {
        if first == 10 {
            Frame::Strike
        } else if first + second == 10 {
            Frame::Spare { first: first as u16 }
        } else {
            Frame::Open { first: first as u16, second: second as u16 }
        }
    }

    /// Packs the pins of a first and a second roll into a frame. After a
    /// first roll of ten pins the second count is not looked at.
    pub fn from_pins(first: u16, second: u16) -> (frame: Frame)
        requires
            first <= 10,
            first < 10 ==> first + second <= 10,
        ensures
            frame == Frame::of_pins(first as int, second as int),
            frame.wf(),
    {
        if first == 10 {
            Frame::Strike
        } else if first + second == 10 {
            Frame::Spare { first }
        } else {
            Frame::Open { first, second }
        }
    }

    /// The pins of the frame alone, without the bonus that later rolls add
    /// to a strike or a spare.
    pub fn get_score(&self) -> (score: u16)
        requires
            self.wf(),
        ensures
            score as int == total(self.rolls()),
            score <= 10,
    {
        let rolls = self.get_sub_scores();
        proof {
            self.lemma_pins_in_frame();
        }
        sum_pins(&rolls)
    }

    /// The pins that each roll of the frame knocks down, in order.
    pub fn get_sub_scores(&self) -> (rolls: Vec<u16>)
        requires
            self.wf(),
        ensures
            pins(rolls@) == self.rolls(),
    {
        let rolls: Vec<u16> = match *self {
            Frame::Strike => vec![10],
            Frame::Spare { first } => {
                let rest: u16 = 10 - first;
                vec![first, rest]
            },
            Frame::Open { first, second } => vec![first, second],
        };
        assert(pins(rolls@) =~= self.rolls());
        rolls
    }

    /// The rolls of the frame as the scoreboard shows them in its drawing
    /// with box-drawing characters: `X` for a strike, `/` for a spare, and a
    /// bar after each roll. The bar between the rolls of an open frame is a
    /// plain one.
    pub open spec fn ansi_text(self) -> Seq<char> {
        match self {
            Frame::Strike => "X│ │"@,
            Frame::Spare { first } => glyph(first as nat) + "│/│"@,
            Frame::Open { first, second } => glyph(first as nat) + "|"@ + glyph(second as nat)
                + "│"@,
        }
    }

    /// The rolls of the frame as the scoreboard shows them in its drawing
    /// with plain characters: `X` for a strike, `/` for a spare, and a bar
    /// after each roll.
    pub open spec fn ascii_text(self) -> Seq<char> {
        match self {
            Frame::Strike => "X| |"@,
            Frame::Spare { first } => glyph(first as nat) + "|/|"@,
            Frame::Open { first, second } => glyph(first as nat) + "|"@ + glyph(second as nat)
                + "|"@,
        }
    }

    /// Writes the rolls of the frame for the scoreboard drawn with
    /// box-drawing characters.
    pub fn sub_score_ansi_string(&self) -> (text: String)
        ensures
            text@ == self.ansi_text(),
    {
        match *self {
            Frame::Strike => String::from_str("X│ │"),
            Frame::Spare { first } => {
                let mut text = format_number(first);
                text.append("│/│");
                text
            },
            Frame::Open { first, second } => {
                let mut text = format_number(first);
                text.append("|");
                text.append(format_number(second).as_str());
                text.append("│");
                text
            },
        }
    }

    /// Writes the rolls of the frame for the scoreboard drawn with plain
    /// characters.
    pub fn sub_score_ascii_string(&self) -> (text: String)
        ensures
            text@ == self.ascii_text(),
    {
        match *self {
            Frame::Strike => String::from_str("X| |"),
            Frame::Spare { first } => {
                let mut text = format_number(first);
                text.append("|/|");
                text
            },
            Frame::Open { first, second } => {
                let mut text = format_number(first);
                text.append("|");
                text.append(format_number(second).as_str());
                text.append("|");
                text
            },
        }
    }

    /// The text of a frame that can occur in a game is four characters
    /// wide.
    pub proof fn lemma_text_width(self)
        requires
            self.wf(),
        ensures
            self.ansi_text().len() == 4,
            self.ascii_text().len() == 4,
    {
        reveal_strlit("X│ │");
        reveal_strlit("│/│");
        reveal_strlit("│");
        reveal_strlit("X| |");
        reveal_strlit("|/|");
        reveal_strlit("|");
        match self {
            Frame::Strike => {},
            Frame::Spare { first } => {
                lemma_glyph_len(first as nat);
            },
            Frame::Open { first, second } => {
                lemma_glyph_len(first as nat);
                lemma_glyph_len(second as nat);
            },
        }
    }

    /// A frame has one or two rolls, each of zero to ten pins, and they sum
    /// to ten pins at most: to exactly ten for a strike and a spare, to
    /// fewer for an open frame.
    pub proof fn lemma_pins_in_frame(self)
        requires
            self.wf(),
        ensures
            1 <= self.rolls().len() <= 2,
            forall|i: int| 0 <= i < self.rolls().len() ==> 0 <= #[trigger] self.rolls()[i] <= 10,
            total(self.rolls()) <= 10,
            self is Open <==> total(self.rolls()) < 10,
    {
        match self {
            Frame::Strike => lemma_total_of_one(10),
            Frame::Spare { first } => lemma_total_of_two(first as int, 10 - first),
            Frame::Open { first, second } => lemma_total_of_two(first as int, second as int),
        }
    }

    /// An open frame that can occur in a game leaves a pin standing, and
    /// its rolls are its two pin counts.
    pub proof fn lemma_open_rolls(first: u16, second: u16)
        requires
            (Frame::Open { first, second }).wf(),
        ensures
            first + second < 10,
            (Frame::Open { first, second }).rolls() == seq![first as int, second as int],
    {
    }

    /// A spare that can occur in a game leaves a pin for its second roll,
    /// which knocks down what the first left standing.
    pub proof fn lemma_spare_rolls(first: u16)
        requires
            (Frame::Spare { first }).wf(),
        ensures
            0 <= first < 10,
            (Frame::Spare { first }).rolls() == seq![first as int, 10 - first],
    {
    }
}

} // verus!

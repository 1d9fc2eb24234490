//! A game of ten frames and its scores.

use crate::generators::{may_draw, may_draw_last, BowlingGenerator, Frame, LastFrame};
use crate::pins::{lemma_total_bounds, lemma_total_of_two, pins, total};
use crate::text::{
    align_right, decimal, lemma_decimal_len, lemma_repeated_len, lemma_right_aligned_len, repeat,
    repeated, right_aligned, to_decimal,
};
use vstd::prelude::*;
use vstd::string::*;

verus! {

/// A whole game: nine regular frames and the tenth. It is put together once
/// and never changed.
pub struct Game {
    frames: [Frame; 9],
    last_frame: LastFrame,
}

/// What a game holds, as the scoring rules see it.
pub struct GameView {
    pub frames: Seq<Frame>,
    pub last_frame: LastFrame,
}

impl GameView {
    /// Nine regular frames and a tenth, each of which can occur in a game.
    pub open spec fn wf(self) -> bool {
        &&& self.frames.len() == 9
        &&& forall|i: int| 0 <= i < 9 ==> (#[trigger] self.frames[i]).wf()
        &&& self.last_frame.wf()
    }

    /// The rolls of the game from frame `i` on, in the order rolled. Frames
    /// count from zero; from the tenth frame on these are its rolls alone.
    pub open spec fn rolls_from(self, i: int) -> Seq<int>
        decreases self.frames.len() - i,
    {
        if 0 <= i < self.frames.len() {
            self.frames[i].rolls() + self.rolls_from(i + 1)
        } else {
            self.last_frame.rolls()
        }
    }

    /// The rolls of the game before frame `i`, in the order rolled.
    pub open spec fn rolls_before(self, i: int) -> Seq<int>
        decreases i,
    {
        if 0 < i <= self.frames.len() {
            self.rolls_before(i - 1) + self.frames[i - 1].rolls()
        } else {
            Seq::empty()
        }
    }

    /// The score of frame `i`, counted from zero. An open frame scores its
    /// own pins. A spare scores ten and the pins of the next roll, a strike
    /// ten and the pins of the next two rolls, wherever in the following
    /// frames those rolls are made. The tenth frame scores its own pins.
    pub open spec fn frame_score(self, i: int) -> int {
        if 0 <= i < self.frames.len() {
            let next = self.rolls_from(i + 1);
            match self.frames[i] {
                Frame::Strike => 10 + next[0] + next[1],
                Frame::Spare { .. } => 10 + next[0],
                Frame::Open { first, second } => first + second,
            }
        } else {
            total(self.last_frame.rolls())
        }
    }

    /// The running total after frame `i`, counted from zero: the scores of
    /// the frames up to and including it.
    pub open spec fn cumulative_score(self, i: int) -> int
        decreases i + 1,
    {
        if i < 0 {
            0
        } else {
            self.cumulative_score(i - 1) + self.frame_score(i)
        }
    }

    /// The rolls of the first `n` frames as the scoreboard shows them, with
    /// box-drawing bars where `ansi` is set, else in plain characters.
    pub open spec fn frames_text(self, n: int, ansi: bool) -> Seq<char>
        decreases n,
    {
        if 0 < n <= self.frames.len() {
            self.frames_text(n - 1, ansi) + if ansi {
                self.frames[n - 1].ansi_text()
            } else {
                self.frames[n - 1].ascii_text()
            }
        } else {
            Seq::empty()
        }
    }

    /// The row of running totals up to frame `n`: a bar, then for each frame
    /// its total, right-aligned in a field of three characters (five for
    /// the tenth frame), and a bar.
    pub open spec fn totals_text(self, n: int, bar: Seq<char>) -> Seq<char>
        decreases n,
    {
        if n <= 0 {
            bar
        } else {
            self.totals_text(n - 1, bar) + right_aligned(
                decimal(self.cumulative_score(n - 1) as nat),
                if n == 10 {
                    5
                } else {
                    3
                },
            ) + bar
        }
    }

    /// The scoreboard, drawn with box-drawing characters: five rows, with a
    /// line break between one and the next. The second row holds the rolls,
    /// the fourth the running totals.
    pub open spec fn ansi_text(self) -> Seq<char> {
        let top_row = "┌"@ + repeated("─┬─┬"@, 9) + "─┬─┬─┐"@;
        let sub_scores_row = "│"@ + self.frames_text(9, true) + self.last_frame.ansi_text();
        let middle_row = "│"@ + repeated(" └─┤"@, 9) + " └─┴─┤"@;
        let cumulative_scores_row = self.totals_text(10, "│"@);
        let bottom_row = "└"@ + repeated("───┴"@, 9) + "─────┘"@;
        top_row + "\n"@ + sub_scores_row + "\n"@ + middle_row + "\n"@ + cumulative_scores_row
            + "\n"@ + bottom_row
    }

    /// The scoreboard, drawn in plain characters: five rows, with a line
    /// break between one and the next. The second row holds the rolls, the
    /// fourth the running totals.
    pub open spec fn ascii_text(self) -> Seq<char> {
        let top_row = "_"@ + repeated("____"@, 9) + "______"@;
        let sub_scores_row = "|"@ + self.frames_text(9, false) + self.last_frame.ascii_text();
        let middle_row = "|"@ + repeated(" '-|"@, 9) + " '---|"@;
        let cumulative_scores_row = self.totals_text(10, "|"@);
        let bottom_row = "|"@ + repeated("___|"@, 9) + "_____|"@;
        top_row + "\n"@ + sub_scores_row + "\n"@ + middle_row + "\n"@ + cumulative_scores_row
            + "\n"@ + bottom_row
    }

    /// The rolls before a frame and those from it on are the rolls of the
    /// whole game.
    pub proof fn lemma_rolls_split(self, i: int)
        requires
            0 <= i <= self.frames.len(),
        ensures
            self.rolls_before(i) + self.rolls_from(i) == self.rolls_from(0),
        decreases i,
    {
        if i == 0 {
            assert(self.rolls_before(0) + self.rolls_from(0) =~= self.rolls_from(0));
        } else {
            self.lemma_rolls_split(i - 1);
            assert(self.rolls_before(i) + self.rolls_from(i) =~= self.rolls_before(i - 1)
                + self.rolls_from(i - 1));
        }
    }

    /// In the row of all rolls of the game, the rolls that follow a frame
    /// stand right behind the frame's own: that is where its bonus is read.
    pub proof fn lemma_rolls_behind_frame(self, i: int, k: int)
        requires
            0 <= i < self.frames.len(),
            0 <= k < self.rolls_from(i + 1).len(),
        ensures
            self.rolls_before(i).len() + self.frames[i].rolls().len() + k < self.rolls_from(
                0,
            ).len(),
            self.rolls_from(0)[self.rolls_before(i).len() + self.frames[i].rolls().len() + k]
                == self.rolls_from(i + 1)[k],
    {
        self.lemma_rolls_split(i);
        assert(self.rolls_from(i) == self.frames[i].rolls() + self.rolls_from(i + 1));
    }

    /// At the start of frame `i` at least one roll is still to come for each
    /// frame and one more for the tenth, and no more than two for each frame
    /// and one more for the tenth: a game has eleven to twenty-one rolls.
    /// Every one of them knocks down between zero and ten pins.
    pub proof fn lemma_rolls_to_come(self, i: int)
        requires
            self.wf(),
            0 <= i <= 9,
        ensures
            11 - i <= self.rolls_from(i).len() <= 21 - 2 * i,
            forall|k: int|
                0 <= k < self.rolls_from(i).len() ==> 0 <= #[trigger] self.rolls_from(i)[k] <= 10,
        decreases 9 - i,
    {
        if i == 9 {
            self.last_frame.lemma_pins_in_frame();
        } else {
            self.lemma_rolls_to_come(i + 1);
            self.frames[i].lemma_pins_in_frame();
        }
    }

    /// No frame scores more than thirty pins, nor fewer than none.
    pub proof fn lemma_frame_score_bounds(self, i: int)
        requires
            self.wf(),
            0 <= i <= 9,
        ensures
            0 <= self.frame_score(i) <= 30,
    {
        if i == 9 {
            self.last_frame.lemma_pins_in_frame();
            lemma_total_bounds(self.last_frame.rolls());
        } else {
            self.lemma_rolls_to_come(i + 1);
            let next = self.rolls_from(i + 1);
            assert(0 <= next[0] <= 10);
            assert(0 <= next[1] <= 10);
        }
    }

    /// The running total never falls from one frame to the next, and after
    /// frame `i` it is thirty pins a frame at most: a game scores no more
    /// than three hundred.
    pub proof fn lemma_cumulative_score_bounds(self, i: int)
        requires
            self.wf(),
            0 <= i <= 9,
        ensures
            0 <= self.cumulative_score(i - 1) <= self.cumulative_score(i) <= 30 * (i + 1),
        decreases i,
    {
        self.lemma_frame_score_bounds(i);
        if i > 0 {
            self.lemma_cumulative_score_bounds(i - 1);
        }
    }

    /// An open frame scores its own pins and no more. A spare scores ten to
    /// twenty, a strike ten to thirty.
    pub proof fn lemma_frame_score_by_kind(self, i: int)
        requires
            self.wf(),
            0 <= i < 9,
        ensures
            match self.frames[i] {
                Frame::Open { .. } => self.frame_score(i) == total(self.frames[i].rolls())
                    && self.frame_score(i) < 10,
                Frame::Spare { .. } => 10 <= self.frame_score(i) <= 20,
                Frame::Strike => 10 <= self.frame_score(i) <= 30,
            },
    {
        self.frames[i].lemma_pins_in_frame();
        self.lemma_rolls_to_come(i + 1);
        let next = self.rolls_from(i + 1);
        assert(0 <= next[0] <= 10);
        assert(0 <= next[1] <= 10);
        if let Frame::Open { first, second } = self.frames[i] {
            lemma_total_of_two(first as int, second as int);
        }
    }

    /// The text of the first `n` frames is four characters a frame.
    pub proof fn lemma_frames_text_len(self, n: int, ansi: bool)
        requires
            self.wf(),
            0 <= n <= 9,
        ensures
            self.frames_text(n, ansi).len() == 4 * n,
        decreases n,
    {
        if n > 0 {
            self.lemma_frames_text_len(n - 1, ansi);
            self.frames[n - 1].lemma_text_width();
        }
    }

    /// In the row of running totals each of the first nine frames takes the
    /// three characters of its field and a bar, the tenth five and a bar.
    pub proof fn lemma_totals_text_len(self, n: int, bar: Seq<char>)
        requires
            self.wf(),
            0 <= n <= 10,
        ensures
            self.totals_text(n, bar).len() == bar.len() + n * (3 + bar.len()) + if n == 10 {
                2int
            } else {
                0int
            },
        decreases n,
    {
        if n > 0 {
            self.lemma_totals_text_len(n - 1, bar);
            self.lemma_cumulative_score_bounds(n - 1);
            let numeral = decimal(self.cumulative_score(n - 1) as nat);
            lemma_decimal_len(self.cumulative_score(n - 1) as nat);
            lemma_right_aligned_len(numeral, 3);
            lemma_right_aligned_len(numeral, 5);
            assert(n * (3 + bar.len()) == (n - 1) * (3 + bar.len()) + (3 + bar.len()))
                by (nonlinear_arith);
        } else {
            assert(n * (3 + bar.len()) == 0) by (nonlinear_arith)
                requires
                    n == 0,
            ;
        }
    }

    /// The scoreboard of a game is five rows of forty-three characters,
    /// with a line break after each row but the last. This holds in both
    /// drawings, unless the tenth frame shows a roll of ten pins as a
    /// number, which widens its row.
    pub proof fn lemma_scoreboard_rows(self)
        requires
            self.wf(),
            !self.last_frame.ends_on_ten_pins(),
        ensures
            self.ansi_text().len() == 219,
            self.ascii_text().len() == 219,
            self.ansi_text()[43] == '\n' && self.ascii_text()[43] == '\n',
            self.ansi_text()[87] == '\n' && self.ascii_text()[87] == '\n',
            self.ansi_text()[131] == '\n' && self.ascii_text()[131] == '\n',
            self.ansi_text()[175] == '\n' && self.ascii_text()[175] == '\n',
    {
        reveal_strlit("\n");
        reveal_strlit("┌");
        reveal_strlit("─┬─┬");
        reveal_strlit("─┬─┬─┐");
        reveal_strlit("│");
        reveal_strlit(" └─┤");
        reveal_strlit(" └─┴─┤");
        reveal_strlit("└");
        reveal_strlit("───┴");
        reveal_strlit("─────┘");
        reveal_strlit("_");
        reveal_strlit("____");
        reveal_strlit("______");
        reveal_strlit("|");
        reveal_strlit(" '-|");
        reveal_strlit(" '---|");
        reveal_strlit("___|");
        reveal_strlit("_____|");
        lemma_repeated_len("─┬─┬"@, 9);
        lemma_repeated_len(" └─┤"@, 9);
        lemma_repeated_len("───┴"@, 9);
        lemma_repeated_len("____"@, 9);
        lemma_repeated_len(" '-|"@, 9);
        lemma_repeated_len("___|"@, 9);
        self.lemma_frames_text_len(9, true);
        self.lemma_frames_text_len(9, false);
        self.last_frame.lemma_text_width();
        self.lemma_totals_text_len(10, "│"@);
        self.lemma_totals_text_len(10, "|"@);
    }
}

impl View for Game {
    type V = GameView;

    closed spec fn view(&self) -> GameView {
        GameView { frames: self.frames@, last_frame: self.last_frame }
    }
}

impl Game {
    #[verifier::type_invariant]
    spec fn inv(self) -> bool {
        self@.wf()
    }

    /// The game made of these frames.
    pub fn new(frames: [Frame; 9], last_frame: LastFrame) -> (game: Game)
        requires
            forall|i: int| 0 <= i < 9 ==> (#[trigger] frames@[i]).wf(),
            last_frame.wf(),
        ensures
            game@ == (GameView { frames: frames@, last_frame }),
    {
        Game { frames, last_frame }
    }

    /// Draws nine regular frames and then the tenth from `gen`, and makes
    /// the game of them in the order drawn. Each frame of the game is one
    /// that the strategy handed out, so whatever the strategy promises of
    /// its frames holds of the frames of the game.
    pub fn generate<G: BowlingGenerator>(gen: G) -> (game: Game)
        ensures
            game@.wf(),
            forall|j: int| 0 <= j < 9 ==> may_draw::<G>(#[trigger] game@.frames[j]),
            may_draw_last::<G>(game@.last_frame),
    {
        let mut gen = gen;
        let mut frames = [Frame::Strike; 9];
        let mut i: usize = 0;
        while i < 9
            invariant
                i <= 9,
                forall|j: int| 0 <= j < 9 ==> (#[trigger] frames@[j]).wf(),
                forall|j: int| 0 <= j < i ==> may_draw::<G>(#[trigger] frames@[j]),
            decreases 9 - i,
        {
            let frame = gen.generate_frame();
            assert(may_draw::<G>(frame));
            frames[i] = frame;
            i = i + 1;
        }
        let last_frame = gen.generate_last_frame();
        assert(may_draw_last::<G>(last_frame));
        Game::new(frames, last_frame)
    }

    /// Draws the scoreboard with box-drawing characters.
    pub fn get_ansi_string(&self) -> (text: String)
        ensures
            text@ == self@.ansi_text(),
    {
        let mut top_row = String::from_str("┌");
        top_row.append(repeat("─┬─┬", 9).as_str());
        top_row.append("─┬─┬─┐");

        let sub_scores_row = self.sub_scores_row("│", true);

        let mut middle_row = String::from_str("│");
        middle_row.append(repeat(" └─┤", 9).as_str());
        middle_row.append(" └─┴─┤");

        let cumulative_scores_row = self.cumulative_scores_row("│");

        let mut bottom_row = String::from_str("└");
        bottom_row.append(repeat("───┴", 9).as_str());
        bottom_row.append("─────┘");

        let mut text = top_row;
        text.append("\n");
        text.append(sub_scores_row.as_str());
        text.append("\n");
        text.append(middle_row.as_str());
        text.append("\n");
        text.append(cumulative_scores_row.as_str());
        text.append("\n");
        text.append(bottom_row.as_str());
        text
    }

    /// Draws the scoreboard in plain characters.
    pub fn get_ascii_string(&self) -> (text: String)
        ensures
            text@ == self@.ascii_text(),
    {
        let mut top_row = String::from_str("_");
        top_row.append(repeat("____", 9).as_str());
        top_row.append("______");

        let sub_scores_row = self.sub_scores_row("|", false);

        let mut middle_row = String::from_str("|");
        middle_row.append(repeat(" '-|", 9).as_str());
        middle_row.append(" '---|");

        let cumulative_scores_row = self.cumulative_scores_row("|");

        let mut bottom_row = String::from_str("|");
        bottom_row.append(repeat("___|", 9).as_str());
        bottom_row.append("_____|");

        let mut text = top_row;
        text.append("\n");
        text.append(sub_scores_row.as_str());
        text.append("\n");
        text.append(middle_row.as_str());
        text.append("\n");
        text.append(cumulative_scores_row.as_str());
        text.append("\n");
        text.append(bottom_row.as_str());
        text
    }

    /// The row of rolls: `bar`, then the rolls of each frame in turn.
    fn sub_scores_row(&self, bar: &str, ansi: bool) -> (row: String)
        ensures
            row@ == bar@ + self@.frames_text(9, ansi) + if ansi {
                self@.last_frame.ansi_text()
            } else {
                self@.last_frame.ascii_text()
            },
    {
        proof {
            use_type_invariant(self);
        }
        let ghost game = self@;
        let mut row = String::from_str(bar);
        let mut i: usize = 0;
        while i < 9
            invariant
                i <= 9,
                game == self@,
                game.frames.len() == 9,
                row@ == bar@ + game.frames_text(i as int, ansi),
            decreases 9 - i,
        {
            let frame_text = if ansi {
                self.frames[i].sub_score_ansi_string()
            } else {
                self.frames[i].sub_score_ascii_string()
            };
            row.append(frame_text.as_str());
            i = i + 1;
            assert(row@ =~= bar@ + game.frames_text(i as int, ansi));
        }
        let last_text = if ansi {
            self.last_frame.sub_score_ansi_string()
        } else {
            self.last_frame.sub_score_ascii_string()
        };
        row.append(last_text.as_str());
        row
    }

    /// The row of running totals between bars.
    fn cumulative_scores_row(&self, bar: &str) -> (row: String)
        ensures
            row@ == self@.totals_text(10, bar@),
    {
        let ghost game = self@;
        let totals = self.get_cumulative_frame_scores();
        let mut row = String::from_str(bar);
        let mut i: usize = 0;
        while i < 10
            invariant
                i <= 10,
                forall|j: int| 0 <= j < 10 ==> (#[trigger] totals@[j]) == game.cumulative_score(j),
                row@ == game.totals_text(i as int, bar@),
            decreases 10 - i,
        {
            let len: usize = if i == 9 {
                5
            } else {
                3
            };
            let score = to_decimal(totals[i]);
            row.append(align_right(score.as_str(), len).as_str());
            row.append(bar);
            i = i + 1;
        }
        row
    }

    /// The score of each of the ten frames, bonus rolls included.
    pub fn get_frame_scores(&self) -> (scores: [u16; 10])
        ensures
            self@.wf(),
            forall|i: int| 0 <= i < 10 ==> scores@[i] == self@.frame_score(i),
    {
        proof {
            use_type_invariant(self);
        }
        let ghost game = self@;
        // All rolls of the game in one row, and where in it each frame begins.
        let mut starts = [0usize; 10];
        let mut rolls: Vec<u16> = Vec::new();
        let mut i: usize = 0;
        while i < 9
            invariant
                i <= 9,
                game == self@,
                game.wf(),
                pins(rolls@) == game.rolls_before(i as int),
                forall|j: int| 0 <= j < i ==> (#[trigger] starts@[j]) == game.rolls_before(j).len(),
                rolls@.len() <= 2 * i,
            decreases 9 - i,
        {
            let mut frame_rolls = self.frames[i].get_sub_scores();
            proof {
                game.frames[i as int].lemma_pins_in_frame();
                assert(pins(rolls@ + frame_rolls@) =~= pins(rolls@) + pins(frame_rolls@));
                assert(pins(frame_rolls@).len() == frame_rolls@.len());
            }
            starts[i] = rolls.len();
            rolls.append(&mut frame_rolls);
            i = i + 1;
        }
        let mut last_rolls = self.last_frame.get_sub_scores();
        proof {
            assert(pins(rolls@ + last_rolls@) =~= pins(rolls@) + pins(last_rolls@));
            assert(game.rolls_from(9) == game.last_frame.rolls());
            game.lemma_rolls_split(9);
        }
        starts[9] = rolls.len();
        rolls.append(&mut last_rolls);
        assert(pins(rolls@) == game.rolls_from(0));
        assert(rolls@.len() <= 21) by {
            game.last_frame.lemma_pins_in_frame();
        }

        let mut scores = [0u16; 10];
        let mut i: usize = 0;
        while i < 9
            invariant
                i <= 9,
                game == self@,
                game.wf(),
                pins(rolls@) == game.rolls_from(0),
                rolls@.len() <= 21,
                forall|j: int| 0 <= j < 9 ==> (#[trigger] starts@[j]) == game.rolls_before(j).len(),
                forall|j: int| 0 <= j < i ==> (#[trigger] scores@[j]) == game.frame_score(j),
            decreases 9 - i,
        {
            let start = starts[i];
            proof {
                let own = game.frames[i as int].rolls();
                let next = game.rolls_from(i + 1);
                let row = pins(rolls@);
                game.frames[i as int].lemma_pins_in_frame();
                game.lemma_rolls_to_come(i + 1);
                game.lemma_rolls_behind_frame(i as int, 0);
                game.lemma_rolls_behind_frame(i as int, 1);
                assert(row[start + own.len()] == rolls@[start + own.len()]);
                assert(row[start + own.len() + 1] == rolls@[start + own.len() + 1]);
                assert(0 <= next[0] <= 10);
                assert(0 <= next[1] <= 10);
            }
            let score: u16 = match self.frames[i] {
                Frame::Open { first, second } => first + second,
                Frame::Spare { .. } => 10 + rolls[start + 2],
                Frame::Strike => 10 + rolls[start + 1] + rolls[start + 2],
            };
            scores[i] = score;
            i = i + 1;
        }
        let last_score = self.last_frame.get_score();
        scores[9] = last_score;
        scores
    }

    /// The running total after each of the ten frames.
    pub fn get_cumulative_frame_scores(&self) -> (totals: [u16; 10])
        ensures
            self@.wf(),
            forall|i: int| 0 <= i < 10 ==> totals@[i] == self@.cumulative_score(i),
    {
        proof {
            use_type_invariant(self);
        }
        let ghost game = self@;
        let mut cumulative_score: u16 = 0;
        let mut frame_scores = self.get_frame_scores();
        let mut i: usize = 0;
        while i < 10
            invariant
                i <= 10,
                game.wf(),
                cumulative_score == game.cumulative_score(i - 1),
                forall|j: int|
                    0 <= j < i ==> (#[trigger] frame_scores@[j]) == game.cumulative_score(j),
                forall|j: int|
                    i <= j < 10 ==> (#[trigger] frame_scores@[j]) == game.frame_score(j),
            decreases 10 - i,
        {
            proof {
                game.lemma_cumulative_score_bounds(i as int);
            }
            let total_so_far: u16 = frame_scores[i] + cumulative_score;
            frame_scores[i] = total_so_far;
            cumulative_score = total_so_far;
            i = i + 1;
        }
        frame_scores
    }
}

} // verus!

//! A strategy that throws ten dice, one for each pin.

use crate::generators::entropy::choose_side;
use crate::generators::frame::Frame;
use crate::generators::BowlingGenerator;
use rand::rngs::StdRng;
use vstd::prelude::*;

verus! {

/// A face of a die.
#[derive(Debug, Copy, Clone, PartialEq, Eq, Hash, Structural)]
pub enum DiceSide {
    /// The pin falls.
    Blank,
    /// The pin stands. After the first roll its die is thrown again.
    Pin,
    /// On the second roll the frame is a spare; on the first the pin falls.
    Spare,
    /// On the first roll the frame is a strike; on the second the pin falls.
    Strike,
}

/// A kind of die, named after the one face that sets it apart. The other
/// five faces are two blanks and three pins.
#[derive(Debug, Copy, Clone, PartialEq, Eq, Hash, Structural)]
pub enum DiceType {
    Blank,
    Spare,
    Strike,
}

impl DiceSide {
    /// On the first roll a pin falls where its die shows a blank or a spare.
    pub open spec fn falls_on_first(self) -> bool {
        self is Blank || self is Spare
    }

    /// On the second roll a pin falls where its die shows a blank or a
    /// strike.
    pub open spec fn falls_on_second(self) -> bool {
        self is Blank || self is Strike
    }
}

impl DiceType {
    /// The six faces of a die of this kind.
    pub open spec fn faces(self) -> Seq<DiceSide> {
        match self {
            DiceType::Blank => seq![
                DiceSide::Blank,
                DiceSide::Blank,
                DiceSide::Blank,
                DiceSide::Pin,
                DiceSide::Pin,
                DiceSide::Pin,
            ],
            DiceType::Spare => seq![
                DiceSide::Spare,
                DiceSide::Blank,
                DiceSide::Blank,
                DiceSide::Pin,
                DiceSide::Pin,
                DiceSide::Pin,
            ],
            DiceType::Strike => seq![
                DiceSide::Strike,
                DiceSide::Blank,
                DiceSide::Blank,
                DiceSide::Pin,
                DiceSide::Pin,
                DiceSide::Pin,
            ],
        }
    }

    /// Throws the die: the result is one of its six faces.
    pub fn roll(self, rng: &mut StdRng) -> (side: DiceSide)
        ensures
            self.faces().contains(side),
    {
        let faces = self.get_dice_list();
        choose_side(faces.as_slice(), rng).unwrap()
    }

    /// The six faces of a die of this kind.
    pub fn get_dice_list(self) -> (faces: [DiceSide; 6])
        ensures
            faces@ == self.faces(),
    {
        let faces = match self {
            DiceType::Blank => [
                DiceSide::Blank,
                DiceSide::Blank,
                DiceSide::Blank,
                DiceSide::Pin,
                DiceSide::Pin,
                DiceSide::Pin,
            ],
            DiceType::Spare => [
                DiceSide::Spare,
                DiceSide::Blank,
                DiceSide::Blank,
                DiceSide::Pin,
                DiceSide::Pin,
                DiceSide::Pin,
            ],
            DiceType::Strike => [
                DiceSide::Strike,
                DiceSide::Blank,
                DiceSide::Blank,
                DiceSide::Pin,
                DiceSide::Pin,
                DiceSide::Pin,
            ],
        };
        assert(faces@ =~= self.faces());
        faces
    }
}

/// How many of the dice shown knock their pin down on the first roll.
pub open spec fn fallen_on_first(shown: Seq<DiceSide>) -> nat
    decreases shown.len(),
{
    if shown.len() == 0 {
        0
    } else {
        fallen_on_first(shown.drop_last()) + if shown.last().falls_on_first() {
            1nat
        } else {
            0nat
        }
    }
}

/// How many of the dice shown knock their pin down on the second roll.
pub open spec fn fallen_on_second(shown: Seq<DiceSide>) -> nat
    decreases shown.len(),
{
    if shown.len() == 0 {
        0
    } else {
        fallen_on_second(shown.drop_last()) + if shown.last().falls_on_second() {
            1nat
        } else {
            0nat
        }
    }
}

/// The dice that show a pin, in the order thrown: their pins stand after
/// the first roll, and they are thrown again on the second.
pub open spec fn left_standing(dice: Seq<DiceType>, shown: Seq<DiceSide>) -> Seq<DiceType>
    decreases shown.len(),
{
    if shown.len() == 0 {
        Seq::empty()
    } else {
        let before = left_standing(dice, shown.drop_last());
        if shown.last() is Pin {
            before.push(dice[shown.len() - 1])
        } else {
            before
        }
    }
}

/// The first roll is a strike: a die shows a strike, or ten pins fall.
pub open spec fn strike_on_first(shown: Seq<DiceSide>) -> bool {
    shown.contains(DiceSide::Strike) || fallen_on_first(shown) == 10
}

/// The frame that the second roll completes: a spare where a die shows one,
/// else whatever the pins of the two rolls make.
pub open spec fn frame_after_second(first: int, shown: Seq<DiceSide>) -> Frame {
    if shown.contains(DiceSide::Spare) {
        Frame::Spare { first: first as u16 }
    } else {
        Frame::of_pins(first, fallen_on_second(shown) as int)
    }
}

/// Reads the first roll off the faces that the dice show, `shown[i]` being
/// the face of `dice[i]`. `None` is a strike; otherwise the pins that fell are
/// returned with the dice to throw again.
pub fn first_roll(dice: &[DiceType], shown: &[DiceSide]) -> (rest: Option<(u16, Vec<DiceType>)>)
    requires
        shown@.len() <= dice@.len() <= 10,
    ensures
        rest is None <==> strike_on_first(shown@),
        rest matches Some((first, standing)) ==> {
            &&& first == fallen_on_first(shown@)
            &&& standing@ == left_standing(dice@, shown@)
            &&& first < 10
            &&& first + standing@.len() == shown@.len()
        },
{
    let mut first: u16 = 0;
    let mut standing: Vec<DiceType> = Vec::new();
    let mut i: usize = 0;
    while i < shown.len()
        invariant
            i <= shown@.len() <= dice@.len() <= 10,
            first == fallen_on_first(shown@.take(i as int)),
            standing@ == left_standing(dice@, shown@.take(i as int)),
            first + standing@.len() == i,
            forall|j: int| 0 <= j < i ==> shown@[j] != DiceSide::Strike,
        decreases shown@.len() - i,
    {
        assert(shown@.take(i + 1).drop_last() =~= shown@.take(i as int));
        match shown[i] {
            DiceSide::Strike => {
                return None;
            },
            DiceSide::Pin => {
                standing.push(dice[i]);
            },
            DiceSide::Blank | DiceSide::Spare => {
                first = first + 1;
            },
        }
        i = i + 1;
    }
    assert(shown@.take(i as int) =~= shown@);
    if first == 10 {
        None
    } else {
        Some((first, standing))
    }
}

/// Reads the second roll off the faces that the dice thrown again show, and
/// completes the frame that began with `first` pins.
pub fn second_roll(first: u16, shown: &[DiceSide]) -> (frame: Frame)
    requires
        first < 10,
        first + shown@.len() <= 10,
    ensures
        frame == frame_after_second(first as int, shown@),
        frame.wf(),
{
    let mut second: u16 = 0;
    let mut i: usize = 0;
    while i < shown.len()
        invariant
            i <= shown@.len(),
            first + shown@.len() <= 10,
            second == fallen_on_second(shown@.take(i as int)),
            second <= i,
            forall|j: int| 0 <= j < i ==> shown@[j] != DiceSide::Spare,
        decreases shown@.len() - i,
    {
        assert(shown@.take(i + 1).drop_last() =~= shown@.take(i as int));
        match shown[i] {
            DiceSide::Spare => {
                return Frame::Spare { first };
            },
            DiceSide::Pin => {},
            DiceSide::Blank | DiceSide::Strike => {
                second = second + 1;
            },
        }
        i = i + 1;
    }
    assert(shown@.take(i as int) =~= shown@);
    Frame::from_pins(first, second)
}

/// Draws frames by throwing a die for each of the ten pins.
pub struct DiceGenerator {
    rng: StdRng,
}

impl DiceGenerator {
    /// The source of chance that the strategy holds.
    pub closed spec fn source(self) -> StdRng {
        self.rng
    }

    /// A strategy that takes its chance from `rng`.
    pub fn new(rng: StdRng) -> (generator: Self)
        ensures
            generator.source() == rng,
    {
        DiceGenerator { rng }
    }

    /// The ten dice of a rack: four blank dice, three spare dice and three
    /// strike dice.
    pub open spec fn all_dice() -> Seq<DiceType> {
        seq![
            DiceType::Blank,
            DiceType::Blank,
            DiceType::Blank,
            DiceType::Blank,
            DiceType::Spare,
            DiceType::Spare,
            DiceType::Spare,
            DiceType::Strike,
            DiceType::Strike,
            DiceType::Strike,
        ]
    }

    /// The ten dice of a rack, in the order in which they are thrown.
    pub fn get_all_dice() -> (dice: [DiceType; 10])
        ensures
            dice@ == Self::all_dice(),
    {
        let dice = [
            DiceType::Blank,
            DiceType::Blank,
            DiceType::Blank,
            DiceType::Blank,
            DiceType::Spare,
            DiceType::Spare,
            DiceType::Spare,
            DiceType::Strike,
            DiceType::Strike,
            DiceType::Strike,
        ];
        assert(dice@ =~= Self::all_dice());
        dice
    }

    /// Throws `dice` one after the other and stops after the first that
    /// shows `stop`. The faces shown are returned in the order thrown.
    fn roll_until(&mut self, dice: &[DiceType], stop: DiceSide) -> (shown: Vec<DiceSide>)
        ensures
            shown@.len() <= dice@.len(),
            forall|i: int|
                0 <= i < shown@.len() ==> (#[trigger] dice@[i]).faces().contains(shown@[i]),
            forall|i: int| 0 <= i < shown@.len() - 1 ==> #[trigger] shown@[i] != stop,
            shown@.len() < dice@.len() ==> shown@.len() > 0 && shown@.last() == stop,
    {
        let mut shown: Vec<DiceSide> = Vec::new();
        let mut i: usize = 0;
        while i < dice.len()
            invariant
                i <= dice@.len(),
                shown@.len() == i,
                forall|j: int| 0 <= j < i ==> (#[trigger] dice@[j]).faces().contains(shown@[j]),
                forall|j: int| 0 <= j < i ==> #[trigger] shown@[j] != stop,
            decreases dice@.len() - i,
        {
            let side = dice[i].roll(&mut self.rng);
            shown.push(side);
            if side == stop {
                return shown;
            }
            i = i + 1;
        }
        shown
    }
}

impl BowlingGenerator for DiceGenerator {
    /// Throws the ten dice for the first roll, and those that show a pin
    /// once more for the second. A die that shows a strike on the first
    /// roll, or a spare on the second, ends the throwing at once.
    fn generate_frame(&mut self) -> (frame: Frame)
        ensures
            exists|first_shown: Seq<DiceSide>, second_shown: Seq<DiceSide>|
                #[trigger] throws_of_a_frame(first_shown, second_shown)
                    && frame == frame_of_throws(first_shown, second_shown),
    {
        let dice = Self::get_all_dice();
        let first_shown = self.roll_until(dice.as_slice(), DiceSide::Strike);
        match first_roll(dice.as_slice(), first_shown.as_slice()) {
            None => {
                assert(throws_of_a_frame(first_shown@, Seq::empty()));
                Frame::Strike
            },
            Some((first, standing)) => {
                let second_shown = self.roll_until(standing.as_slice(), DiceSide::Spare);
                assert(throws_of_a_frame(first_shown@, second_shown@));
                second_roll(first, second_shown.as_slice())
            },
        }
    }
}

/// The faces `shown` can come of throwing `dice` one after the other and
/// stopping after the first die that shows `stop`: each is a face of its
/// die, none but the last is `stop`, and dice are left out only behind a
/// `stop`.
pub open spec fn thrown(dice: Seq<DiceType>, shown: Seq<DiceSide>, stop: DiceSide) -> bool {
    &&& shown.len() <= dice.len()
    &&& forall|i: int| 0 <= i < shown.len() ==> (#[trigger] dice[i]).faces().contains(shown[i])
    &&& forall|i: int| 0 <= i < shown.len() - 1 ==> #[trigger] shown[i] != stop
    &&& shown.len() < dice.len() ==> shown.len() > 0 && shown.last() == stop
}

/// The two throws of a frame: the ten dice of the rack are thrown until
/// one shows a strike. Unless the first roll is a strike, the dice that
/// show a pin are thrown again until one shows a spare; after a strike
/// nothing is thrown again.
pub open spec fn throws_of_a_frame(
    first_shown: Seq<DiceSide>,
    second_shown: Seq<DiceSide>,
) -> bool {
    let dice = DiceGenerator::all_dice();
    &&& thrown(dice, first_shown, DiceSide::Strike)
    &&& if strike_on_first(first_shown) {
        second_shown.len() == 0
    } else {
        thrown(left_standing(dice, first_shown), second_shown, DiceSide::Spare)
    }
}

/// The frame that the two throws make: a strike where the first roll is
/// one, else what `frame_after_second` reads off the second throw.
pub open spec fn frame_of_throws(first_shown: Seq<DiceSide>, second_shown: Seq<DiceSide>) -> Frame {
    if strike_on_first(first_shown) {
        Frame::Strike
    } else {
        frame_after_second(fallen_on_first(first_shown) as int, second_shown)
    }
}

} // verus!

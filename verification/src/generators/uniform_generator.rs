//! A strategy that picks pin counts evenly.

use crate::generators::entropy::choose_in_range;
use crate::generators::frame::Frame;
use crate::generators::BowlingGenerator;
use crate::pins::total;
use rand::rngs::StdRng;
use vstd::prelude::*;

verus! {

/// Draws frames by picking the pins of each roll evenly among the counts
/// that the rack allows.
pub struct UniformGenerator {
    rng: StdRng,
}

impl UniformGenerator {
    /// The source of chance that the strategy holds.
    pub closed spec fn source(self) -> StdRng {
        self.rng
    }

    /// A strategy that takes its chance from `rng`.
    pub fn new(rng: StdRng) -> (generator: Self)
        ensures
            generator.source() == rng,
    {
        UniformGenerator { rng }
    }
}

impl BowlingGenerator for UniformGenerator {
    /// Picks the first roll among zero to ten pins. Ten is a strike;
    /// otherwise the second roll is picked among zero and the pins left
    /// standing, and `Frame::from_pins` packs the two.
    fn generate_frame(&mut self) -> (frame: Frame)
        ensures
            total(frame.rolls()) <= 10,
    {
        let first = choose_in_range(0, 10, &mut self.rng).unwrap();
        if first == 10 {
            proof {
                Frame::Strike.lemma_pins_in_frame();
            }
            return Frame::Strike;
        }
        let second = choose_in_range(0, 10 - first, &mut self.rng).unwrap();
        let frame = Frame::from_pins(first, second);
        proof {
            frame.lemma_pins_in_frame();
        }
        frame
    }
}

} // verus!

//! Frames and the strategies that draw them.

pub mod dice_generator;
pub mod entropy;
pub mod frame;
pub mod last_frame;
pub mod uniform_generator;

pub use dice_generator::DiceGenerator;
pub use frame::Frame;
pub use last_frame::LastFrame;
pub use uniform_generator::UniformGenerator;

use vstd::prelude::*;

verus! {

/// A strategy that draws the frames of a game.
pub trait BowlingGenerator {
    /// Draws one of the first nine frames.
    fn generate_frame(&mut self) -> (frame: Frame)
        ensures
            frame.wf(),
    ;

    /// Draws the tenth frame. Unless a strategy brings its own, up to three
    /// regular frames are drawn, one for each rack that the tenth frame
    /// rolls at, and packed by `LastFrame::compose`; no frame is drawn once
    /// the tenth frame is complete.
    fn generate_last_frame(&mut self) -> (last: LastFrame)
        ensures
            last.wf(),
    {
        let first = self.generate_frame();
        match LastFrame::compose(first, None, None) {
            Some(last) => last,
            None => {
                let second = self.generate_frame();
                match LastFrame::compose(first, Some(second), None) {
                    Some(last) => last,
                    None => {
                        let third = self.generate_frame();
                        LastFrame::compose(first, Some(second), Some(third)).unwrap()
                    },
                }
            },
        }
    }
}

/// `frame` is a frame that a strategy of kind `G` can hand out: some call
/// of its `generate_frame` may return it.
pub open spec fn may_draw<G: BowlingGenerator>(frame: Frame) -> bool {
    exists|args: (&mut G,)| call_ensures(G::generate_frame, args, frame)
}

/// `last` is a tenth frame that a strategy of kind `G` can hand out: some
/// call of its `generate_last_frame` may return it.
pub open spec fn may_draw_last<G: BowlingGenerator>(last: LastFrame) -> bool {
    exists|args: (&mut G,)| call_ensures(G::generate_last_frame, args, last)
}

} // verus!

//! The renderer's state: the color it holds and the frame it emits.
//!
//! Each frame cycle polls the channel without blocking. A pending color
//! replaces the held one — last write wins — and an empty channel leaves
//! it as it was, so the light keeps its color rather than stalling. The
//! frame is the held color replicated over every configured pixel; the
//! caller writes it to the hardware and sleeps the fixed frame interval.

use vstd::prelude::*;

use crate::channel::ColorChannel;
use crate::color::Color;

verus! {

/// The color the renderer will hold after one poll of the channel.
pub open spec fn next_held(pending: Seq<Color>, held: Color) -> Color {
    if pending.len() > 0 {
        pending[0]
    } else {
        held
    }
}

/// The renderer's state between frames.
pub struct Renderer {
    /// The color most recently taken from the channel, black at start.
    pub held: Color,
}

impl Renderer {
    /// A renderer holding black, as before any command has arrived.
    pub fn new() -> (r: Renderer)
        ensures
            r.held == (Color { r: 0u8, g: 0u8, b: 0u8 }),
    {
        Renderer { held: Color::black() }
    }

    /// Polls the channel once without blocking. The oldest pending
    /// color, if any, becomes the held one; an empty channel leaves the
    /// held color unchanged.
    pub fn poll(&mut self, chan: &mut ColorChannel)
        ensures
            final(self).held == next_held(old(chan)@, old(self).held),
            old(chan)@.len() == 0 ==> final(chan)@ == old(chan)@ && final(self).held == old(
                self,
            ).held,
            old(chan)@.len() > 0 ==> final(chan)@ == old(chan)@.subrange(
                1,
                old(chan)@.len() as int,
            ),
    {
        match chan.try_pop() {
            Some(c) => {
                self.held = c;
            },
            None => {},
        }
    }

    /// The frame to write: the held color on every one of `num_pixels`
    /// identical pixels.
    pub fn frame(&self, num_pixels: usize) -> (v: Vec<Color>)
        ensures
            v@.len() == num_pixels,
            forall|i: int| 0 <= i < num_pixels ==> v@[i] == self.held,
    {
        let mut v: Vec<Color> = Vec::new();
        let mut i: usize = 0;
        while i < num_pixels
            invariant
                0 <= i <= num_pixels,
                v@.len() == i,
                forall|k: int| 0 <= k < i ==> v@[k] == self.held,
            decreases num_pixels - i,
        {
            v.push(self.held);
            i = i + 1;
        }
        v
    }
}

} // verus!

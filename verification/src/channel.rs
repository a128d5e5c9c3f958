//! The bounded conduit that carries requested colors from the command
//! listener to the renderer.
//!
//! The channel holds at most [`CHANNEL_CAPACITY`] pending colors. Both
//! operations are non-blocking: a push on a full channel fails with an
//! explicit signal instead of waiting, and a pop on an empty channel
//! returns nothing instead of waiting. The discipline of one producer and
//! one consumer is the caller's to keep; the channel itself is a plain
//! value moved behind whatever sharing the caller arranges.

use vstd::prelude::*;

use crate::color::Color;

verus! {

/// How many pending colors the channel can hold, fixed at construction.
pub const CHANNEL_CAPACITY: usize = 16;

/// The outcome of a non-blocking push.
#[derive(Clone, Copy, PartialEq, Eq, Structural, Debug)]
pub enum PushResult {
    /// The color was enqueued.
    Accepted,
    /// The channel already held `CHANNEL_CAPACITY` colors; nothing was
    /// enqueued.
    Full,
}

/// A fixed-capacity first-in/first-out queue of colors.
pub struct ColorChannel {
    buf: Vec<Color>,
}

impl View for ColorChannel {
    type V = Seq<Color>;

    /// The pending colors, oldest first.
    closed spec fn view(&self) -> Seq<Color> {
        self.buf@
    }
}

impl ColorChannel {
    /// An empty channel of capacity `CHANNEL_CAPACITY`.
    pub fn new() -> (c: ColorChannel)
        ensures
            c@ == Seq::<Color>::empty(),
    {
        ColorChannel { buf: Vec::new() }
    }

    /// How many colors are pending.
    pub fn len(&self) -> (n: usize)
        ensures
            n == self@.len(),
    {
        self.buf.len()
    }

    /// Attempts to enqueue a color without blocking. On a full channel
    /// the push fails distinctly and leaves the channel unchanged; it
    /// never blocks and never drops the color silently.
    pub fn try_push(&mut self, c: Color) -> (r: PushResult)
        ensures
            old(self)@.len() < CHANNEL_CAPACITY ==> r == PushResult::Accepted
                && final(self)@ == old(self)@.push(c),
            old(self)@.len() >= CHANNEL_CAPACITY ==> r == PushResult::Full
                && final(self)@ == old(self)@,
    {
        if self.buf.len() < CHANNEL_CAPACITY {
            self.buf.push(c);
            PushResult::Accepted
        } else {
            PushResult::Full
        }
    }

    /// Attempts to dequeue the oldest pending color without blocking.
    /// On an empty channel it returns `None` and leaves the channel
    /// unchanged.
    pub fn try_pop(&mut self) -> (r: Option<Color>)
        ensures
            old(self)@.len() == 0 ==> r is None && final(self)@ == old(self)@,
            old(self)@.len() > 0 ==> r == Some(old(self)@[0])
                && final(self)@ == old(self)@.subrange(1, old(self)@.len() as int),
    {
        if self.buf.len() > 0 {
            let c = self.buf.remove(0);
            proof {
                assert(self.buf@ =~= old(self).buf@.subrange(1, old(self).buf@.len() as int));
            }
            Some(c)
        } else {
            None
        }
    }
}

} // verus!

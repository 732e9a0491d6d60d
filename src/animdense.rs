//! Dense per-frame storage of one animated attribute: one value for each
//! frame from `frame_start` on.
use vstd::prelude::*;

verus! {

/// A frame number.
pub type FrameValue = u32;

#[derive(Debug, Clone)]
pub struct AnimDenseAttr<V> {
    /// `values[i]` is the value at frame `frame_start + i`.
    pub values: Vec<V>,
    pub frame_start: FrameValue,
}

impl<V: Copy> AnimDenseAttr<V> {
    /// `frame` has a stored value.
    pub open spec fn covers(self, frame: FrameValue) -> bool {
        self.frame_start <= frame && frame - self.frame_start < self.values.len()
    }

    /// No values, starting at frame zero.
    pub fn new() -> (r: Self)
        ensures
            r.values@.len() == 0,
            r.frame_start == 0,
    {
        Self { values: Vec::new(), frame_start: 0 }
    }

    /// The value at `frame`.
    pub fn get_value(&self, frame: FrameValue) -> (r: V)
        requires
            self.covers(frame),
        ensures
            r == self.values@[frame - self.frame_start],
    {
        let f = (frame - self.frame_start) as usize;
        self.values[f]
    }

    /// Replaces the value at `frame`.
    pub fn set_value(&mut self, frame: FrameValue, value: V)
        requires
            old(self).covers(frame),
        ensures
            final(self).frame_start == old(self).frame_start,
            final(self).values@ == old(self).values@.update(frame - old(self).frame_start, value),
    {
        let f = (frame - self.frame_start) as usize;
        self.values.set(f, value);
    }

    pub fn get_values(&self) -> (r: &Vec<V>)
        ensures
            r@ == self.values@,
    {
        &self.values
    }

    /// Replaces all values; the first one is for `frame_start`.
    pub fn set_values(&mut self, values: Vec<V>)
        ensures
            final(self).frame_start == old(self).frame_start,
            final(self).values@ == values@,
    {
        self.values = values;
    }
}

} // verus!

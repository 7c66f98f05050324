use vstd::prelude::*;

verus! {

/// Saturating hit points on diggable tiles, homes and actors: zero is terminal.
#[derive(Clone, Copy, PartialEq, Eq, Structural, Debug)]
pub struct HitPoints {
    pub current: u32,
    pub max: u32,
}

impl HitPoints {
    /// A fresh pool with `val` of `val` hit points left.
    pub fn full(val: u32) -> (r: HitPoints)
        ensures
            r.current == val,
            r.max == val,
    {
        HitPoints { current: val, max: val }
    }

    /// Remove `val` hit points, saturating at zero.
    pub fn sub(&mut self, val: u32)
        ensures
            final(self).current == if old(self).current >= val {
                old(self).current - val
            } else {
                0
            },
            final(self).max == old(self).max,
    {
        self.current = self.current.saturating_sub(val);
    }

    pub fn is_zero(&self) -> (r: bool)
        ensures
            r == (self.current == 0),
    {
        self.current == 0
    }
}

} // verus!

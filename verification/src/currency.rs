use vstd::prelude::*;

verus! {

/// A withdrawal was refused for want of funds.
#[derive(Clone, Copy, PartialEq, Eq, Structural, Debug)]
pub struct NotEnoughCurrencyError;

/// The three mined resource counters that designations are paid from.
#[derive(Clone, Copy, PartialEq, Eq, Structural, Debug)]
pub struct Currency {
    pub metal: u32,
    pub crystal: u32,
    pub stone: u32,
}

impl Currency {
    pub fn zero() -> (r: Currency)
        ensures
            r == (Currency { metal: 0, crystal: 0, stone: 0 }),
    {
        Currency { metal: 0, crystal: 0, stone: 0 }
    }

    pub fn metal(metal: u32) -> (r: Currency)
        ensures
            r == (Currency { metal, crystal: 0, stone: 0 }),
    {
        Currency { metal, crystal: 0, stone: 0 }
    }

    pub fn crytal(crystal: u32) -> (r: Currency)
        ensures
            r == (Currency { metal: 0, crystal, stone: 0 }),
    {
        Currency { metal: 0, crystal, stone: 0 }
    }

    pub fn stone(stone: u32) -> (r: Currency)
        ensures
            r == (Currency { metal: 0, crystal: 0, stone }),
    {
        Currency { metal: 0, crystal: 0, stone }
    }

    pub open spec fn spec_has(self, value: Currency) -> bool {
        self.metal >= value.metal && self.crystal >= value.crystal && self.stone >= value.stone
    }

    /// Whether the balance covers `value` in all three counters.
    pub fn has(&self, value: &Currency) -> (r: bool)
        ensures
            r == self.spec_has(*value),
    {
        self.metal >= value.metal && self.crystal >= value.crystal && self.stone >= value.stone
    }

    /// Debit `value`, atomically: either all three counters are debited, or
    /// the balance did not cover it and nothing changes.
    pub fn try_sub(&mut self, value: &Currency) -> (r: Result<(), NotEnoughCurrencyError>)
        ensures
            old(self).spec_has(*value) ==> r is Ok && *final(self) == (Currency {
                metal: (old(self).metal - value.metal) as u32,
                crystal: (old(self).crystal - value.crystal) as u32,
                stone: (old(self).stone - value.stone) as u32,
            }),
            !old(self).spec_has(*value) ==> r is Err && *final(self) == *old(self),
    {
        if self.has(value) {
            self.metal = self.metal - value.metal;
            self.crystal = self.crystal - value.crystal;
            self.stone = self.stone - value.stone;
            Ok(())
        } else {
            Err(NotEnoughCurrencyError)
        }
    }

    /// Credit `value`; the counters must not overflow.
    pub fn add(&mut self, value: &Currency)
        requires
            old(self).metal + value.metal <= u32::MAX,
            old(self).crystal + value.crystal <= u32::MAX,
            old(self).stone + value.stone <= u32::MAX,
        ensures
            *final(self) == (Currency {
                metal: (old(self).metal + value.metal) as u32,
                crystal: (old(self).crystal + value.crystal) as u32,
                stone: (old(self).stone + value.stone) as u32,
            }),
    {
        self.metal = self.metal + value.metal;
        self.crystal = self.crystal + value.crystal;
        self.stone = self.stone + value.stone;
    }
}

} // verus!

//! The food bar: how much a landed hit puts back, and whose hits count.
use vstd::prelude::*;

verus! {

/// A full food bar, in vanilla's food points: ten shanks of two points each.
pub const FULL: u8 = 20;

/// Food points a landed hit puts back: one drain tick's worth.
pub const FOOD_PER_HIT: u8 = 1;

/// Food points on a player's bar.
#[derive(Clone, Copy, PartialEq, Eq, Structural, Debug)]
pub struct Food(pub u8);

impl Food {
    /// A full bar.
    pub fn full() -> (f: Food)
        ensures
            f.0 == FULL,
    {
        Food(FULL)
    }

    /// Whether the bar is empty, so the player starves.
    pub fn is_starving(self) -> (r: bool)
        ensures
            r == (self.0 == 0),
    {
        self.0 == 0
    }

    /// Put `points` back on the bar, up to [`FULL`]. Returns whether the
    /// number changed, so a caller knows whether the client needs telling
    /// and whether the drain clock starts again.
    pub fn feed(&mut self, points: u8) -> (changed: bool)
        ensures
            final(self).0 == (if old(self).0 + points > FULL {
                FULL as int
            } else {
                old(self).0 + points
            }),
            changed == (final(self).0 != old(self).0),
    {
        let sum: u16 = self.0 as u16 + points as u16;
        let fed: u8 = if sum > FULL as u16 {
            FULL
        } else {
            sum as u8
        };
        let changed = fed != self.0;
        self.0 = fed;
        changed
    }
}

/// Whether a hit by `attacker` on `victim` feeds the attacker: hurting
/// yourself is not hitting an enemy.
pub fn feeds_attacker(attacker: u64, victim: u64) -> (r: bool)
    ensures
        r == (attacker != victim),
{
    attacker != victim
}

/// Feeding never takes a bar past full, and never takes anything off it.
pub proof fn law_feeding_stays_within_the_bar(food: u8, points: u8)
    requires
        food <= FULL,
    ensures
        ({
            let fed = if food + points > FULL {
                FULL as int
            } else {
                food + points
            };
            food <= fed <= FULL
        }),
{
}

} // verus!

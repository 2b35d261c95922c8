//! Regeneration in bedwars: how long it has been since a player was last
//! hurt, which is what the rate they heal at grows with.
use vstd::prelude::*;

verus! {

/// Healing over time.
#[derive(Debug)]
pub struct RegenerationModule;

/// The tick a player was last hurt on.
#[derive(Debug)]
pub struct LastDamaged {
    pub tick: i64,
}

impl Default for LastDamaged {
    fn default() -> (d: LastDamaged)
        ensures
            d.tick == 0,
    {
        LastDamaged { tick: 0 }
    }
}

impl RegenerationModule {
    /// One tick of a player's regeneration clock, at tick `now`: a player
    /// whose health fell this tick was hurt now. Gives back how many ticks
    /// have passed since they were last hurt.
    pub fn tick(last: &mut LastDamaged, hurt: bool, now: i64) -> (since: i64)
        requires
            hurt || i64::MIN <= now - old(last).tick <= i64::MAX,
        ensures
            final(last).tick == (if hurt {
                now
            } else {
                old(last).tick
            }),
            since == now - final(last).tick,
    {
        if hurt {
            last.tick = now;
        }
        now - last.tick
    }
}

} // verus!

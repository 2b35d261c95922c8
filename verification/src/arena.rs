//! Which region keeps players in at each phase of a match, and which spawn
//! point a player is given.
use crate::screen::Phase;
use vstd::prelude::*;

verus! {

/// What crossing a region's edge does to a player.
#[derive(Clone, Copy, PartialEq, Eq, Structural, Debug)]
pub enum Policy {
    /// Shove them back inside. The hub; never lethal.
    PushBack,
    /// Take a life. The arena, where leaving the floor is how the game is
    /// played.
    Eliminate,
}

/// A region players are kept inside.
#[derive(Clone, Copy, PartialEq, Eq, Structural, Debug)]
pub enum Region {
    /// The hub's declared box.
    Hub,
    /// The arena's floor at its kill plane.
    Arena,
}

/// What a region's edge does.
pub open spec fn policy_of(r: Region) -> Policy {
    match r {
        Region::Hub => Policy::PushBack,
        Region::Arena => Policy::Eliminate,
    }
}

/// The region enforced in `phase`: the hub while players wait in it, when
/// it declares a box; the arena from the scatter to the end of play; and
/// nothing once the match is decided.
pub open spec fn governing_region(phase: Phase, hub_declared: bool) -> Option<Region> {
    match phase {
        Phase::Waiting | Phase::Countdown => if hub_declared {
            Some(Region::Hub)
        } else {
            None
        },
        Phase::Preparing | Phase::Playing => Some(Region::Arena),
        Phase::Ended => None,
    }
}

impl Region {
    /// What crossing this region's edge does.
    pub fn policy(self) -> (p: Policy)
        ensures
            p == policy_of(self),
    {
        match self {
            Region::Hub => Policy::PushBack,
            Region::Arena => Policy::Eliminate,
        }
    }
}

/// The bounds every player is currently inside, or `None` when nothing is
/// enforced.
pub fn governing(phase: Phase, hub_declared: bool) -> (r: Option<Region>)
    ensures
        r == governing_region(phase, hub_declared),
{
    match phase {
        Phase::Waiting | Phase::Countdown => if hub_declared {
            Some(Region::Hub)
        } else {
            None
        },
        Phase::Preparing | Phase::Playing => Some(Region::Arena),
        Phase::Ended => None,
    }
}

/// Spawn point `index` of `count`, wrapping, so a test can predict it;
/// `None` when the arena has no spawn points.
pub fn spawn_slot(index: u64, count: usize) -> (r: Option<usize>)
    ensures
        count == 0 ==> r is None,
        count > 0 ==> r == Some((index % (count as u64)) as usize),
{
    if count == 0 {
        return None;
    }
    let len = count as u64;
    Some((index % len) as usize)
}

/// Nobody is ever eliminated by an edge outside a match in play: the only
/// lethal region governs during the scatter and the match itself.
pub proof fn law_only_a_match_kills(phase: Phase, hub_declared: bool)
    ensures
        governing_region(phase, hub_declared) matches Some(r) && policy_of(r) == Policy::Eliminate
            <==> (phase == Phase::Preparing || phase == Phase::Playing),
{
}

} // verus!

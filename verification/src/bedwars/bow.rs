//! Bows in bedwars: when a release fires, which arrow it spends, and when an
//! arrow that reaches a player counts as a hit.
use vstd::prelude::*;

verus! {

/// Shots, arrows and the hits they make.
#[derive(Debug)]
pub struct BowModule;

/// Milliseconds that must pass after one shot before the next fires.
pub const FIRE_COOLDOWN_MILLIS: u128 = 150;

/// One inventory slot, as the arrow rule reads it.
#[derive(Clone, Copy, PartialEq, Eq, Structural, Debug)]
pub struct HeldStack {
    pub slot: u16,
    /// Whether the stack is of arrows.
    pub arrow: bool,
    pub count: i8,
}

/// Whether `s` is a stack an arrow can be taken from.
pub open spec fn spendable(s: HeldStack) -> bool {
    s.arrow && s.count >= 1
}

/// The first stack, in inventory order, an arrow can be taken from.
pub open spec fn first_arrow(stacks: Seq<HeldStack>) -> Option<int>
    decreases stacks.len(),
{
    if stacks.len() == 0 {
        None
    } else {
        match first_arrow(stacks.drop_last()) {
            Some(i) => Some(i),
            None => if spendable(stacks.last()) {
                Some(stacks.len() - 1)
            } else {
                None
            },
        }
    }
}

proof fn lemma_first_arrow_prefix(stacks: Seq<HeldStack>, n: int)
    requires
        0 <= n <= stacks.len(),
        first_arrow(stacks.take(n)) is Some,
    ensures
        first_arrow(stacks) == first_arrow(stacks.take(n)),
    decreases stacks.len() - n,
{
    if n < stacks.len() {
        assert(stacks.take(n + 1).drop_last() =~= stacks.take(n));
        lemma_first_arrow_prefix(stacks, n + 1);
    } else {
        assert(stacks.take(n) =~= stacks);
    }
}

/// The status a client reports after dying or asking for statistics.
#[derive(Clone, Copy, PartialEq, Eq, Structural, Debug)]
pub enum ClientStatus {
    PerformRespawn,
    RequestStats,
}

impl BowModule {
    /// Whether a bow released `elapsed_millis` after the last shot fires.
    pub fn can_fire(elapsed_millis: u128) -> (r: bool)
        ensures
            r == (elapsed_millis > FIRE_COOLDOWN_MILLIS),
    {
        elapsed_millis > FIRE_COOLDOWN_MILLIS
    }

    /// The arrow a shot spends: the slot it comes from and how many are left
    /// there, zero meaning the slot is emptied. `None` when there is no
    /// arrow, and then no shot is fired.
    pub fn take_arrow(stacks: &Vec<HeldStack>) -> (r: Option<(u16, i8)>)
        ensures
            match first_arrow(stacks@) {
                Some(i) => r == Some((stacks@[i].slot, (stacks@[i].count - 1) as i8)),
                None => r is None,
            },
    {
        let mut i: usize = 0;
        assert(stacks@.take(0) =~= Seq::<HeldStack>::empty());
        while i < stacks.len()
            invariant
                i <= stacks.len(),
                first_arrow(stacks@.take(i as int)) is None,
            decreases stacks.len() - i,
        {
            let s = stacks[i];
            assert(stacks@.take(i + 1).drop_last() =~= stacks@.take(i as int));
            if s.arrow && s.count >= 1 {
                proof {
                    lemma_first_arrow_prefix(stacks@, i + 1);
                }
                return Some((s.slot, s.count - 1));
            }
            i += 1;
        }
        assert(stacks@.take(stacks@.len() as int) =~= stacks@);
        None
    }

    /// Whether an arrow shot by `owner` that reaches `victim` is a hit. An
    /// arrow at rest is scenery, and nobody is hit by their own arrow.
    pub fn hit_counts(owner: u64, victim: u64, at_rest: bool) -> (r: bool)
        ensures
            r == (!at_rest && owner != victim),
    {
        !at_rest && owner != victim
    }

    /// Whether a client's status clears the arrows stuck in them: every
    /// status but a request for statistics is a respawn.
    pub fn clears_arrows(status: ClientStatus) -> (r: bool)
        ensures
            r == (status != ClientStatus::RequestStats),
    {
        match status {
            ClientStatus::RequestStats => false,
            ClientStatus::PerformRespawn => true,
        }
    }
}

/// What releasing a bow does.
#[derive(Clone, Copy, Debug)]
pub struct Release {
    /// The shot is past the cooldown: the last fire time becomes now, arrow
    /// or no arrow.
    pub reset_fire_time: bool,
    /// The arrow spent, as the slot it comes from and how many are left
    /// there (zero empties the slot).
    pub spent: Option<(u16, i8)>,
    /// An arrow entity is spawned, owned by the shooter.
    pub spawn: bool,
}

/// What an arrow reaching a player does when it counts.
#[derive(Clone, Copy, PartialEq, Eq, Structural, Debug)]
pub struct Hit {
    /// The victim's count of arrows stuck in them, after this one.
    pub arrows_in_victim: i32,
    /// The arrow entity is removed.
    pub remove_projectile: bool,
    /// One attack is raised, from the arrow's owner ...
    pub attacker: u64,
    /// ... on the player it reached.
    pub target: u64,
}

/// The stack a shot would spend, as [`BowModule::take_arrow`] reports it.
pub open spec fn spend(stacks: Seq<HeldStack>) -> Option<(u16, i8)> {
    match first_arrow(stacks) {
        Some(i) => Some((stacks[i].slot, (stacks[i].count - 1) as i8)),
        None => None,
    }
}

impl BowModule {
    /// A bow released `elapsed_millis` after the player's last shot (a last
    /// shot in the future counts as zero), holding `stacks`. Past the
    /// cooldown the fire time is reset whether or not there is an arrow;
    /// then one arrow is spent if there is one, and an arrow is spawned
    /// exactly when one was spent.
    pub fn on_release(elapsed_millis: u128, stacks: &Vec<HeldStack>) -> (r: Release)
        ensures
            r.reset_fire_time == (elapsed_millis > FIRE_COOLDOWN_MILLIS),
            r.reset_fire_time ==> r.spent == spend(stacks@),
            !r.reset_fire_time ==> r.spent is None,
            r.spawn == (r.spent is Some),
    {
        if !Self::can_fire(elapsed_millis) {
            return Release { reset_fire_time: false, spent: None, spawn: false };
        }
        let spent = Self::take_arrow(stacks);
        Release { reset_fire_time: true, spent, spawn: spent.is_some() }
    }

    /// An arrow shot by `owner` reaches `victim`, who already has
    /// `arrows_in_victim` stuck in them. A hit that counts sticks one more
    /// arrow in the victim, removes the projectile and raises one attack
    /// from the owner on the victim; any other reach does nothing.
    pub fn on_hit(owner: u64, victim: u64, at_rest: bool, arrows_in_victim: i32) -> (r: Option<
        Hit,
    >)
        requires
            owner != victim && !at_rest ==> arrows_in_victim < i32::MAX,
        ensures
            r is Some <==> (owner != victim && !at_rest),
            r matches Some(h) ==> {
                &&& h.arrows_in_victim == arrows_in_victim + 1
                &&& h.remove_projectile
                &&& h.attacker == owner
                &&& h.target == victim
            },
    {
        if !Self::hit_counts(owner, victim, at_rest) {
            return None;
        }
        Some(
            Hit {
                arrows_in_victim: arrows_in_victim + 1,
                remove_projectile: true,
                attacker: owner,
                target: victim,
            },
        )
    }
}

} // verus!

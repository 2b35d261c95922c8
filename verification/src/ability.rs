//! Whether a player's ability fires, what they are told when it does not,
//! and the order the registry lists abilities in.
use crate::command::Declared;
use crate::kit::{by_slot, in_slot_order, Slotted};
use vstd::prelude::*;

verus! {

/// Why an activation did not happen.
#[derive(Clone, Copy, PartialEq, Eq, Structural, Debug)]
pub enum Refusal {
    OnCooldown,
    NotEnoughEnergy,
    NotGrounded,
}

/// The line a refused player reads on their action bar.
pub open spec fn refusal_text(r: Refusal) -> Seq<char> {
    match r {
        Refusal::OnCooldown => "That ability is recharging."@,
        Refusal::NotEnoughEnergy => "Not enough energy."@,
        Refusal::NotGrounded => "You must be on the ground."@,
    }
}

/// What stands between a player and one activation of an ability.
#[derive(Clone, Copy, PartialEq, Eq, Structural, Debug)]
pub struct Readiness {
    /// The ability's cooldown has time left on it.
    pub recharging: bool,
    /// The ability may only be used with both feet on the ground.
    pub needs_ground: bool,
    /// The player is standing on the ground.
    pub grounded: bool,
    /// The ability costs energy and the player has less than it costs.
    pub short_of_energy: bool,
}

/// The refusal an activation meets, if any: a cooldown first, then the
/// ground, then energy.
pub open spec fn refusal_of(r: Readiness) -> Option<Refusal> {
    if r.recharging {
        Some(Refusal::OnCooldown)
    } else if r.needs_ground && !r.grounded {
        Some(Refusal::NotGrounded)
    } else if r.short_of_energy {
        Some(Refusal::NotEnoughEnergy)
    } else {
        None
    }
}

impl Refusal {
    /// The line a refused player reads.
    pub fn message(self) -> (s: &'static str)
        ensures
            s@ == refusal_text(self),
    {
        match self {
            Refusal::OnCooldown => "That ability is recharging.",
            Refusal::NotEnoughEnergy => "Not enough energy.",
            Refusal::NotGrounded => "You must be on the ground.",
        }
    }

    /// Whether an ability is usable right now, without using it.
    pub fn check(r: Readiness) -> (out: Result<(), Refusal>)
        ensures
            match refusal_of(r) {
                Some(why) => out == Err::<(), Refusal>(why),
                None => out is Ok,
            },
    {
        if r.recharging {
            return Err(Refusal::OnCooldown);
        }
        if r.needs_ground && !r.grounded {
            return Err(Refusal::NotGrounded);
        }
        if r.short_of_energy {
            return Err(Refusal::NotEnoughEnergy);
        }
        Ok(())
    }
}

/// Every kit's abilities, kit after kit in registration order, each kit's
/// in slot order.
pub open spec fn listed(kits: Seq<Seq<Declared>>) -> Seq<Declared>
    decreases kits.len(),
{
    if kits.len() == 0 {
        seq![]
    } else {
        listed(kits.drop_last()) + by_slot(kits.last())
    }
}

/// Every ability every registered kit declares: kit registration order
/// first, and hotbar slot order within a kit.
pub fn manifest(kits: Vec<Vec<Declared>>) -> (out: Vec<Declared>)
    ensures
        out@ == listed(kits@.map_values(|k: Vec<Declared>| k@)),
{
    let ghost all = kits@.map_values(|k: Vec<Declared>| k@);
    let mut rest = kits;
    let mut out: Vec<Declared> = Vec::new();
    assert(all.take(0) =~= Seq::<Seq<Declared>>::empty());
    while rest.len() > 0
        invariant
            rest@.len() <= all.len(),
            forall|i: int| 0 <= i < rest@.len() ==> (#[trigger] rest@[i])@ == all[all.len() - rest@.len() + i],
            out@ == listed(all.take(all.len() - rest@.len())),
        decreases rest@.len(),
    {
        let ghost k = all.len() - rest@.len();
        assert(all.take(k + 1).drop_last() =~= all.take(k));
        assert(all.take(k + 1).last() == all[k]);
        let first = rest.remove(0);
        assert(first@ == all[k]);
        let mut sorted = in_slot_order(first);
        out.append(&mut sorted);
        assert(forall|i: int| 0 <= i < rest@.len() ==> (#[trigger] rest@[i])@ == all[all.len() - rest@.len() + i]);
    }
    assert(all.take(all.len() as int) =~= all);
    out
}

impl Slotted for Declared {
    open spec fn slot_of(&self) -> u8 {
        self.slot
    }

    fn slot(&self) -> (s: u8) {
        self.slot
    }
}

/// A refusal says why: a recharge, a want of energy, or a want of ground.
pub proof fn law_a_refusal_says_why(r: Refusal)
    ensures
        r == Refusal::OnCooldown ==> refusal_text(r) == "That ability is recharging."@,
        r == Refusal::NotEnoughEnergy ==> refusal_text(r) == "Not enough energy."@,
        r == Refusal::NotGrounded ==> refusal_text(r) == "You must be on the ground."@,
{
}

} // verus!

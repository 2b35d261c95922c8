//! Four lives, then you spectate: the bands a life count is drawn in, and
//! what a death does to the count and says about it.
use vstd::prelude::*;

use crate::hud::{DeathCause, death_credit, death_heading, opt_view};
use crate::screen::{Heading, NamedColor, Timing, Title};
use crate::text::push_str;

verus! {

/// The lives every player starts a match with.
pub const MAX_LIVES: u8 = 4;

/// Lives remaining.
#[derive(Clone, Copy, PartialEq, Eq, Structural, Debug)]
pub struct Lives(pub u8);

impl Default for Lives {
    fn default() -> (l: Self)
        ensures
            l == Lives(MAX_LIVES),
    {
        Lives(MAX_LIVES)
    }
}

/// Lives remaining as the sidebar counts them: elimination is zero however
/// many the component still says.
pub fn remaining(eliminated: bool, lives: Lives) -> (n: u8)
    ensures
        n == if eliminated {
            0
        } else {
            lives.0
        },
{
    if eliminated {
        0
    } else {
        lives.0
    }
}

/// The bands, narrowest first: four or more green, falling through yellow
/// and gold to red on your last, and gray once you are out. Each is its
/// name, the most lives a player can have and still be in it, and the
/// colour a name in it is drawn in.
pub open spec fn tier_table() -> Seq<(Seq<char>, u8, NamedColor)> {
    seq![
        ("Out"@, 0u8, NamedColor::Gray),
        ("LastLife"@, 1u8, NamedColor::Red),
        ("Low"@, 2u8, NamedColor::Gold),
        ("Wounded"@, 3u8, NamedColor::Yellow),
        ("Healthy"@, MAX_LIVES, NamedColor::Green),
    ]
}

/// [`tier_table`].
pub fn tiers() -> (t: Vec<(&'static str, u8, NamedColor)>)
    ensures
        t@.len() == tier_table().len(),
        forall|i: int|
            0 <= i < t@.len() ==> (#[trigger] t@[i]).0@ == tier_table()[i].0 && t@[i].1
                == tier_table()[i].1 && t@[i].2 == tier_table()[i].2,
{
    let mut t = Vec::new();
    t.push(("Out", 0u8, NamedColor::Gray));
    t.push(("LastLife", 1u8, NamedColor::Red));
    t.push(("Low", 2u8, NamedColor::Gold));
    t.push(("Wounded", 3u8, NamedColor::Yellow));
    t.push(("Healthy", MAX_LIVES, NamedColor::Green));
    t
}

/// Which band `remaining` lives falls in, given the bands' upper bounds
/// sorted narrowest first: the first wide enough, or the widest when no
/// bound is high enough. `None` only for an empty table.
pub open spec fn band_of(bounds: Seq<u8>, remaining: u8) -> Option<nat> {
    if bounds.len() == 0 {
        None
    } else {
        Some(first_wide_enough(bounds, remaining))
    }
}

/// The first bound at least `remaining`, or the last band.
pub open spec fn first_wide_enough(bounds: Seq<u8>, remaining: u8) -> nat
    decreases bounds.len(),
{
    if bounds.len() <= 1 {
        0
    } else if remaining <= bounds[0] {
        0
    } else {
        1 + first_wide_enough(bounds.drop_first(), remaining)
    }
}

proof fn lemma_first_wide_enough(bounds: Seq<u8>, remaining: u8)
    requires
        bounds.len() > 0,
    ensures
        first_wide_enough(bounds, remaining) < bounds.len(),
        forall|i: int|
            0 <= i < first_wide_enough(bounds, remaining) ==> remaining > #[trigger] bounds[i],
        remaining <= bounds[first_wide_enough(bounds, remaining) as int] || first_wide_enough(
            bounds,
            remaining,
        ) == bounds.len() - 1,
    decreases bounds.len(),
{
    if bounds.len() > 1 && remaining > bounds[0] {
        lemma_first_wide_enough(bounds.drop_first(), remaining);
        assert forall|i: int|
            0 <= i < first_wide_enough(bounds, remaining) implies remaining > #[trigger] bounds[i] by {
            if i > 0 {
                assert(bounds[i] == bounds.drop_first()[i - 1]);
            }
        }
    }
}

/// A player's band is the narrowest that fits them: every narrower band's
/// bound is below their lives, and theirs is at least their lives unless no
/// band is that wide, in which case it is the widest.
pub proof fn law_a_band_is_the_narrowest_that_fits(bounds: Seq<u8>, remaining: u8)
    requires
        bounds.len() > 0,
    ensures
        band_of(bounds, remaining) matches Some(b) && {
            &&& b < bounds.len()
            &&& forall|k: int| 0 <= k < b ==> remaining > #[trigger] bounds[k]
            &&& remaining <= bounds[b as int] || b == bounds.len() - 1
        },
{
    lemma_first_wide_enough(bounds, remaining);
}

/// [`band_of`].
pub fn band_index(bounds: &Vec<u8>, remaining: u8) -> (r: Option<usize>)
    ensures
        match band_of(bounds@, remaining) {
            Some(i) => r matches Some(x) && x as nat == i && x < bounds@.len(),
            None => r is None,
        },
{
    if bounds.len() == 0 {
        return None;
    }
    let mut i: usize = 0;
    assert(bounds@.skip(0) =~= bounds@);
    while i < bounds.len() - 1 && remaining > bounds[i]
        invariant
            i < bounds@.len(),
            first_wide_enough(bounds@, remaining) == i + first_wide_enough(
                bounds@.skip(i as int),
                remaining,
            ),
        decreases bounds@.len() - i,
    {
        assert(bounds@.skip(i as int).drop_first() =~= bounds@.skip(i + 1));
        i += 1;
    }
    proof {
        lemma_first_wide_enough(bounds@.skip(i as int), remaining);
    }
    Some(i)
}

/// The tier table as the world holds it, narrowest band first.
#[derive(Debug)]
pub struct Bands {
    /// Upper bounds, ascending.
    bounds: Vec<u8>,
    /// The tier entity and its colour, in the same order as `bounds`.
    tiers: Vec<(u64, NamedColor)>,
}

impl Bands {
    pub closed spec fn bounds_view(&self) -> Seq<u8> {
        self.bounds@
    }

    pub closed spec fn tiers_view(&self) -> Seq<(u64, NamedColor)> {
        self.tiers@
    }

    /// Each band as its bound, its tier and its colour, narrowest first.
    pub closed spec fn entries(&self) -> Seq<(u8, u64, NamedColor)> {
        Seq::new(
            self.bounds@.len(),
            |i: int| (self.bounds@[i], self.tiers@[i].0, self.tiers@[i].1),
        )
    }

    /// The bands read one at a time are the bounds and tiers side by side.
    pub proof fn lemma_entries(&self)
        requires
            self.wf(),
        ensures
            self.entries().len() == self.bounds_view().len(),
            self.tiers_view().len() == self.bounds_view().len(),
            forall|i: int|
                0 <= i < self.bounds_view().len() ==> #[trigger] self.entries()[i] == (
                    self.bounds_view()[i],
                    self.tiers_view()[i].0,
                    self.tiers_view()[i].1,
                ),
            forall|i: int, j: int|
                0 <= i < j < self.bounds_view().len() ==> self.bounds_view()[i]
                    <= self.bounds_view()[j],
    {
    }

    /// The bands are in ascending order of their bounds, and every band has
    /// its tier.
    pub closed spec fn wf(&self) -> bool {
        &&& self.bounds@.len() == self.tiers@.len()
        &&& forall|i: int, j: int|
            0 <= i < j < self.bounds@.len() ==> self.bounds@[i] <= self.bounds@[j]
    }

    /// Read the bands out of the tier entities the world holds, each its
    /// bound, its entity and its colour, in any order.
    pub fn of(found: &Vec<(u8, u64, NamedColor)>) -> (b: Bands)
        ensures
            b.wf(),
            b.entries().to_multiset() == found@.to_multiset(),
    {
        let mut sorted: Vec<(u8, u64, NamedColor)> = Vec::new();
        let mut k: usize = 0;
        assert(found@.take(0) =~= Seq::<(u8, u64, NamedColor)>::empty());
        while k < found.len()
            invariant
                k <= found@.len(),
                forall|i: int, j: int|
                    0 <= i < j < sorted@.len() ==> (#[trigger] sorted@[i]).0 <= (
                    #[trigger] sorted@[j]).0,
                sorted@.to_multiset() == found@.take(k as int).to_multiset(),
            decreases found@.len() - k,
        {
            let item = found[k];
            let mut p: usize = 0;
            while p < sorted.len() && sorted[p].0 <= item.0
                invariant
                    p <= sorted@.len(),
                    forall|i: int| 0 <= i < p ==> (#[trigger] sorted@[i]).0 <= item.0,
                decreases sorted@.len() - p,
            {
                p += 1;
            }
            let ghost before = sorted@;
            proof {
                broadcast use vstd::seq_lib::group_seq_properties;
                broadcast use vstd::multiset::group_multiset_axioms;

                before.insert_ensures(p as int, item);
                let u = before.insert(p as int, item);
                assert(u.remove(p as int) =~= before);
                u.to_multiset_ensures();
                assert(u.to_multiset().count(item) > 0) by {
                    assert(u[p as int] == item);
                    assert(u.contains(item));
                }
                assert(u.to_multiset() =~= before.to_multiset().insert(item));
                assert(found@.take(k + 1) =~= found@.take(k as int).push(item));
                found@.take(k as int).to_multiset_ensures();
            }
            sorted.insert(p, item);
            proof {
                assert forall|i: int, j: int|
                    0 <= i < j < sorted@.len() implies (#[trigger] sorted@[i]).0 <= (
                    #[trigger] sorted@[j]).0 by {
                    if j < p {
                        assert(sorted@[i] == before[i] && sorted@[j] == before[j]);
                    } else if j == p {
                        assert(sorted@[i] == before[i]);
                    } else if i > p {
                        assert(sorted@[i] == before[i - 1] && sorted@[j] == before[j - 1]);
                    } else if i == p {
                        assert(sorted@[j] == before[j - 1]);
                        assert(!(before[p as int].0 <= item.0));
                    } else {
                        assert(sorted@[i] == before[i] && sorted@[j] == before[j - 1]);
                    }
                }
            }
            k += 1;
        }
        assert(found@.take(found@.len() as int) =~= found@);
        let mut bounds: Vec<u8> = Vec::new();
        let mut tiers: Vec<(u64, NamedColor)> = Vec::new();
        let mut i: usize = 0;
        while i < sorted.len()
            invariant
                i <= sorted@.len(),
                bounds@.len() == i,
                tiers@.len() == i,
                forall|j: int|
                    0 <= j < i ==> #[trigger] bounds@[j] == sorted@[j].0 && tiers@[j] == (
                        sorted@[j].1,
                        sorted@[j].2,
                    ),
            decreases sorted@.len() - i,
        {
            bounds.push(sorted[i].0);
            tiers.push((sorted[i].1, sorted[i].2));
            i += 1;
        }
        let b = Bands { bounds, tiers };
        assert(b.entries() =~= sorted@);
        b
    }

    /// The tier and colour `remaining` lives puts a player in.
    fn at(&self, remaining: u8) -> (r: Option<(u64, NamedColor)>)
        requires
            self.wf(),
        ensures
            match band_of(self.bounds_view(), remaining) {
                Some(i) => r == Some(self.tiers_view()[i as int]),
                None => r is None,
            },
    {
        let found = band_index(&self.bounds, remaining);
        match found {
            Some(i) => {
                proof {
                    lemma_first_wide_enough(self.bounds@, remaining);
                }
                assert(i < self.tiers@.len());
                let t = self.tiers[i];
                assert(t == self.tiers_view()[i as int]);
                Some(t)
            },
            None => None,
        }
    }

    /// The tier entity `remaining` lives puts a player in.
    pub fn tier(&self, remaining: u8) -> (r: Option<u64>)
        requires
            self.wf(),
        ensures
            match band_of(self.bounds_view(), remaining) {
                Some(i) => r == Some(self.tiers_view()[i as int].0),
                None => r is None,
            },
    {
        match self.at(remaining) {
            Some((t, _)) => Some(t),
            None => None,
        }
    }

    /// The colour a name is drawn in at `remaining` lives; `None` only when
    /// the table is empty.
    pub fn tint(&self, remaining: u8) -> (r: Option<NamedColor>)
        requires
            self.wf(),
        ensures
            match band_of(self.bounds_view(), remaining) {
                Some(i) => r == Some(self.tiers_view()[i as int].1),
                None => r is None,
            },
    {
        match self.at(remaining) {
            Some((_, c)) => Some(c),
            None => None,
        }
    }
}

// ---------------------------------------------------------------------------
// A death
// ---------------------------------------------------------------------------

/// What a death does: the lives left after it, the line the arena is told,
/// the title the victim is shown, and whether it ended their match.
#[derive(Debug)]
pub struct Death {
    pub lives: u8,
    pub announcement: String,
    pub title: Title,
    pub eliminated: bool,
    /// The finishing position a player eliminated by this death is given,
    /// in reverse elimination order: how many were still in the match, the
    /// victim among them.
    pub placement: Option<u32>,
}

/// The finishing position of a player eliminated while `alive` players,
/// themselves among them, were still in; zero past what a `u32` holds.
pub open spec fn placement_of(alive: usize) -> u32 {
    if alive <= u32::MAX {
        alive as u32
    } else {
        0
    }
}

/// The line the arena is told: who smashed whom, or how they died when
/// nobody is credited.
pub open spec fn announcement(name: Seq<char>, killer: Option<Seq<char>>, cause: DeathCause) -> Seq<
    char,
> {
    match killer {
        Some(k) => name + " was smashed by "@ + k + "!"@,
        None => match cause {
            DeathCause::Void => name + " fell out of bounds!"@,
            DeathCause::Damage => name + " had nobody to blame but themselves!"@,
        },
    }
}

/// A player named `name` with `lives` left dies of `cause`, credited to
/// `killer` if anyone, while `alive` players are still in the match. A
/// player already out of it is ignored: `None`. Otherwise they lose a life
/// (never going below zero), and losing the last one eliminates them.
pub fn on_death(
    lives: u8,
    already_eliminated: bool,
    alive: usize,
    name: &str,
    killer: Option<&str>,
    cause: DeathCause,
) -> (d: Option<Death>)
    ensures
        already_eliminated ==> d is None,
        !already_eliminated ==> (d matches Some(death) && {
            let left = if lives > 0 {
                (lives - 1) as u8
            } else {
                0u8
            };
            &&& death.lives == left
            &&& death.eliminated == (left == 0)
            &&& death.placement == (if left == 0 {
                Some(placement_of(alive))
            } else {
                None
            })
            &&& death.announcement@ == announcement(name@, opt_view(killer), cause)
            &&& death.title@ == (Heading {
                title: death_heading(left),
                subtitle: Some(death_credit(opt_view(killer), cause)),
                timing: Timing::Standard,
            })
        }),
{
    if already_eliminated {
        return None;
    }
    let left = if lives > 0 {
        lives - 1
    } else {
        0
    };
    let mut s = String::new();
    push_str(&mut s, name);
    match killer {
        Some(k) => {
            push_str(&mut s, " was smashed by ");
            push_str(&mut s, k);
            push_str(&mut s, "!");
        },
        None => match cause {
            DeathCause::Void => push_str(&mut s, " fell out of bounds!"),
            DeathCause::Damage => push_str(&mut s, " had nobody to blame but themselves!"),
        },
    }
    let title = crate::hud::death_title(left, killer, cause);
    let placement = if left == 0 {
        if alive as u64 <= u32::MAX as u64 {
            Some(alive as u32)
        } else {
            Some(0)
        }
    } else {
        None
    };
    Some(Death { lives: left, announcement: s, title, eliminated: left == 0, placement })
}

/// The arena is told who smashed whom when somebody gets the credit, and
/// otherwise how the player died: a fall out of bounds, or anything else.
pub proof fn law_a_death_is_announced_by_its_credit(name: Seq<char>, killer: Option<Seq<char>>, cause: DeathCause)
    ensures
        killer matches Some(k) ==> announcement(name, killer, cause) == name + " was smashed by "@
            + k + "!"@,
        killer is None && cause == DeathCause::Void ==> announcement(name, killer, cause) == name
            + " fell out of bounds!"@,
        killer is None && cause == DeathCause::Damage ==> announcement(name, killer, cause) == name
            + " had nobody to blame but themselves!"@,
{
}

} // verus!

//! The kit selector: a ring of podiums in the hub, one per kit, each a wool
//! block with the kit's mob standing on it.
//!
//! Entities are named here by plain ids: a podium, the kit it offers, and the
//! kits currently claimed by a player. What the world holds is read by the
//! host and handed in; what it should show is decided here.
use crate::command::{BlockPos, Offer};
use crate::screen::{styled, NamedColor, Styled, Text};
use crate::text::push_str;
use vstd::prelude::*;

verus! {

/// The y of a podium's wool in the hub's own coordinates: level with the
/// feet of a player standing on the floor.
pub const PLINTH_Y: i32 = 65;

/// The colour of a free mob's nameplate.
pub const FREE_COLOR: NamedColor = NamedColor::Green;

/// The colour of a taken mob's nameplate.
pub const TAKEN_COLOR: NamedColor = NamedColor::Red;

/// Where a podium stands: its wool block. The mob stands in the block above.
#[derive(Clone, Copy, PartialEq, Eq, Structural, Debug)]
pub struct Plinth {
    pub base: BlockPos,
}

/// The block above `p`.
pub open spec fn above(p: BlockPos) -> BlockPos {
    BlockPos { x: p.x, y: (p.y + 1) as i32, z: p.z }
}

/// A plinth whose stand is a block position at all.
pub open spec fn standable(p: Plinth) -> bool {
    p.base.y < i32::MAX
}

impl Plinth {
    /// The block the kit's mob stands in.
    pub fn stand(self) -> (p: BlockPos)
        requires
            standable(self),
        ensures
            p == above(self.base),
    {
        BlockPos { x: self.base.x, y: self.base.y + 1, z: self.base.z }
    }

    /// Whether a click on `position` is a click on this podium: the wool or
    /// the block the mob stands in.
    pub fn covers(self, position: BlockPos) -> (r: bool)
        requires
            standable(self),
        ensures
            r == (position == self.base || position == above(self.base)),
    {
        position == self.base || position == self.stand()
    }
}

/// The wool a podium stands on: red when its kit is taken, lime when free.
pub open spec fn wool_name(taken: bool) -> Seq<char> {
    if taken {
        "minecraft:red_wool"@
    } else {
        "minecraft:lime_wool"@
    }
}

/// The block a podium's wool is made of.
pub fn wool(taken: bool) -> (w: &'static str)
    ensures
        w@ == wool_name(taken),
{
    if taken {
        "minecraft:red_wool"
    } else {
        "minecraft:lime_wool"
    }
}

/// The colour that carries the claim on a nameplate.
pub open spec fn claim_colour(taken: bool) -> NamedColor {
    if taken {
        NamedColor::Red
    } else {
        NamedColor::Green
    }
}

/// What one podium's mob is called: the kit's name and nothing else, in the
/// colour that says whether it is taken.
pub fn nameplate(kit: &str, taken: bool) -> (t: Text)
    ensures
        t@ == styled(kit@, Some(claim_colour(taken)), false),
{
    let t = Text::literal(kit);
    if taken {
        t.color(TAKEN_COLOR)
    } else {
        t.color(FREE_COLOR)
    }
}

/// Whether `kit` is claimed by somebody.
pub fn is_taken(claims: &Vec<u64>, kit: u64) -> (r: bool)
    ensures
        r == claims@.contains(kit),
{
    let mut i: usize = 0;
    while i < claims.len()
        invariant
            i <= claims.len(),
            forall|j: int| 0 <= j < i ==> claims@[j] != kit,
        decreases claims.len() - i,
    {
        if claims[i] == kit {
            assert(claims@[i as int] == kit);
            return true;
        }
        i += 1;
    }
    false
}

/// One podium: its own id, where it stands, and the kit it offers.
pub type Podium = (u64, Plinth, u64);

/// What the wool under each podium should be right now, in podium order.
pub fn plinths(podiums: &Vec<Podium>, claims: &Vec<u64>) -> (r: Vec<(BlockPos, &'static str)>)
    ensures
        r@.len() == podiums@.len(),
        forall|i: int|
            0 <= i < podiums@.len() ==> {
                &&& (#[trigger] r@[i]).0 == podiums@[i].1.base
                &&& r@[i].1@ == wool_name(claims@.contains(podiums@[i].2))
            },
{
    let mut r: Vec<(BlockPos, &'static str)> = Vec::new();
    let mut i: usize = 0;
    while i < podiums.len()
        invariant
            i <= podiums.len(),
            r@.len() == i,
            forall|k: int|
                0 <= k < i ==> {
                    &&& (#[trigger] r@[k]).0 == podiums@[k].1.base
                    &&& r@[k].1@ == wool_name(claims@.contains(podiums@[k].2))
                },
        decreases podiums.len() - i,
    {
        let (_, plinth, kit) = podiums[i];
        let taken = is_taken(claims, kit);
        r.push((plinth.base, wool(taken)));
        i += 1;
    }
    r
}

/// The index of the first podium whose plinth covers `position`.
pub open spec fn first_covering(podiums: Seq<Podium>, position: BlockPos) -> Option<int>
    decreases podiums.len(),
{
    if podiums.len() == 0 {
        None
    } else {
        let b = podiums.last().1.base;
        match first_covering(podiums.drop_last(), position) {
            Some(i) => Some(i),
            None => if position == b || position == above(b) {
                Some(podiums.len() - 1)
            } else {
                None
            },
        }
    }
}

proof fn lemma_first_covering_step(podiums: Seq<Podium>, position: BlockPos, i: int)
    requires
        0 <= i < podiums.len(),
        first_covering(podiums.take(i), position) is None,
    ensures
        first_covering(podiums.take(i + 1), position) == (if position == podiums[i].1.base
            || position == above(podiums[i].1.base) {
            Some(i)
        } else {
            None::<int>
        }),
{
    assert(podiums.take(i + 1).drop_last() =~= podiums.take(i));
}

/// The podium, and the kit it offers, whose wool or stand is at `position`:
/// the first such podium in `podiums`.
pub fn podium_at(podiums: &Vec<Podium>, position: BlockPos) -> (r: Option<(u64, u64)>)
    requires
        forall|i: int| 0 <= i < podiums@.len() ==> standable(#[trigger] podiums@[i].1),
    ensures
        match first_covering(podiums@, position) {
            Some(i) => r == Some((podiums@[i].0, podiums@[i].2)),
            None => r is None,
        },
{
    let mut i: usize = 0;
    assert(podiums@.take(0) =~= Seq::<Podium>::empty());
    while i < podiums.len()
        invariant
            i <= podiums.len(),
            forall|k: int| 0 <= k < podiums@.len() ==> standable(#[trigger] podiums@[k].1),
            first_covering(podiums@.take(i as int), position) is None,
        decreases podiums.len() - i,
    {
        proof {
            lemma_first_covering_step(podiums@, position, i as int);
        }
        let (podium, plinth, kit) = podiums[i];
        if plinth.covers(position) {
            proof {
                lemma_first_covering_prefix(podiums@, position, i + 1);
            }
            return Some((podium, kit));
        }
        i += 1;
    }
    assert(podiums@.take(podiums@.len() as int) =~= podiums@);
    None
}

/// Once the first covering podium is within a prefix, the prefix's answer
/// is the whole sequence's.
proof fn lemma_first_covering_prefix(podiums: Seq<Podium>, position: BlockPos, n: int)
    requires
        0 <= n <= podiums.len(),
        first_covering(podiums.take(n), position) is Some,
    ensures
        first_covering(podiums, position) == first_covering(podiums.take(n), position),
    decreases podiums.len() - n,
{
    if n < podiums.len() {
        assert(podiums.take(n + 1).drop_last() =~= podiums.take(n));
        lemma_first_covering_prefix(podiums, position, n + 1);
    } else {
        assert(podiums.take(n) =~= podiums);
    }
}

/// `p` moved by `by`.
pub open spec fn shifted(p: BlockPos, by: BlockPos) -> BlockPos {
    BlockPos { x: (p.x + by.x) as i32, y: (p.y + by.y) as i32, z: (p.z + by.z) as i32 }
}

/// Whether `p + by` is a block position at all.
pub open spec fn fits(p: BlockPos, by: BlockPos) -> bool {
    &&& i32::MIN <= p.x + by.x <= i32::MAX
    &&& i32::MIN <= p.y + by.y <= i32::MAX
    &&& i32::MIN <= p.z + by.z <= i32::MAX
}

/// Every position of a ring, moved to stand around `origin`.
pub open spec fn placed(ring: Seq<BlockPos>, origin: BlockPos) -> Seq<BlockPos> {
    ring.map_values(|p: BlockPos| shifted(p, origin))
}

/// The first place in `s` that repeats an earlier one.
pub open spec fn first_repeat(s: Seq<BlockPos>) -> Option<int>
    decreases s.len(),
{
    if s.len() == 0 {
        None
    } else {
        match first_repeat(s.drop_last()) {
            Some(i) => Some(i),
            None => if s.drop_last().contains(s.last()) {
                Some(s.len() - 1)
            } else {
                None
            },
        }
    }
}

proof fn lemma_first_repeat_prefix(s: Seq<BlockPos>, n: int)
    requires
        0 <= n <= s.len(),
        first_repeat(s.take(n)) is Some,
    ensures
        first_repeat(s) == first_repeat(s.take(n)),
    decreases s.len() - n,
{
    if n < s.len() {
        assert(s.take(n + 1).drop_last() =~= s.take(n));
        lemma_first_repeat_prefix(s, n + 1);
    } else {
        assert(s.take(n) =~= s);
    }
}

/// Whether `p` is among `v`.
fn holds(v: &Vec<BlockPos>, p: BlockPos) -> (r: bool)
    ensures
        r == v@.contains(p),
{
    let mut j: usize = 0;
    while j < v.len()
        invariant
            j <= v.len(),
            forall|k: int| 0 <= k < j ==> v@[k] != p,
        decreases v.len() - j,
    {
        if v[j] == p {
            assert(v@[j as int] == p);
            return true;
        }
        j += 1;
    }
    false
}

/// Where each podium of a ring stands once the ring is centred on
/// `origin`, in ring order. Two podiums that would share a block are a
/// roster that has outgrown the ring: the block they share is the error,
/// the first one at which it happens.
pub fn place_ring(ring: &Vec<BlockPos>, origin: BlockPos) -> (r: Result<Vec<BlockPos>, BlockPos>)
    requires
        forall|i: int| 0 <= i < ring@.len() ==> fits(#[trigger] ring@[i], origin),
    ensures
        match first_repeat(placed(ring@, origin)) {
            None => r matches Ok(v) && v@ == placed(ring@, origin),
            Some(i) => r == Err::<Vec<BlockPos>, BlockPos>(placed(ring@, origin)[i]),
        },
{
    let ghost all = placed(ring@, origin);
    let mut bases: Vec<BlockPos> = Vec::new();
    let mut i: usize = 0;
    assert(all.take(0) =~= Seq::<BlockPos>::empty());
    while i < ring.len()
        invariant
            i <= ring.len(),
            all == placed(ring@, origin),
            forall|k: int| 0 <= k < ring@.len() ==> fits(#[trigger] ring@[k], origin),
            bases@ == all.take(i as int),
            first_repeat(all.take(i as int)) is None,
        decreases ring.len() - i,
    {
        let at = ring[i];
        assert(fits(ring@[i as int], origin));
        let base = BlockPos { x: at.x + origin.x, y: at.y + origin.y, z: at.z + origin.z };
        assert(base == all[i as int]);
        assert(all.take(i + 1).drop_last() =~= all.take(i as int));
        assert(all.take(i + 1).last() == base);
        if holds(&bases, base) {
            proof {
                lemma_first_repeat_prefix(all, i + 1);
            }
            return Err(base);
        }
        bases.push(base);
        assert(bases@ =~= all.take(i + 1));
        i += 1;
    }
    assert(all.take(ring@.len() as int) =~= all);
    Ok(bases)
}

/// A ring that [`place_ring`] accepts puts every podium in a block of its
/// own.
pub proof fn law_an_accepted_ring_shares_no_block(s: Seq<BlockPos>)
    requires
        first_repeat(s) is None,
    ensures
        s.no_duplicates(),
    decreases s.len(),
{
    if s.len() > 0 {
        let t = s.drop_last();
        law_an_accepted_ring_shares_no_block(t);
        assert forall|i: int, j: int| 0 <= i < s.len() && 0 <= j < s.len() && i != j implies s[i]
            != s[j] by {
            if i < t.len() && j < t.len() {
                assert(s[i] == t[i] && s[j] == t[j]);
            } else if i == s.len() - 1 {
                assert(s[j] == t[j]);
                if s[i] == s[j] {
                    assert(t.contains(s.last()));
                }
            } else {
                assert(s[i] == t[i]);
                if s[i] == s[j] {
                    assert(t.contains(s.last()));
                }
            }
        }
    }
}

/// The refusal a player sees when somebody else got there first.
pub open spec fn taken_text(kit: Option<Seq<char>>, holder: Seq<char>) -> Seq<char> {
    let name = match kit {
        Some(k) => k,
        None => "That kit"@,
    };
    name + " is already taken by "@ + holder + seq!['.']
}

/// The refusal a player sees when somebody else got there first: the kit by
/// name, or `That kit` when it has none, and who holds it.
pub fn taken_message(kit: Option<&str>, holder: &str) -> (s: String)
    ensures
        s@ == taken_text(
            match kit {
                Some(k) => Some(k@),
                None => None,
            },
            holder@,
        ),
{
    let mut s = String::new();
    match kit {
        Some(k) => push_str(&mut s, k),
        None => push_str(&mut s, "That kit"),
    }
    push_str(&mut s, " is already taken by ");
    push_str(&mut s, holder);
    push_str(&mut s, ".");
    proof {
        reveal_strlit(".");
    }
    assert(s@ =~= taken_text(
        match kit {
            Some(k) => Some(k@),
            None => None,
        },
        holder@,
    ));
    s
}

/// The mob a kit that names none stands as: a podium still appears, since
/// a kit nobody can select is worse than an ugly one.
pub open spec fn default_mob() -> Seq<char> {
    "minecraft:armor_stand"@
}

/// What the world says of one podium: where it stands, the kit it offers,
/// and that kit's name, mob and selection sound where it has them.
#[derive(Debug)]
pub struct PodiumFacts {
    pub podium: u64,
    pub plinth: Plinth,
    pub kit: u64,
    pub name: Option<String>,
    pub mob: Option<String>,
    pub select_sound: Option<String>,
}

pub ghost struct Facts {
    pub podium: u64,
    pub plinth: Plinth,
    pub kit: u64,
    pub name: Option<Seq<char>>,
    pub mob: Option<Seq<char>>,
    pub select_sound: Option<Seq<char>>,
}

pub open spec fn opt_text(o: Option<String>) -> Option<Seq<char>> {
    match o {
        Some(s) => Some(s@),
        None => None,
    }
}

impl View for PodiumFacts {
    type V = Facts;

    open spec fn view(&self) -> Facts {
        Facts {
            podium: self.podium,
            plinth: self.plinth,
            kit: self.kit,
            name: opt_text(self.name),
            mob: opt_text(self.mob),
            select_sound: opt_text(self.select_sound),
        }
    }
}

/// One podium as a reader outside the world sees it.
pub ghost struct Offered {
    pub name: Seq<char>,
    pub click: BlockPos,
    pub base: BlockPos,
    pub wool: Seq<char>,
    pub mob: Seq<char>,
    pub label: Seq<char>,
    pub select_sound: Option<Seq<char>>,
    pub held_by: Option<Seq<char>>,
}

pub open spec fn offered_view(o: Offer) -> Offered {
    Offered {
        name: o.name@,
        click: o.click,
        base: o.base,
        wool: o.wool@,
        mob: o.mob@,
        label: o.label@,
        select_sound: opt_text(o.select_sound),
        held_by: opt_text(o.held_by),
    }
}

/// Who plays a kit: the first claim on it, by the player's name.
pub open spec fn holder(claims: Seq<(u64, Seq<char>)>, kit: u64) -> Option<Seq<char>>
    decreases claims.len(),
{
    if claims.len() == 0 {
        None
    } else if claims[0].0 == kit {
        Some(claims[0].1)
    } else {
        holder(claims.drop_first(), kit)
    }
}

/// One named podium as it is offered.
pub open spec fn offer_of(f: Facts, name: Seq<char>, claims: Seq<(u64, Seq<char>)>) -> Offered {
    Offered {
        name,
        click: above(f.plinth.base),
        base: f.plinth.base,
        wool: wool_name(holder(claims, f.kit) is Some),
        mob: match f.mob {
            Some(m) => m,
            None => default_mob(),
        },
        label: name,
        select_sound: f.select_sound,
        held_by: holder(claims, f.kit),
    }
}

/// Every podium whose kit has a name, in podium order.
pub open spec fn offered(facts: Seq<Facts>, claims: Seq<(u64, Seq<char>)>) -> Seq<Offered>
    decreases facts.len(),
{
    if facts.len() == 0 {
        seq![]
    } else {
        offered(facts.drop_last(), claims) + match facts.last().name {
            Some(n) => seq![offer_of(facts.last(), n, claims)],
            None => seq![],
        }
    }
}

pub open spec fn claims_view(claims: Seq<(u64, String)>) -> Seq<(u64, Seq<char>)> {
    claims.map_values(|c: (u64, String)| (c.0, c.1@))
}

fn copy_text(o: &Option<String>) -> (r: Option<String>)
    ensures
        opt_text(r) == opt_text(*o),
{
    match o {
        Some(s) => Some(s.clone()),
        None => None,
    }
}

/// The name of whoever plays `kit`.
fn holder_of(claims: &Vec<(u64, String)>, kit: u64) -> (r: Option<String>)
    ensures
        opt_text(r) == holder(claims_view(claims@), kit),
{
    let ghost cv = claims_view(claims@);
    let mut i: usize = 0;
    assert(cv.skip(0) =~= cv);
    while i < claims.len()
        invariant
            i <= claims@.len(),
            cv == claims_view(claims@),
            holder(cv, kit) == holder(cv.skip(i as int), kit),
        decreases claims@.len() - i,
    {
        assert(cv.skip(i as int).drop_first() =~= cv.skip(i + 1));
        if claims[i].0 == kit {
            return Some(claims[i].1.clone());
        }
        i += 1;
    }
    None
}

/// Every podium whose kit has a name, as a reader outside the game sees it:
/// where to click, the wool under it and what that wool says, the mob on
/// it, what it is called, the sound picking it plays, and who holds it.
pub fn manifest(podiums: &Vec<PodiumFacts>, claims: &Vec<(u64, String)>) -> (r: Vec<Offer>)
    requires
        forall|i: int| 0 <= i < podiums@.len() ==> standable(#[trigger] podiums@[i].plinth),
    ensures
        r@.map_values(|o: Offer| offered_view(o)) == offered(
            podiums@.map_values(|p: PodiumFacts| p@),
            claims_view(claims@),
        ),
{
    let ghost fv = podiums@.map_values(|p: PodiumFacts| p@);
    let ghost cv = claims_view(claims@);
    let mut r: Vec<Offer> = Vec::new();
    let mut i: usize = 0;
    assert(fv.take(0) =~= Seq::<Facts>::empty());
    assert(r@.map_values(|o: Offer| offered_view(o)) =~= Seq::<Offered>::empty());
    while i < podiums.len()
        invariant
            i <= podiums@.len(),
            fv == podiums@.map_values(|p: PodiumFacts| p@),
            cv == claims_view(claims@),
            forall|k: int| 0 <= k < podiums@.len() ==> standable(#[trigger] podiums@[k].plinth),
            r@.map_values(|o: Offer| offered_view(o)) == offered(fv.take(i as int), cv),
        decreases podiums@.len() - i,
    {
        let p = &podiums[i];
        assert(fv.take(i + 1).drop_last() =~= fv.take(i as int));
        assert(fv.take(i + 1).last() == p@);
        match &p.name {
            Some(n) => {
                let held_by = holder_of(claims, p.kit);
                let taken = held_by.is_some();
                let mob = match &p.mob {
                    Some(m) => m.clone(),
                    None => {
                        let mut m = String::new();
                        push_str(&mut m, "minecraft:armor_stand");
                        m
                    },
                };
                let mut wool_text = String::new();
                push_str(&mut wool_text, wool(taken));
                let o = Offer {
                    name: n.clone(),
                    click: p.plinth.stand(),
                    base: p.plinth.base,
                    wool: wool_text,
                    mob,
                    label: n.clone(),
                    select_sound: copy_text(&p.select_sound),
                    held_by,
                };
                let ghost before = r@.map_values(|o: Offer| offered_view(o));
                r.push(o);
                assert(r@.map_values(|o: Offer| offered_view(o)) =~= before.push(offered_view(o)));
                assert(offered_view(o) == offer_of(p@, n@, cv));
                assert(offered(fv.take(i + 1), cv) =~= before.push(offered_view(o)));
            },
            None => {
                assert(offered(fv.take(i + 1), cv) =~= offered(fv.take(i as int), cv));
            },
        }
        i += 1;
    }
    assert(fv.take(podiums@.len() as int) =~= fv);
    r
}

/// What each named podium's mob should be called right now, in podium
/// order.
pub open spec fn plates(facts: Seq<Facts>, claims: Seq<(u64, Seq<char>)>) -> Seq<(u64, Styled)>
    decreases facts.len(),
{
    if facts.len() == 0 {
        seq![]
    } else {
        plates(facts.drop_last(), claims) + match facts.last().name {
            Some(n) => seq![
                (facts.last().podium, styled(n, Some(claim_colour(holder(claims, facts.last().kit) is Some)), false)),
            ],
            None => seq![],
        }
    }
}

/// What the mob on each podium should currently be called.
pub fn nameplates(podiums: &Vec<PodiumFacts>, claims: &Vec<(u64, String)>) -> (r: Vec<(u64, Text)>)
    ensures
        r@.map_values(|e: (u64, Text)| (e.0, e.1@)) == plates(
            podiums@.map_values(|p: PodiumFacts| p@),
            claims_view(claims@),
        ),
{
    let ghost fv = podiums@.map_values(|p: PodiumFacts| p@);
    let ghost cv = claims_view(claims@);
    let mut r: Vec<(u64, Text)> = Vec::new();
    let mut i: usize = 0;
    assert(fv.take(0) =~= Seq::<Facts>::empty());
    assert(r@.map_values(|e: (u64, Text)| (e.0, e.1@)) =~= Seq::<(u64, Styled)>::empty());
    while i < podiums.len()
        invariant
            i <= podiums@.len(),
            fv == podiums@.map_values(|p: PodiumFacts| p@),
            cv == claims_view(claims@),
            r@.map_values(|e: (u64, Text)| (e.0, e.1@)) == plates(fv.take(i as int), cv),
        decreases podiums@.len() - i,
    {
        let p = &podiums[i];
        assert(fv.take(i + 1).drop_last() =~= fv.take(i as int));
        assert(fv.take(i + 1).last() == p@);
        match &p.name {
            Some(n) => {
                let taken = holder_of(claims, p.kit).is_some();
                let plate = nameplate(n.as_str(), taken);
                let ghost before = r@.map_values(|e: (u64, Text)| (e.0, e.1@));
                let ghost entry = (p.podium, plate@);
                r.push((p.podium, plate));
                assert(r@.map_values(|e: (u64, Text)| (e.0, e.1@)) =~= before.push(entry));
                assert(plates(fv.take(i + 1), cv) =~= before.push(entry));
            },
            None => {
                assert(plates(fv.take(i + 1), cv) =~= plates(fv.take(i as int), cv));
            },
        }
        i += 1;
    }
    assert(fv.take(podiums@.len() as int) =~= fv);
    r
}

/// Which mob stands on each podium, and where: every podium, named or not,
/// with the default mob for a kit that names none.
pub open spec fn stood(f: Facts) -> (u64, BlockPos, Seq<char>) {
    (
        f.podium,
        above(f.plinth.base),
        match f.mob {
            Some(m) => m,
            None => default_mob(),
        },
    )
}

/// Which mob stands on each podium, and where.
pub fn mobs(podiums: &Vec<PodiumFacts>) -> (r: Vec<(u64, BlockPos, String)>)
    requires
        forall|i: int| 0 <= i < podiums@.len() ==> standable(#[trigger] podiums@[i].plinth),
    ensures
        r@.len() == podiums@.len(),
        forall|i: int|
            0 <= i < podiums@.len() ==> {
                let e = #[trigger] r@[i];
                (e.0, e.1, e.2@) == stood(podiums@[i]@)
            },
{
    let mut r: Vec<(u64, BlockPos, String)> = Vec::new();
    let mut i: usize = 0;
    while i < podiums.len()
        invariant
            i <= podiums@.len(),
            r@.len() == i,
            forall|k: int| 0 <= k < podiums@.len() ==> standable(#[trigger] podiums@[k].plinth),
            forall|k: int|
                0 <= k < i ==> {
                    let e = #[trigger] r@[k];
                    (e.0, e.1, e.2@) == stood(podiums@[k]@)
                },
        decreases podiums@.len() - i,
    {
        let p = &podiums[i];
        let mob = match &p.mob {
            Some(m) => m.clone(),
            None => {
                let mut m = String::new();
                push_str(&mut m, "minecraft:armor_stand");
                m
            },
        };
        r.push((p.podium, p.plinth.stand(), mob));
        i += 1;
    }
    r
}

/// The wool and the nameplate are one signal drawn at two heights: a
/// podium's wool is red exactly when its mob's name is, and lime exactly
/// when the name is green.
pub proof fn law_wool_and_nameplate_agree(taken: bool)
    ensures
        (wool_name(taken) == "minecraft:red_wool"@) <==> (claim_colour(taken) == NamedColor::Red),
        (wool_name(taken) == "minecraft:lime_wool"@) <==> (claim_colour(taken) == NamedColor::Green),
{
    reveal_strlit("minecraft:red_wool");
    reveal_strlit("minecraft:lime_wool");
    assert("minecraft:red_wool"@ != "minecraft:lime_wool"@) by {
        assert("minecraft:red_wool"@[10] != "minecraft:lime_wool"@[10]);
    }
}

/// A taken kit's podium is red wool under a red name, and a free one lime
/// wool under a green name.
pub proof fn law_taken_is_red_and_free_is_green(taken: bool)
    ensures
        taken ==> wool_name(taken) == "minecraft:red_wool"@ && claim_colour(taken) == NamedColor::Red,
        !taken ==> wool_name(taken) == "minecraft:lime_wool"@ && claim_colour(taken)
            == NamedColor::Green,
{
}

} // verus!

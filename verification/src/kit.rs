//! Where a kit's abilities sit on the hotbar.
//!
//! The order a kit declares its starting abilities in is the layout: the
//! first takes slot 0, where a player's hand rests at spawn, and each after
//! it takes the key to its right. The Smash Crystal's ability always takes
//! the far right.
use vstd::prelude::*;
use vstd::string::StrSliceExecFns;

verus! {

/// How many keys a player has.
pub const HOTBAR_SLOTS: u8 = 9;

/// Where every kit's Smash Crystal ability goes: the far right of the bar.
pub const ULTIMATE_SLOT: u8 = HOTBAR_SLOTS - 1;

/// The slots a kit definition has handed out so far.
#[derive(Debug)]
pub struct KitSlots {
    /// The slot the next starting ability takes.
    pub next_slot: u8,
}

impl KitSlots {
    /// A kit with no abilities declared yet.
    pub fn new() -> (s: KitSlots)
        ensures
            s.next_slot == 0,
    {
        KitSlots { next_slot: 0 }
    }

    /// The slot of the next starting ability. A kit may declare only as many
    /// as fit to the left of [`ULTIMATE_SLOT`]: one more would land on the
    /// ultimate's key.
    pub fn ability(&mut self) -> (slot: u8)
        requires
            old(self).next_slot < ULTIMATE_SLOT,
        ensures
            slot == old(self).next_slot,
            final(self).next_slot == old(self).next_slot + 1,
    {
        let slot = self.next_slot;
        self.next_slot = slot + 1;
        slot
    }

    /// The slot of the kit's Smash Crystal ability, whatever else it
    /// declares.
    pub fn ultimate(&self) -> (slot: u8)
        ensures
            slot == ULTIMATE_SLOT,
    {
        ULTIMATE_SLOT
    }
}

/// Something that sits in a hotbar slot.
pub trait Slotted: Sized {
    spec fn slot_of(&self) -> u8;

    fn slot(&self) -> (s: u8)
        ensures
            s == self.slot_of(),
    ;
}

/// Where `d` goes in `t` by slot: before the first entry in a higher slot,
/// so after every one in the same slot.
pub open spec fn slot_pos<T: Slotted>(t: Seq<T>, d: T) -> nat
    decreases t.len(),
{
    if t.len() == 0 {
        0
    } else if d.slot_of() < t[0].slot_of() {
        0
    } else {
        1 + slot_pos(t.drop_first(), d)
    }
}

/// `s` in slot order, entries sharing a slot in the order they came.
pub open spec fn by_slot<T: Slotted>(s: Seq<T>) -> Seq<T>
    decreases s.len(),
{
    if s.len() == 0 {
        seq![]
    } else {
        let t = by_slot(s.drop_last());
        t.insert(slot_pos(t, s.last()) as int, s.last())
    }
}

proof fn lemma_slot_pos<T: Slotted>(t: Seq<T>, d: T)
    ensures
        slot_pos(t, d) <= t.len(),
        forall|i: int| 0 <= i < slot_pos(t, d) ==> (#[trigger] t[i]).slot_of() <= d.slot_of(),
        slot_pos(t, d) < t.len() ==> d.slot_of() < t[slot_pos(t, d) as int].slot_of(),
    decreases t.len(),
{
    if t.len() > 0 && d.slot_of() >= t[0].slot_of() {
        lemma_slot_pos(t.drop_first(), d);
        assert forall|i: int| 0 <= i < slot_pos(t, d) implies (#[trigger] t[i]).slot_of()
            <= d.slot_of() by {
            if i > 0 {
                assert(t[i] == t.drop_first()[i - 1]);
            }
        }
    }
}

/// `entries` put in slot order, by a stable insertion.
pub fn in_slot_order<T: Slotted>(entries: Vec<T>) -> (out: Vec<T>)
    ensures
        out@ == by_slot(entries@),
{
    let ghost all = entries@;
    let mut rest = entries;
    let mut out: Vec<T> = Vec::new();
    assert(all.take(0) =~= Seq::<T>::empty());
    assert(all.skip(0) =~= all);
    while rest.len() > 0
        invariant
            rest@.len() <= all.len(),
            rest@ == all.skip(all.len() - rest@.len()),
            out@ == by_slot(all.take(all.len() - rest@.len())),
        decreases rest@.len(),
    {
        let ghost k = all.len() - rest@.len();
        let ghost t = out@;
        assert(all.take(k + 1).drop_last() =~= all.take(k));
        assert(all.take(k + 1).last() == all[k]);
        assert(rest@[0] == all[k]);
        let item = rest.remove(0);
        assert(rest@ =~= all.skip(k + 1));
        let at = item.slot();
        let mut p: usize = 0;
        assert(t.skip(0) =~= t);
        while p < out.len() && at >= out[p].slot()
            invariant
                p <= out@.len(),
                t == out@,
                at == item.slot_of(),
                slot_pos(t, item) == p + slot_pos(t.skip(p as int), item),
            decreases out@.len() - p,
        {
            assert(t.skip(p as int).drop_first() =~= t.skip(p + 1));
            p += 1;
        }
        assert(slot_pos(t, item) == p);
        out.insert(p, item);
    }
    assert(all.take(all.len() as int) =~= all);
    out
}

/// Slot order never puts an entry in a higher slot before one in a lower
/// slot.
pub proof fn law_slot_order_is_sorted<T: Slotted>(s: Seq<T>)
    ensures
        forall|i: int, j: int| 0 <= i < j < by_slot(s).len() ==> (#[trigger] by_slot(s)[i]).slot_of()
            <= (#[trigger] by_slot(s)[j]).slot_of(),
    decreases s.len(),
{
    if s.len() > 0 {
        law_slot_order_is_sorted(s.drop_last());
        let t = by_slot(s.drop_last());
        let d = s.last();
        lemma_slot_pos(t, d);
        let p = slot_pos(t, d) as int;
        let u = t.insert(p, d);
        t.insert_ensures(p, d);
        assert forall|i: int, j: int| 0 <= i < j < u.len() implies (#[trigger] u[i]).slot_of()
            <= (#[trigger] u[j]).slot_of() by {
            if j < p {
                assert(u[i] == t[i] && u[j] == t[j]);
            } else if j == p {
                assert(u[i] == t[i]);
            } else if i > p {
                assert(u[i] == t[i - 1] && u[j] == t[j - 1]);
            } else if i == p {
                assert(u[j] == t[j - 1]);
                assert(t[p].slot_of() <= t[j - 1].slot_of());
            } else {
                assert(u[i] == t[i] && u[j] == t[j - 1]);
            }
        }
    }
}

/// Putting entries in slot order neither loses one nor invents one.
pub proof fn law_slot_order_keeps_every_entry<T: Slotted>(s: Seq<T>)
    ensures
        by_slot(s).to_multiset() == s.to_multiset(),
    decreases s.len(),
{
    broadcast use vstd::seq_lib::group_seq_properties;
    broadcast use vstd::multiset::group_multiset_axioms;

    if s.len() == 0 {
        assert(by_slot(s) =~= s);
    } else {
        let t = by_slot(s.drop_last());
        let d = s.last();
        law_slot_order_keeps_every_entry(s.drop_last());
        lemma_slot_pos(t, d);
        let p = slot_pos(t, d) as int;
        let u = t.insert(p, d);
        t.insert_ensures(p, d);
        assert(u.remove(p) =~= t);
        u.to_multiset_ensures();
        assert(u.remove(p).to_multiset() =~= u.to_multiset().remove(d));
        assert(u.to_multiset().count(d) > 0) by {
            assert(u.contains(d)) by {
                assert(u[p] == d);
            }
        }
        assert(u.to_multiset() =~= t.to_multiset().insert(d));
        assert(s =~= s.drop_last().push(d));
        s.drop_last().to_multiset_ensures();
    }
}

/// One key of a player's hotbar: the ability's item, named, with its
/// description as lore when it has one.
#[derive(Debug)]
pub struct HotbarItem {
    pub slot: u8,
    /// The item as a full `minecraft:` identifier.
    pub item: String,
    pub name: String,
    pub lore: Vec<String>,
}

impl Slotted for HotbarItem {
    open spec fn slot_of(&self) -> u8 {
        self.slot
    }

    fn slot(&self) -> (s: u8) {
        self.slot
    }
}

/// What one granted ability carries that the hotbar shows.
#[derive(Debug)]
pub struct Granted {
    pub slot: Option<u8>,
    pub item: Option<String>,
    pub name: Option<String>,
    pub description: Option<String>,
}

pub ghost struct Key {
    pub slot: u8,
    pub item: Seq<char>,
    pub name: Seq<char>,
    pub lore: Seq<Seq<char>>,
}

pub open spec fn key_of(h: HotbarItem) -> Key {
    Key { slot: h.slot, item: h.item@, name: h.name@, lore: h.lore@.map_values(|l: String| l@) }
}

/// The key one grant becomes: none unless it has a slot, an item and a
/// name, and lore only for a description with something in it.
pub open spec fn key_for(g: Granted) -> Option<Key> {
    match (g.slot, g.item, g.name) {
        (Some(slot), Some(item), Some(name)) => Some(
            Key {
                slot,
                item: item@,
                name: name@,
                lore: match g.description {
                    Some(d) => if d@.len() > 0 {
                        seq![d@]
                    } else {
                        seq![]
                    },
                    None => seq![],
                },
            },
        ),
        _ => None,
    }
}

/// The keys the grants make, in grant order.
pub open spec fn keys(gs: Seq<Granted>) -> Seq<Key>
    decreases gs.len(),
{
    if gs.len() == 0 {
        seq![]
    } else {
        keys(gs.drop_last()) + match key_for(gs.last()) {
            Some(k) => seq![k],
            None => seq![],
        }
    }
}

fn key_from(g: Granted) -> (h: Option<HotbarItem>)
    ensures
        match key_for(g) {
            Some(k) => h matches Some(x) && key_of(x) == k,
            None => h is None,
        },
{
    match (g.slot, g.item, g.name) {
        (Some(slot), Some(item), Some(name)) => {
            let mut lore: Vec<String> = Vec::new();
            match g.description {
                Some(d) => {
                    if d.as_str().unicode_len() > 0 {
                        lore.push(d);
                    }
                },
                None => {},
            }
            let h = HotbarItem { slot, item, name, lore };
            assert(key_of(h).lore =~= key_for(g).unwrap().lore);
            Some(h)
        },
        _ => None,
    }
}

/// Where key `k` goes among `t` by slot, as [`slot_pos`] places entries.
pub open spec fn key_pos(t: Seq<Key>, k: Key) -> nat
    decreases t.len(),
{
    if t.len() == 0 {
        0
    } else if k.slot < t[0].slot {
        0
    } else {
        1 + key_pos(t.drop_first(), k)
    }
}

/// Keys in slot order, those sharing a slot in the order they came.
pub open spec fn keys_by_slot(s: Seq<Key>) -> Seq<Key>
    decreases s.len(),
{
    if s.len() == 0 {
        seq![]
    } else {
        let t = keys_by_slot(s.drop_last());
        t.insert(key_pos(t, s.last()) as int, s.last())
    }
}

proof fn lemma_key_pos(t: Seq<HotbarItem>, d: HotbarItem)
    ensures
        key_pos(t.map_values(|h: HotbarItem| key_of(h)), key_of(d)) == slot_pos(t, d),
    decreases t.len(),
{
    if t.len() > 0 {
        assert(t.drop_first().map_values(|h: HotbarItem| key_of(h)) =~= t.map_values(
            |h: HotbarItem| key_of(h),
        ).drop_first());
        lemma_key_pos(t.drop_first(), d);
    }
}

proof fn lemma_keys_by_slot(s: Seq<HotbarItem>)
    ensures
        by_slot(s).map_values(|h: HotbarItem| key_of(h)) == keys_by_slot(
            s.map_values(|h: HotbarItem| key_of(h)),
        ),
    decreases s.len(),
{
    if s.len() > 0 {
        let ks = s.map_values(|h: HotbarItem| key_of(h));
        lemma_keys_by_slot(s.drop_last());
        assert(s.drop_last().map_values(|h: HotbarItem| key_of(h)) =~= ks.drop_last());
        let t = by_slot(s.drop_last());
        lemma_slot_pos(t, s.last());
        lemma_key_pos(t, s.last());
        let p = slot_pos(t, s.last()) as int;
        assert(t.insert(p, s.last()).map_values(|h: HotbarItem| key_of(h)) =~= t.map_values(
            |h: HotbarItem| key_of(h),
        ).insert(p, key_of(s.last())));
    }
}

/// The hotbar a player's granted abilities imply: one key per grant that
/// has a slot, an item and a name, in slot order.
pub fn hotbar(granted: Vec<Granted>) -> (items: Vec<HotbarItem>)
    ensures
        items@.map_values(|h: HotbarItem| key_of(h)) == keys_by_slot(keys(granted@)),
{
    let ghost all = granted@;
    let mut rest = granted;
    let mut found: Vec<HotbarItem> = Vec::new();
    assert(all.take(0) =~= Seq::<Granted>::empty());
    assert(all.skip(0) =~= all);
    assert(found@.map_values(|h: HotbarItem| key_of(h)) =~= Seq::<Key>::empty());
    while rest.len() > 0
        invariant
            rest@.len() <= all.len(),
            rest@ == all.skip(all.len() - rest@.len()),
            found@.map_values(|h: HotbarItem| key_of(h)) == keys(all.take(all.len() - rest@.len())),
        decreases rest@.len(),
    {
        let ghost k = all.len() - rest@.len();
        assert(all.take(k + 1).drop_last() =~= all.take(k));
        assert(all.take(k + 1).last() == all[k]);
        assert(rest@[0] == all[k]);
        let g = rest.remove(0);
        assert(rest@ =~= all.skip(k + 1));
        let ghost before = found@.map_values(|h: HotbarItem| key_of(h));
        match key_from(g) {
            Some(h) => {
                let ghost kh = key_of(h);
                found.push(h);
                assert(found@.map_values(|h: HotbarItem| key_of(h)) =~= before.push(kh));
            },
            None => {},
        }
        assert(found@.map_values(|h: HotbarItem| key_of(h)) =~= keys(all.take(k + 1)));
    }
    assert(all.take(all.len() as int) =~= all);
    let ghost unsorted = found@;
    let items = in_slot_order(found);
    proof {
        lemma_keys_by_slot(unsorted);
    }
    items
}

} // verus!

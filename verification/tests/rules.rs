use smash::ability::{Readiness, Refusal};
use smash::kit::{hotbar, Granted, KitSlots, HOTBAR_SLOTS, ULTIMATE_SLOT};
use smash::vitals::{feeds_attacker, Food, FOOD_PER_HIT, FULL};

fn ready() -> Readiness {
    Readiness { recharging: false, needs_ground: false, grounded: false, short_of_energy: false }
}

#[test]
fn a_refusal_tells_the_player_why() {
    assert_eq!(Refusal::OnCooldown.message(), "That ability is recharging.");
    assert_eq!(Refusal::NotEnoughEnergy.message(), "Not enough energy.");
    assert_eq!(Refusal::NotGrounded.message(), "You must be on the ground.");
}

#[test]
fn a_ready_ability_fires() {
    assert_eq!(Refusal::check(ready()), Ok(()));
    assert_eq!(Refusal::check(Readiness { needs_ground: true, grounded: true, ..ready() }), Ok(()));
}

#[test]
fn the_cooldown_is_checked_first_then_the_ground_then_energy() {
    let everything = Readiness { recharging: true, needs_ground: true, grounded: false, short_of_energy: true };
    assert_eq!(Refusal::check(everything), Err(Refusal::OnCooldown));
    assert_eq!(
        Refusal::check(Readiness { recharging: false, ..everything }),
        Err(Refusal::NotGrounded)
    );
    assert_eq!(
        Refusal::check(Readiness { recharging: false, grounded: true, ..everything }),
        Err(Refusal::NotEnoughEnergy)
    );
}

#[test]
fn a_hit_feeds_up_to_a_full_bar() {
    assert_eq!(FULL, 20);
    assert_eq!(FOOD_PER_HIT, 1);
    let mut food = Food(12);
    assert!(food.feed(FOOD_PER_HIT));
    assert_eq!(food.0, 13);
    let mut full = Food::full();
    assert!(!full.feed(FOOD_PER_HIT));
    assert_eq!(full.0, FULL);
    let mut nearly = Food(19);
    assert!(nearly.feed(200));
    assert_eq!(nearly.0, FULL);
}

#[test]
fn an_empty_bar_starves() {
    assert!(Food(0).is_starving());
    assert!(!Food(1).is_starving());
}

#[test]
fn hurting_yourself_feeds_nobody() {
    assert!(feeds_attacker(1, 2));
    assert!(!feeds_attacker(2, 2));
}

#[test]
fn abilities_fill_the_bar_from_the_left_and_the_ultimate_sits_far_right() {
    assert_eq!(HOTBAR_SLOTS, 9);
    assert_eq!(ULTIMATE_SLOT, 8);
    let mut slots = KitSlots::new();
    assert_eq!(slots.ability(), 0);
    assert_eq!(slots.ability(), 1);
    assert_eq!(slots.ability(), 2);
    assert_eq!(slots.ultimate(), ULTIMATE_SLOT);
    assert_eq!(slots.next_slot, 3);
}

use smash::arena::{governing, spawn_slot, Policy, Region};
use smash::screen::Phase;

#[test]
fn the_hub_keeps_waiting_players_in_without_hurting_them() {
    assert_eq!(governing(Phase::Waiting, true), Some(Region::Hub));
    assert_eq!(governing(Phase::Countdown, true), Some(Region::Hub));
    assert_eq!(governing(Phase::Waiting, false), None);
    assert_eq!(Region::Hub.policy(), Policy::PushBack);
}

#[test]
fn the_arena_floor_kills_from_the_scatter_to_the_end_of_play() {
    assert_eq!(governing(Phase::Preparing, false), Some(Region::Arena));
    assert_eq!(governing(Phase::Playing, true), Some(Region::Arena));
    assert_eq!(Region::Arena.policy(), Policy::Eliminate);
    assert_eq!(governing(Phase::Ended, true), None);
}

#[test]
fn spawn_points_are_handed_out_in_turn() {
    assert_eq!(spawn_slot(0, 3), Some(0));
    assert_eq!(spawn_slot(4, 3), Some(1));
    assert_eq!(spawn_slot(u64::MAX, 7), Some((u64::MAX % 7) as usize));
    assert_eq!(spawn_slot(5, 0), None);
}

fn grant(slot: Option<u8>, item: Option<&str>, name: Option<&str>, description: Option<&str>) -> Granted {
    Granted {
        slot,
        item: item.map(str::to_owned),
        name: name.map(str::to_owned),
        description: description.map(str::to_owned),
    }
}

#[test]
fn the_hotbar_shows_each_complete_grant_in_slot_order() {
    let bar = hotbar(vec![
        grant(Some(8), Some("minecraft:nether_star"), Some("Arrow Storm"), Some("")),
        grant(Some(0), Some("minecraft:bow"), Some("Barrage"), Some("Hold to charge")),
        grant(None, Some("minecraft:stick"), Some("Lost"), None),
        grant(Some(1), None, Some("No item"), None),
        grant(Some(1), Some("minecraft:bone"), Some("Bone Explosion"), None),
    ]);
    assert_eq!(bar.len(), 3);
    assert_eq!((bar[0].slot, bar[0].name.as_str()), (0, "Barrage"));
    assert_eq!(bar[0].item, "minecraft:bow");
    assert_eq!(bar[0].lore, vec!["Hold to charge".to_owned()]);
    assert_eq!((bar[1].slot, bar[1].name.as_str()), (1, "Bone Explosion"));
    assert!(bar[1].lore.is_empty());
    assert_eq!((bar[2].slot, bar[2].name.as_str()), (8, "Arrow Storm"));
    assert!(bar[2].lore.is_empty());
}

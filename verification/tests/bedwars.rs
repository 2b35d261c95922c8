use smash::bedwars::block::{BlockModule, DoorStep, OtherHalf, PropValue};
use smash::bedwars::bow::{BowModule, ClientStatus, HeldStack, Hit};
use smash::bedwars::chat::{
    wait_message, ChatCooldown, ChatModule, Colour, Reply, CHAT_COOLDOWN_TICKS,
};
use smash::bedwars::regeneration::{LastDamaged, RegenerationModule};
use smash::bedwars::{Flight, FlyCommand, Team, Vanished};
use smash::command::BlockPos;
use smash::screen::NamedColor;

#[test]
fn a_team_has_its_name_and_wool_colour() {
    assert_eq!(Team::LightBlue.name(), "Light Blue");
    assert_eq!(Team::Red.name(), "Red");
    assert_eq!(Team::Red.rgb(), [0xA1, 0x27, 0x22]);
    assert_eq!(Team::White.rgb(), [0xE9, 0xEC, 0xEC]);
    assert_eq!(Team::Black.rgb(), [0x14, 0x15, 0x19]);
}

#[test]
fn fly_toggles_permission_and_says_so() {
    let (on, said) = FlyCommand::toggle(Flight { allow: false, is_flying: false });
    assert_eq!(on, Flight { allow: true, is_flying: false });
    assert_eq!(said, "\u{a7}aFlying enabled");
    let (off, said) = FlyCommand::toggle(Flight { allow: true, is_flying: true });
    assert_eq!(off, Flight { allow: false, is_flying: false });
    assert_eq!(said, "\u{a7}cFlying disabled");
}

#[test]
fn fly_twice_gives_back_the_permission() {
    let start = Flight { allow: true, is_flying: true };
    let (once, _) = FlyCommand::toggle(start);
    let (twice, _) = FlyCommand::toggle(once);
    assert_eq!(twice.allow, start.allow);
    assert!(!twice.is_flying);
}

#[test]
fn the_cooldown_is_fifteen_seconds_of_ticks() {
    assert_eq!(CHAT_COOLDOWN_TICKS, 300);
    assert_eq!(ChatCooldown::default().expires, 0);
}

#[test]
fn a_message_is_said_in_team_colours_and_starts_the_cooldown() {
    let mut cooldown = ChatCooldown::default();
    match ChatModule::on_message(&mut cooldown, 1000, "Andrew", Team::Blue, "\u{a7}4hi there") {
        Reply::Say(parts) => {
            assert_eq!(parts.len(), 4);
            assert_eq!(parts[0].text, "<");
            assert!(matches!(parts[0].colour, Some(Colour::Named(NamedColor::DarkGray))));
            assert_eq!(parts[1].text, "Andrew");
            assert!(matches!(parts[1].colour, Some(Colour::Rgb([0x35, 0x39, 0x9D]))));
            assert_eq!(parts[2].text, "> ");
            assert!(matches!(parts[2].colour, Some(Colour::Named(NamedColor::DarkGray))));
            assert_eq!(parts[3].text, "4hi there");
            assert!(parts[3].colour.is_none());
        }
        Reply::Wait(_) => panic!("a first message is said"),
    }
    assert_eq!(cooldown.expires, 1300);
}

#[test]
fn a_second_message_too_soon_is_told_to_wait() {
    let mut cooldown = ChatCooldown { expires: 1300 };
    match ChatModule::on_message(&mut cooldown, 1001, "Andrew", Team::Red, "again") {
        Reply::Wait(line) => {
            assert_eq!(line, "\u{a7}cPlease wait 14.95 seconds before sending another message")
        }
        Reply::Say(_) => panic!("the cooldown has not run out"),
    }
    assert_eq!(cooldown.expires, 1300);
    assert!(matches!(
        ChatModule::on_message(&mut cooldown, 1300, "Andrew", Team::Red, "now"),
        Reply::Say(_)
    ));
    assert_eq!(cooldown.expires, 1600);
}

#[test]
fn the_wait_is_worded_to_the_hundredth_of_a_second() {
    assert_eq!(wait_message(1), "\u{a7}cPlease wait 0.05 seconds before sending another message");
    assert_eq!(wait_message(20), "\u{a7}cPlease wait 1.00 seconds before sending another message");
    assert_eq!(wait_message(300), "\u{a7}cPlease wait 15.00 seconds before sending another message");
    for ticks in [1u64, 7, 19, 20, 33, 299, 300] {
        let secs = ticks as f32 / 20.0;
        assert_eq!(
            wait_message(ticks),
            format!("\u{a7}cPlease wait {secs:.2} seconds before sending another message")
        );
    }
}

#[test]
fn a_closed_door_opens_and_moves_its_other_half() {
    let at = BlockPos { x: 3, y: 64, z: -2 };
    assert_eq!(
        BlockModule::toggle_door(at, Some(PropValue::False), Some(PropValue::Lower)),
        DoorStep::Toggled { open: PropValue::True, other: OtherHalf::At(BlockPos { x: 3, y: 65, z: -2 }) }
    );
    assert_eq!(
        BlockModule::toggle_door(at, Some(PropValue::True), Some(PropValue::Upper)),
        DoorStep::Toggled { open: PropValue::False, other: OtherHalf::At(BlockPos { x: 3, y: 63, z: -2 }) }
    );
}

#[test]
fn a_trapdoor_has_no_other_half() {
    let at = BlockPos { x: 0, y: 0, z: 0 };
    assert_eq!(
        BlockModule::toggle_door(at, Some(PropValue::True), None),
        DoorStep::Toggled { open: PropValue::False, other: OtherHalf::Alone }
    );
}

#[test]
fn a_malformed_door_is_reported() {
    let at = BlockPos { x: 0, y: 0, z: 0 };
    assert_eq!(BlockModule::toggle_door(at, None, None), DoorStep::Untouched);
    assert_eq!(BlockModule::toggle_door(at, Some(PropValue::Upper), None), DoorStep::MalformedOpen);
    assert_eq!(
        BlockModule::toggle_door(at, Some(PropValue::False), Some(PropValue::Other)),
        DoorStep::Toggled { open: PropValue::True, other: OtherHalf::Malformed }
    );
}

#[test]
fn a_block_without_a_collision_shape_is_refused() {
    assert_eq!(BlockModule::placement(true), Ok(()));
    assert_eq!(BlockModule::placement(false), Err("\u{a7}cYou can't place this block"));
}

#[test]
fn a_bow_fires_once_the_cooldown_has_passed() {
    assert!(!BowModule::can_fire(0));
    assert!(!BowModule::can_fire(150));
    assert!(BowModule::can_fire(151));
}

#[test]
fn a_shot_spends_the_first_arrow_in_the_inventory() {
    let stacks = vec![
        HeldStack { slot: 0, arrow: false, count: 1 },
        HeldStack { slot: 4, arrow: true, count: 0 },
        HeldStack { slot: 9, arrow: true, count: 12 },
        HeldStack { slot: 10, arrow: true, count: 1 },
    ];
    assert_eq!(BowModule::take_arrow(&stacks), Some((9, 11)));
    let last = vec![HeldStack { slot: 3, arrow: true, count: 1 }];
    assert_eq!(BowModule::take_arrow(&last), Some((3, 0)));
    assert_eq!(BowModule::take_arrow(&vec![HeldStack { slot: 1, arrow: false, count: 64 }]), None);
}

#[test]
fn an_arrow_at_rest_or_from_the_victim_is_no_hit() {
    assert!(BowModule::hit_counts(1, 2, false));
    assert!(!BowModule::hit_counts(1, 2, true));
    assert!(!BowModule::hit_counts(2, 2, false));
}

#[test]
fn a_respawn_clears_the_arrows_and_a_stats_request_does_not() {
    assert!(BowModule::clears_arrows(ClientStatus::PerformRespawn));
    assert!(!BowModule::clears_arrows(ClientStatus::RequestStats));
}

#[test]
fn the_regeneration_clock_restarts_when_hurt() {
    let mut last = LastDamaged::default();
    assert_eq!(RegenerationModule::tick(&mut last, false, 40), 40);
    assert_eq!(RegenerationModule::tick(&mut last, true, 50), 0);
    assert_eq!(last.tick, 50);
    assert_eq!(RegenerationModule::tick(&mut last, false, 75), 25);
    assert_eq!(last.tick, 50);
}

#[test]
fn a_vanished_player_is_not_listed() {
    assert!(Vanished::new(true).is_vanished());
    assert!(!Vanished::new(true).listed());
    assert!(Vanished::new(false).listed());
}

#[test]
fn a_door_toggled_twice_is_as_it_was() {
    let at = BlockPos { x: 1, y: 70, z: 1 };
    let once = BlockModule::toggle_door(at, Some(PropValue::False), Some(PropValue::Lower));
    let DoorStep::Toggled { open, other } = once else { panic!("a door toggles") };
    assert_eq!(open, PropValue::True);
    let twice = BlockModule::toggle_door(at, Some(open), Some(PropValue::Lower));
    assert_eq!(twice, DoorStep::Toggled { open: PropValue::False, other });
}

#[test]
fn the_halves_of_a_door_point_at_each_other() {
    let lower = BlockPos { x: 4, y: 64, z: 4 };
    let DoorStep::Toggled { other: OtherHalf::At(upper), .. } =
        BlockModule::toggle_door(lower, Some(PropValue::False), Some(PropValue::Lower))
    else {
        panic!("a lower half names the half above it")
    };
    assert_eq!(upper, BlockPos { x: 4, y: 65, z: 4 });
    assert_eq!(
        BlockModule::toggle_door(upper, Some(PropValue::False), Some(PropValue::Upper)),
        DoorStep::Toggled { open: PropValue::True, other: OtherHalf::At(lower) }
    );
}

#[test]
fn a_trapdoor_at_the_edge_of_the_world_still_toggles() {
    let top = BlockPos { x: 0, y: i32::MAX, z: 0 };
    assert_eq!(
        BlockModule::toggle_door(top, Some(PropValue::True), None),
        DoorStep::Toggled { open: PropValue::False, other: OtherHalf::Alone }
    );
    let bottom = BlockPos { x: 0, y: i32::MIN, z: 0 };
    assert_eq!(
        BlockModule::toggle_door(bottom, Some(PropValue::False), Some(PropValue::Lower)),
        DoorStep::Toggled { open: PropValue::True, other: OtherHalf::At(BlockPos { x: 0, y: i32::MIN + 1, z: 0 }) }
    );
}

#[test]
fn a_release_inside_the_cooldown_does_nothing() {
    let stacks = vec![HeldStack { slot: 9, arrow: true, count: 5 }];
    let release = BowModule::on_release(150, &stacks);
    assert!(!release.reset_fire_time);
    assert_eq!(release.spent, None);
    assert!(!release.spawn);
}

#[test]
fn a_release_past_the_cooldown_spends_one_arrow_and_fires_it() {
    let stacks = vec![
        HeldStack { slot: 2, arrow: false, count: 1 },
        HeldStack { slot: 9, arrow: true, count: 1 },
        HeldStack { slot: 10, arrow: true, count: 7 },
    ];
    let release = BowModule::on_release(400, &stacks);
    assert!(release.reset_fire_time);
    assert_eq!(release.spent, Some((9, 0)));
    assert!(release.spawn);
}

#[test]
fn a_release_with_no_arrow_still_resets_the_clock_and_fires_nothing() {
    let stacks = vec![HeldStack { slot: 0, arrow: false, count: 64 }];
    let release = BowModule::on_release(1000, &stacks);
    assert!(release.reset_fire_time);
    assert_eq!(release.spent, None);
    assert!(!release.spawn);
}

#[test]
fn a_counted_hit_sticks_an_arrow_removes_it_and_attacks() {
    assert_eq!(
        BowModule::on_hit(7, 8, false, 2),
        Some(Hit { arrows_in_victim: 3, remove_projectile: true, attacker: 7, target: 8 })
    );
    assert_eq!(BowModule::on_hit(7, 8, true, 2), None);
    assert_eq!(BowModule::on_hit(8, 8, false, 2), None);
}

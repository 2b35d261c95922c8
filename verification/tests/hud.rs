use smash::hud::{death_title, ink, phase_title, winner_of, DeathCause};
use smash::lives::{band_index, on_death, remaining, tiers, Bands, Lives, MAX_LIVES};
use smash::screen::{BarColour, NamedColor, Phase, Timing};

fn standings(rows: &[(&str, u8)]) -> Vec<(String, u8)> {
    rows.iter().map(|(n, l)| (n.to_string(), *l)).collect()
}

#[test]
fn the_last_life_is_announced_in_red() {
    let title = death_title(1, Some("Steve"), DeathCause::Damage);
    assert_eq!(title.title.plain(), "1 life left!");
    assert_eq!(title.title.color, Some(NamedColor::Red));
    assert!(!title.title.bold);
    let under = title.subtitle.expect("a death title says who did it");
    assert_eq!(under.plain(), "Smashed by Steve");
    assert_eq!(under.color, Some(NamedColor::Gray));
    assert_eq!(title.timing, Timing::Standard);
}

#[test]
fn losing_the_last_life_is_game_over() {
    let title = death_title(0, None, DeathCause::Void);
    assert_eq!(title.title.plain(), "GAME OVER");
    assert_eq!(title.title.color, Some(NamedColor::Red));
    assert!(title.title.bold);
    assert_eq!(title.subtitle.unwrap().plain(), "You fell out of the world");
}

#[test]
fn several_lives_left_are_counted_in_gold() {
    let title = death_title(3, None, DeathCause::Damage);
    assert_eq!(title.title.plain(), "3 lives left!");
    assert_eq!(title.title.color, Some(NamedColor::Gold));
    assert_eq!(title.subtitle.unwrap().plain(), "Nobody to blame but yourself");
}

#[test]
fn a_match_starting_says_go() {
    let title = phase_title(Phase::Playing, None).expect("playing puts up a title");
    assert_eq!(title.title.plain(), "GO!");
    assert_eq!(title.title.color, Some(NamedColor::Green));
    assert!(title.title.bold);
    assert_eq!(title.subtitle.unwrap().plain(), "Smash them off the map");
    assert_eq!(title.timing, Timing::OneSecond);
}

#[test]
fn a_match_ending_names_its_winner() {
    let won = phase_title(Phase::Ended, Some("Andrew")).unwrap();
    assert_eq!(won.title.plain(), "Andrew wins!");
    assert_eq!(won.title.color, Some(NamedColor::Gold));
    assert_eq!(won.subtitle.unwrap().plain(), "Last mob standing");
    let nobody = phase_title(Phase::Ended, None).unwrap();
    assert_eq!(nobody.title.plain(), "Game over");
    assert_eq!(nobody.title.color, Some(NamedColor::Red));
    assert_eq!(nobody.subtitle.unwrap().plain(), "Nobody was left standing");
    assert_eq!(nobody.timing, Timing::Standard);
}

#[test]
fn the_lobby_phases_put_up_no_title() {
    assert!(phase_title(Phase::Waiting, None).is_none());
    assert!(phase_title(Phase::Countdown, None).is_none());
    assert!(phase_title(Phase::Preparing, Some("Andrew")).is_none());
}

#[test]
fn a_bar_colour_has_an_ink() {
    assert_eq!(ink(BarColour::Green), NamedColor::Green);
    assert_eq!(ink(BarColour::Yellow), NamedColor::Yellow);
    assert_eq!(ink(BarColour::Red), NamedColor::Red);
    assert_eq!(ink(BarColour::Blue), NamedColor::Aqua);
}

#[test]
fn the_last_player_standing_wins() {
    let table = standings(&[("Andrew", 0), ("Steve", 2), ("Alex", 0)]);
    assert_eq!(winner_of(&table), Some("Steve".to_owned()));
}

#[test]
fn at_a_timeout_the_most_lives_wins() {
    let table = standings(&[("Andrew", 1), ("Steve", 3), ("Alex", 2)]);
    assert_eq!(winner_of(&table), Some("Steve".to_owned()));
}

#[test]
fn two_level_at_the_top_is_no_winner() {
    let table = standings(&[("Andrew", 3), ("Steve", 3), ("Alex", 1)]);
    assert_eq!(winner_of(&table), None);
}

#[test]
fn nobody_with_lives_is_no_winner() {
    assert_eq!(winner_of(&standings(&[("Andrew", 0), ("Steve", 0)])), None);
    assert_eq!(winner_of(&Vec::new()), None);
}

#[test]
fn an_eliminated_player_has_no_lives_left() {
    assert_eq!(remaining(true, Lives(3)), 0);
    assert_eq!(remaining(false, Lives(3)), 3);
    assert_eq!(Lives::default().0, MAX_LIVES);
}

#[test]
fn the_tier_table_runs_from_out_to_healthy() {
    let table = tiers();
    assert_eq!(table.len(), 5);
    assert_eq!(table[0], ("Out", 0, NamedColor::Gray));
    assert_eq!(table[1], ("LastLife", 1, NamedColor::Red));
    assert_eq!(table[2], ("Low", 2, NamedColor::Gold));
    assert_eq!(table[3], ("Wounded", 3, NamedColor::Yellow));
    assert_eq!(table[4], ("Healthy", MAX_LIVES, NamedColor::Green));
}

#[test]
fn a_count_falls_in_the_narrowest_band_that_holds_it() {
    let bounds = vec![0, 1, 2, 3, 4];
    assert_eq!(band_index(&bounds, 0), Some(0));
    assert_eq!(band_index(&bounds, 1), Some(1));
    assert_eq!(band_index(&bounds, 4), Some(4));
    assert_eq!(band_index(&bounds, 9), Some(4));
    assert_eq!(band_index(&vec![2, 5], 3), Some(1));
    assert_eq!(band_index(&Vec::new(), 1), None);
}

#[test]
fn the_bands_are_read_in_any_order() {
    let found = vec![
        (4, 104, NamedColor::Green),
        (0, 100, NamedColor::Gray),
        (2, 102, NamedColor::Gold),
        (1, 101, NamedColor::Red),
        (3, 103, NamedColor::Yellow),
    ];
    let bands = Bands::of(&found);
    assert_eq!(bands.tier(0), Some(100));
    assert_eq!(bands.tier(1), Some(101));
    assert_eq!(bands.tint(1), Some(NamedColor::Red));
    assert_eq!(bands.tint(3), Some(NamedColor::Yellow));
    assert_eq!(bands.tint(7), Some(NamedColor::Green));
    let empty = Bands::of(&Vec::new());
    assert_eq!(empty.tint(2), None);
}

#[test]
fn a_death_costs_a_life_and_says_who_did_it() {
    let death = on_death(3, false, 4, "Alex", Some("Steve"), DeathCause::Void).expect("a death");
    assert_eq!(death.lives, 2);
    assert!(!death.eliminated);
    assert_eq!(death.placement, None);
    assert_eq!(death.announcement, "Alex was smashed by Steve!");
    assert_eq!(death.title.title.plain(), "2 lives left!");
    assert_eq!(death.title.subtitle.unwrap().plain(), "Smashed by Steve");
}

#[test]
fn the_last_death_eliminates() {
    let death = on_death(1, false, 3, "Alex", None, DeathCause::Void).unwrap();
    assert_eq!(death.lives, 0);
    assert!(death.eliminated);
    assert_eq!(death.placement, Some(3));
    assert_eq!(death.announcement, "Alex fell out of bounds!");
    assert_eq!(death.title.title.plain(), "GAME OVER");
    let starved = on_death(2, false, 3, "Alex", None, DeathCause::Damage).unwrap();
    assert_eq!(starved.announcement, "Alex had nobody to blame but themselves!");
}

#[test]
fn a_player_already_out_is_not_counted_again() {
    assert!(on_death(0, true, 2, "Alex", Some("Steve"), DeathCause::Void).is_none());
    let floor = on_death(0, false, 2, "Alex", None, DeathCause::Void).unwrap();
    assert_eq!(floor.lives, 0);
    assert!(floor.eliminated);
}

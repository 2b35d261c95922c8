use smash::command::BlockPos;
use smash::screen::NamedColor;
use smash::selector::{
    is_taken, manifest, mobs, nameplate, nameplates, place_ring, plinths, podium_at,
    taken_message, wool, Plinth, PodiumFacts, FREE_COLOR, PLINTH_Y, TAKEN_COLOR,
};

fn at(x: i32, y: i32, z: i32) -> BlockPos {
    BlockPos { x, y, z }
}

#[test]
fn the_mob_stands_on_top_of_its_wool() {
    let plinth = Plinth { base: at(8, PLINTH_Y, -3) };
    assert_eq!(plinth.stand(), at(8, 66, -3));
}

#[test]
fn a_click_on_the_wool_or_the_mob_is_a_click_on_the_podium() {
    let plinth = Plinth { base: at(8, 65, -3) };
    assert!(plinth.covers(at(8, 65, -3)));
    assert!(plinth.covers(at(8, 66, -3)));
    assert!(!plinth.covers(at(8, 67, -3)));
    assert!(!plinth.covers(at(8, 64, -3)));
    assert!(!plinth.covers(at(9, 65, -3)));
}

#[test]
fn taken_is_red_and_free_is_green() {
    assert_eq!(wool(true), "minecraft:red_wool");
    assert_eq!(wool(false), "minecraft:lime_wool");
    assert_eq!(FREE_COLOR, NamedColor::Green);
    assert_eq!(TAKEN_COLOR, NamedColor::Red);
}

#[test]
fn a_nameplate_is_the_kit_name_in_the_claim_colour() {
    let taken = nameplate("Iron Golem", true);
    assert_eq!(taken.plain(), "Iron Golem");
    assert_eq!(taken.color, Some(NamedColor::Red));
    assert!(!taken.bold);
    assert_eq!(nameplate("Wolf", false).color, Some(NamedColor::Green));
}

#[test]
fn a_kit_is_taken_when_somebody_claims_it() {
    let claims = vec![7, 9];
    assert!(is_taken(&claims, 9));
    assert!(!is_taken(&claims, 8));
    assert!(!is_taken(&Vec::new(), 8));
}

#[test]
fn each_podium_gets_the_wool_its_claim_calls_for() {
    let podiums = vec![
        (1, Plinth { base: at(8, 65, 0) }, 100),
        (2, Plinth { base: at(-8, 65, 0) }, 200),
    ];
    let wools = plinths(&podiums, &vec![200]);
    assert_eq!(wools, vec![(at(8, 65, 0), "minecraft:lime_wool"), (at(-8, 65, 0), "minecraft:red_wool")]);
}

#[test]
fn a_click_finds_its_podium_and_kit() {
    let podiums = vec![
        (1, Plinth { base: at(8, 65, 0) }, 100),
        (2, Plinth { base: at(-8, 65, 0) }, 200),
    ];
    assert_eq!(podium_at(&podiums, at(-8, 66, 0)), Some((2, 200)));
    assert_eq!(podium_at(&podiums, at(8, 65, 0)), Some((1, 100)));
    assert_eq!(podium_at(&podiums, at(0, 65, 0)), None);
}

#[test]
fn a_ring_is_placed_around_its_origin() {
    let ring = vec![at(8, 65, 0), at(0, 65, 8), at(-8, 65, 0)];
    let placed = place_ring(&ring, at(100, 0, -50)).expect("three distinct podiums");
    assert_eq!(placed, vec![at(108, 65, -50), at(100, 65, -42), at(92, 65, -50)]);
}

#[test]
fn two_podiums_in_one_block_are_refused() {
    let ring = vec![at(8, 65, 0), at(0, 65, 8), at(8, 65, 0), at(0, 65, 8)];
    assert_eq!(place_ring(&ring, at(1, 0, 1)), Err(at(9, 65, 1)));
    assert_eq!(place_ring(&Vec::new(), at(1, 0, 1)), Ok(Vec::new()));
}

#[test]
fn a_refusal_names_the_kit_and_its_holder() {
    assert_eq!(
        taken_message(Some("Iron Golem"), "Steve"),
        "Iron Golem is already taken by Steve."
    );
    assert_eq!(taken_message(None, "Steve"), "That kit is already taken by Steve.");
}

fn facts() -> Vec<PodiumFacts> {
    vec![
        PodiumFacts {
            podium: 1,
            plinth: Plinth { base: at(8, 65, 0) },
            kit: 100,
            name: Some("Iron Golem".to_owned()),
            mob: Some("minecraft:iron_golem".to_owned()),
            select_sound: Some("entity.iron_golem.step".to_owned()),
        },
        PodiumFacts {
            podium: 2,
            plinth: Plinth { base: at(-8, 65, 0) },
            kit: 200,
            name: None,
            mob: None,
            select_sound: None,
        },
        PodiumFacts {
            podium: 3,
            plinth: Plinth { base: at(0, 65, 8) },
            kit: 300,
            name: Some("Wolf".to_owned()),
            mob: None,
            select_sound: None,
        },
    ]
}

#[test]
fn the_manifest_offers_every_named_kit() {
    let claims = vec![(300, "Steve".to_owned()), (300, "Alex".to_owned())];
    let offers = manifest(&facts(), &claims);
    assert_eq!(offers.len(), 2);
    let golem = &offers[0];
    assert_eq!(golem.name, "Iron Golem");
    assert_eq!(golem.click, at(8, 66, 0));
    assert_eq!(golem.base, at(8, 65, 0));
    assert_eq!(golem.wool, "minecraft:lime_wool");
    assert_eq!(golem.mob, "minecraft:iron_golem");
    assert_eq!(golem.label, "Iron Golem");
    assert_eq!(golem.select_sound.as_deref(), Some("entity.iron_golem.step"));
    assert_eq!(golem.held_by, None);
    let wolf = &offers[1];
    assert_eq!(wolf.wool, "minecraft:red_wool");
    assert_eq!(wolf.mob, "minecraft:armor_stand");
    assert_eq!(wolf.held_by.as_deref(), Some("Steve"));
}

#[test]
fn each_named_mob_wears_its_kit_name_in_the_claim_colour() {
    let plates = nameplates(&facts(), &vec![(100, "Steve".to_owned())]);
    assert_eq!(plates.len(), 2);
    assert_eq!(plates[0].0, 1);
    assert_eq!(plates[0].1.plain(), "Iron Golem");
    assert_eq!(plates[0].1.color, Some(NamedColor::Red));
    assert_eq!(plates[1].0, 3);
    assert_eq!(plates[1].1.color, Some(NamedColor::Green));
}

#[test]
fn every_podium_has_a_mob_standing_on_it() {
    let stood = mobs(&facts());
    assert_eq!(
        stood,
        vec![
            (1, at(8, 66, 0), "minecraft:iron_golem".to_owned()),
            (2, at(-8, 66, 0), "minecraft:armor_stand".to_owned()),
            (3, at(0, 66, 8), "minecraft:armor_stand".to_owned()),
        ]
    );
}

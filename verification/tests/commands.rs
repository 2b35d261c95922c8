use smash::ability::manifest;
use smash::kit::in_slot_order;
use smash::command::{
    escape, json, podium, resolve, squash, AbilitiesCommand, BlockPos, CrystalCommand, Declared,
    KitCommand, KitEntry, KitsCommand, Observable, Offer, PodiumsCommand, ULTIMATE_SECONDS,
};

fn registry(names: &[Option<&str>]) -> Vec<Option<String>> {
    names.iter().map(|n| n.map(str::to_owned)).collect()
}

fn blast() -> Declared {
    Declared {
        kit: "Creeper".to_owned(),
        name: "Sulphur Bomb".to_owned(),
        slot: 0,
        item: "iron_axe".to_owned(),
        description: "Throw a bomb".to_owned(),
        cooldown: "3".to_owned(),
        charge_time: None,
        energy_cost: Some("0.5".to_owned()),
        requires_ground: false,
        refunds_on_hit: true,
        ultimate: false,
        proves: vec![Observable::HurtsTarget, Observable::LaunchesTarget],
        sound: "entity.creeper.primed".to_owned(),
    }
}

fn offer(held_by: Option<&str>) -> Offer {
    Offer {
        name: "Iron Golem".to_owned(),
        click: BlockPos { x: 8, y: 66, z: -3 },
        base: BlockPos { x: 8, y: 65, z: -3 },
        wool: "minecraft:red_wool".to_owned(),
        mob: "minecraft:iron_golem".to_owned(),
        label: "Iron Golem".to_owned(),
        select_sound: Some("entity.iron_golem.step".to_owned()),
        held_by: held_by.map(str::to_owned),
    }
}

#[test]
fn squashing_drops_case_and_punctuation() {
    assert_eq!(squash("Iron Golem"), "irongolem");
    assert_eq!(squash("IRON GOLEM"), "irongolem");
    assert_eq!(squash("irongolem"), "irongolem");
    assert_eq!(squash("Sky-Squid 2!"), "skysquid2");
    assert_eq!(squash("\u{e9}t\u{e9}"), "t");
    assert_eq!(squash(&squash("Wither Skeleton")), squash("Wither Skeleton"));
}

#[test]
fn escaping_touches_only_backslashes_and_quotes() {
    assert_eq!(escape(r#"say "hi" \ bye"#), r#"say \"hi\" \\ bye"#);
    assert_eq!(escape("plain text"), "plain text");
    assert_eq!(escape(""), "");
}

#[test]
fn an_observable_has_its_wire_name() {
    assert_eq!(Observable::HurtsTarget.as_str(), "hurts_target");
    assert_eq!(Observable::ShieldsCaster.as_str(), "shields_caster");
    assert_eq!(Observable::Sustains.as_str(), "sustains");
}

#[test]
fn an_ability_is_one_json_object() {
    assert_eq!(
        json(&blast()),
        r#"{"kit":"Creeper","name":"Sulphur Bomb","slot":0,"item":"iron_axe","cooldown":3,"charge_time":null,"energy_cost":0.5,"requires_ground":false,"refunds_on_hit":true,"ultimate":false,"sound":"entity.creeper.primed","proves":["hurts_target","launches_target"]}"#
    );
}

#[test]
fn an_ability_with_a_charge_and_no_proofs() {
    let mut entry = blast();
    entry.name = "Say \"boom\"".to_owned();
    entry.charge_time = Some("1.5".to_owned());
    entry.energy_cost = None;
    entry.proves = Vec::new();
    entry.ultimate = true;
    assert_eq!(
        json(&entry),
        r#"{"kit":"Creeper","name":"Say \"boom\"","slot":0,"item":"iron_axe","cooldown":3,"charge_time":1.5,"energy_cost":null,"requires_ground":false,"refunds_on_hit":true,"ultimate":true,"sound":"entity.creeper.primed","proves":[]}"#
    );
}

#[test]
fn the_abilities_manifest_ends_with_its_count() {
    let lines = AbilitiesCommand::reply(&vec![blast(), blast()]);
    assert_eq!(lines.len(), 3);
    assert!(lines[0].starts_with("smash-ability {\"kit\":\"Creeper\""));
    assert_eq!(lines[2], "smash-abilities-end 2");
    assert_eq!(AbilitiesCommand::reply(&Vec::new()), vec!["smash-abilities-end 0".to_owned()]);
}

#[test]
fn a_podium_is_one_json_object() {
    assert_eq!(
        podium(&offer(Some("Andrew"))),
        r#"{"kit":"Iron Golem","x":8,"y":66,"z":-3,"base_y":65,"wool":"minecraft:red_wool","mob":"minecraft:iron_golem","label":"Iron Golem","select_sound":"entity.iron_golem.step","held_by":"Andrew"}"#
    );
    let mut free = offer(None);
    free.select_sound = None;
    assert!(podium(&free).ends_with(r#""select_sound":null,"held_by":null}"#));
}

#[test]
fn the_podium_manifest_ends_with_its_count() {
    let lines = PodiumsCommand::reply(&vec![offer(None)]);
    assert_eq!(lines.len(), 2);
    assert!(lines[0].starts_with("smash-podium {\"kit\":\"Iron Golem\""));
    assert_eq!(lines[1], "smash-podiums-end 1");
}

#[test]
fn a_request_resolves_to_the_registered_name() {
    let kits = registry(&[Some("Skeleton"), None, Some("Iron Golem"), Some("Sky Squid")]);
    assert_eq!(resolve(&kits, "iron golem"), Some("Iron Golem".to_owned()));
    assert_eq!(resolve(&kits, "IRONGOLEM"), Some("Iron Golem".to_owned()));
    assert_eq!(resolve(&kits, "Creeper"), None);
    assert_eq!(resolve(&kits, ""), None);
}

#[test]
fn the_first_registered_match_wins() {
    let kits = registry(&[Some("Sky Squid"), Some("skysquid")]);
    assert_eq!(resolve(&kits, "SKY squid"), Some("Sky Squid".to_owned()));
}

#[test]
fn a_kit_request_is_its_words_rejoined() {
    let request = KitCommand { name: vec!["Iron".to_owned(), "Golem".to_owned()] };
    assert_eq!(request.requested(), "Iron Golem");
    let kits = registry(&[Some("Iron Golem")]);
    assert_eq!(request.pick(&kits), Some("Iron Golem".to_owned()));
    let nothing = KitCommand { name: vec!["Wolf".to_owned()] };
    assert_eq!(nothing.pick(&kits), None);
}

#[test]
fn a_refused_kit_request_is_told_why() {
    assert_eq!(KitCommand::unknown(), "\u{a7}cNo such kit. Try /kits.");
    assert_eq!(
        KitCommand::refused("Iron Golem is already taken by Steve."),
        "\u{a7}cIron Golem is already taken by Steve."
    );
}

#[test]
fn the_kits_listing_names_every_kit_with_its_blurb() {
    let entries = vec![
        KitEntry { name: Some("Skeleton".to_owned()), blurb: Some("Shoots arrows".to_owned()) },
        KitEntry { name: None, blurb: Some("never shown".to_owned()) },
        KitEntry { name: Some("Wolf".to_owned()), blurb: None },
    ];
    assert_eq!(
        KitsCommand::listing(&entries),
        "\u{a7}6Kits:\n\u{a7}eSkeleton\u{a7}7 \u{2014} Shoots arrows\n\u{a7}eWolf\u{a7}7 \u{2014} "
    );
    assert_eq!(KitsCommand::listing(&Vec::new()), "\u{a7}6Kits:");
}

#[test]
fn the_crystal_grants_for_twenty_seconds() {
    assert_eq!(ULTIMATE_SECONDS, 20);
    assert_eq!(
        CrystalCommand::reply(Some("Arrow Storm"), true),
        "\u{a7}bSmash Crystal: Arrow Storm for 20 seconds."
    );
    assert_eq!(CrystalCommand::reply(Some("Arrow Storm"), false), "\u{a7}cYou are already holding one.");
    assert_eq!(CrystalCommand::reply(None, true), "\u{a7}cPick a kit first. Try /kits.");
}

fn ability(kit: &str, name: &str, slot: u8) -> Declared {
    Declared { kit: kit.to_owned(), name: name.to_owned(), slot, ..blast() }
}

fn names(list: &[Declared]) -> Vec<String> {
    list.iter().map(|d| d.name.clone()).collect()
}

#[test]
fn a_kit_lists_its_abilities_in_slot_order() {
    let granted = vec![
        ability("Skeleton", "Arrow Storm", 8),
        ability("Skeleton", "Barrage", 1),
        ability("Skeleton", "Bone Explosion", 0),
        ability("Skeleton", "Roped Arrow", 1),
    ];
    assert_eq!(
        names(&in_slot_order(granted)),
        vec!["Bone Explosion", "Barrage", "Roped Arrow", "Arrow Storm"]
    );
    assert!(in_slot_order(Vec::<Declared>::new()).is_empty());
}

#[test]
fn the_manifest_goes_kit_by_kit_in_registration_order() {
    let kits = vec![
        vec![ability("Wolf", "Ravage", 1), ability("Wolf", "Wolf Pack", 0)],
        Vec::new(),
        vec![ability("Cow", "Stampede", 0)],
    ];
    let listed = manifest(kits);
    assert_eq!(names(&listed), vec!["Wolf Pack", "Ravage", "Stampede"]);
    assert_eq!(listed[2].kit, "Cow");
}

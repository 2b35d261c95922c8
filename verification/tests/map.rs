use smash::map::{borrow_static, parse, Brush, Cursor, ParseError};

const ARENA: &str = "# A test arena\n\
name Sky Fortress\n\
author someone\n\
\n\
kill_y 10   # the void\n\
spawn 0 66 0\n\
spawn 5.5 67 -3\n\
crystal 4 66 4\n\
box -10 60 -10 10 65 10 minecraft:stone\n\
cylinder 0 60 0 5 3 minecraft:grass_block\n\
sphere 0 50 0 4 minecraft:dirt\n\
cone 0 59 0 6 8 minecraft:stone\n";

fn fails(source: &str) -> ParseError {
    match parse(source) {
        Ok(_) => panic!("expected {source:?} to be refused"),
        Err(error) => error,
    }
}

fn words(line: &str) -> Vec<Vec<char>> {
    line.split_whitespace().map(|w| w.chars().collect()).collect()
}

#[test]
fn a_whole_arena_parses() {
    let map = parse(ARENA).expect("the arena parses");
    assert_eq!(map.name, "Sky Fortress");
    assert_eq!(map.author, "someone");
    assert_eq!(map.kill_y, "10");
    assert!(map.bounds.is_none());
    assert_eq!(map.spawns.len(), 2);
    assert_eq!(map.spawns[1].x, "5.5");
    assert_eq!(map.spawns[1].y, "67");
    assert_eq!(map.spawns[1].z, "-3");
    assert_eq!(map.crystals.len(), 1);
    assert_eq!(map.crystals[0].x, "4");
    assert_eq!(map.brushes.len(), 4);
    match &map.brushes[0] {
        Brush::Box { min, max, block } => {
            assert_eq!(*min, [-10, 60, -10]);
            assert_eq!(*max, [10, 65, 10]);
            assert_eq!(block, "minecraft:stone");
        }
        _ => panic!("the first brush is the box"),
    }
    match &map.brushes[3] {
        Brush::Cone { centre, radius, depth, block } => {
            assert_eq!(*centre, [0, 59, 0]);
            assert_eq!((*radius, *depth), (6, 8));
            assert_eq!(block, "minecraft:stone");
        }
        _ => panic!("the last brush is the cone"),
    }
}

#[test]
fn the_hub_declares_its_bounds() {
    let map = parse("name Hub\nkill_y 0\nbounds -20 60 -20.5 20 80 20\nspawn 0 65 0\n")
        .expect("the hub parses");
    let (min, max) = map.bounds.expect("bounds were declared");
    assert_eq!((min.x.as_str(), min.y.as_str(), min.z.as_str()), ("-20", "60", "-20.5"));
    assert_eq!((max.x.as_str(), max.y.as_str(), max.z.as_str()), ("20", "80", "20"));
    assert_eq!(map.author, "");
}

#[test]
fn a_name_runs_to_the_end_of_the_line() {
    let map = parse("name   The  Long Name  # not this\nkill_y 1\nspawn 0 2 0\n").unwrap();
    assert_eq!(map.name, "The  Long Name");
}

#[test]
fn an_unknown_directive_is_refused_on_its_line() {
    let error = fails("name X\nkill_y 1\nspawn 0 2 0\nbogus 1 2\n");
    assert_eq!(error.line, 4);
    assert_eq!(error.reason, "unknown directive \"bogus\"");
    assert_eq!(error.message(), "line 4: unknown directive \"bogus\"");
}

#[test]
fn a_malformed_whole_number_is_refused() {
    let error = fails("name X\nbox 0 0 x 1 1 1 minecraft:stone\n");
    assert_eq!(error.line, 2);
    assert_eq!(error.reason, "a box corner is not a whole number: \"x\"");
}

#[test]
fn a_malformed_decimal_is_refused() {
    let error = fails("name X\nkill_y ten\n");
    assert_eq!(error.line, 2);
    assert_eq!(error.reason, "kill_y is not a number: \"ten\"");
}

#[test]
fn a_block_without_its_namespace_is_refused() {
    let error = fails("name X\nsphere 0 0 0 2 stone\n");
    assert_eq!(error.line, 2);
    assert_eq!(error.reason, "block \"stone\" is missing its `minecraft:` prefix");
}

#[test]
fn a_missing_field_is_named() {
    let error = fails("name X\nspawn 0 66\n");
    assert_eq!(error.line, 2);
    assert_eq!(error.reason, "expected a z");
    let error = fails("name\n");
    assert_eq!(error.line, 1);
    assert_eq!(error.reason, "expected name");
    let error = fails("name X\ncylinder 0 0 0 3\n");
    assert_eq!(error.reason, "expected a cylinder height");
}

#[test]
fn a_trailing_word_is_refused() {
    let error = fails("name X\nspawn 0 66 0 9\n");
    assert_eq!(error.line, 2);
    assert_eq!(error.reason, "unexpected trailing \"9\"");
}

#[test]
fn a_file_without_a_name_spawn_or_kill_plane_is_refused_as_a_whole() {
    let error = fails("kill_y 1\nspawn 0 2 0\n");
    assert_eq!((error.line, error.reason.as_str()), (0, "no `name`"));
    let error = fails("name X\nkill_y 1\n");
    assert_eq!(
        (error.line, error.reason.as_str()),
        (0, "no `spawn` points, so nobody could stand on it")
    );
    let error = fails("name X\nspawn 0 2 0\n");
    assert_eq!(
        (error.line, error.reason.as_str()),
        (0, "no `kill_y`, so the map would have no death plane")
    );
}

#[test]
fn comments_and_blank_lines_are_skipped() {
    let map = parse("\n   \n# only a comment\nname X # named\n\t\nkill_y -5\nspawn 1 2 3 # here\n")
        .unwrap();
    assert_eq!(map.name, "X");
    assert_eq!(map.kill_y, "-5");
    assert_eq!(map.spawns.len(), 1);
}

#[test]
fn the_cursor_reads_fields_in_order() {
    let mut cursor = Cursor { words: words("3 -4 7 minecraft:dirt"), next: 0, line: 9 };
    assert_eq!(cursor.triple("a centre").unwrap(), [3, -4, 7]);
    assert_eq!(cursor.block().unwrap(), "minecraft:dirt");
    assert!(cursor.end().is_ok());
    let missing = cursor.integer("a radius").unwrap_err();
    assert_eq!((missing.line, missing.reason.as_str()), (9, "expected a radius"));
}

#[test]
fn the_cursor_refuses_what_is_not_there() {
    let cursor = Cursor { words: words(""), next: 0, line: 2 };
    assert_eq!(cursor.missing("a block").reason, "expected a block");
    let mut cursor = Cursor { words: words("1.5 2147483648"), next: 0, line: 3 };
    assert_eq!(cursor.float("an x").unwrap(), "1.5");
    let error = cursor.integer("a radius").unwrap_err();
    assert_eq!(error.reason, "a radius is not a whole number: \"2147483648\"");
    let mut cursor = Cursor { words: words("left over"), next: 0, line: 4 };
    assert_eq!(cursor.end().unwrap_err().reason, "unexpected trailing \"left\"");
}

#[test]
fn a_slice_of_the_source_is_its_own_string() {
    let source: Vec<char> = "name Sky Fortress".chars().collect();
    assert_eq!(borrow_static(&source, 5, 17), "Sky Fortress");
    assert_eq!(borrow_static(&source, 4, 4), "");
}

#[test]
fn a_box_covers_every_block_between_its_corners() {
    let brush = Brush::Box { min: [0, 0, 0], max: [1, 2, 3], block: "minecraft:stone".to_owned() };
    let blocks = brush.each_block();
    assert_eq!(blocks.len(), 24);
    assert_eq!(blocks[0], [0, 0, 0]);
    assert_eq!(blocks[1], [0, 0, 1]);
    assert_eq!(blocks[23], [1, 2, 3]);
}

#[test]
fn a_box_with_its_corners_swapped_is_the_same_box() {
    let brush = Brush::Box { min: [1, 5, 0], max: [0, 5, 0], block: "minecraft:stone".to_owned() };
    assert_eq!(brush.each_block(), vec![[0, 5, 0], [1, 5, 0]]);
}

#[test]
fn a_sphere_is_the_blocks_within_its_radius() {
    let unit = Brush::Sphere { centre: [10, 20, 30], radius: 1, block: "minecraft:dirt".to_owned() };
    let blocks = unit.each_block();
    assert_eq!(blocks.len(), 7);
    assert!(blocks.contains(&[10, 20, 30]));
    assert!(blocks.contains(&[11, 20, 30]));
    assert!(!blocks.contains(&[11, 21, 30]));
    let two = Brush::Sphere { centre: [0, 0, 0], radius: 2, block: "minecraft:dirt".to_owned() };
    assert_eq!(two.each_block().len(), 33);
}

#[test]
fn a_cylinder_stacks_discs_upwards() {
    let brush = Brush::Cylinder {
        centre: [0, 60, 0],
        radius: 1,
        height: 2,
        block: "minecraft:grass_block".to_owned(),
    };
    let blocks = brush.each_block();
    assert_eq!(blocks.len(), 10);
    assert!(blocks.contains(&[0, 61, 0]));
    assert!(!blocks.contains(&[0, 62, 0]));
    assert!(!blocks.contains(&[0, 59, 0]));
    let flat = Brush::Cylinder { centre: [0, 0, 0], radius: 3, height: 0, block: "minecraft:air".to_owned() };
    assert!(flat.each_block().is_empty());
}

#[test]
fn a_cone_tapers_downwards() {
    let brush = Brush::Cone { centre: [0, 59, 0], radius: 2, depth: 2, block: "minecraft:stone".to_owned() };
    let blocks = brush.each_block();
    assert_eq!(blocks.len(), 14);
    assert_eq!(blocks[0], [-2, 59, 0]);
    assert_eq!(blocks.iter().filter(|b| b[1] == 59).count(), 13);
    assert_eq!(blocks.iter().filter(|b| b[1] == 58).collect::<Vec<_>>(), vec![&[0, 58, 0]]);
    let deep = Brush::Cone { centre: [0, 0, 0], radius: 3, depth: 3, block: "minecraft:stone".to_owned() };
    let blocks = deep.each_block();
    assert_eq!(blocks.len(), 35);
    assert_eq!(blocks.iter().filter(|b| b[1] == -1).count(), 5);
    assert_eq!(blocks.iter().filter(|b| b[1] == -2).collect::<Vec<_>>(), vec![&[0, -2, 0]]);
    let flat = Brush::Cone { centre: [5, 5, 5], radius: 1, depth: 1, block: "minecraft:stone".to_owned() };
    assert_eq!(flat.each_block().len(), 5);
}

#[test]
fn no_block_is_placed_twice() {
    let brush = Brush::Sphere { centre: [0, 0, 0], radius: 3, block: "minecraft:dirt".to_owned() };
    let mut blocks = brush.each_block();
    let before = blocks.len();
    blocks.sort();
    blocks.dedup();
    assert_eq!(blocks.len(), before);
}

#[test]
fn extra_crystals_comments_and_blank_lines_change_nothing_else() {
    let base = parse(ARENA).unwrap();
    let longer = "crystal 1 2 3\n# a note\n\n".to_owned()
        + &ARENA.replace("spawn 0 66 0\n", "spawn 0 66 0\n   \ncrystal -7 70 7.5 # another\n")
        + "crystal 9 9 9\ncrystal 0 0 0\n";
    let map = parse(&longer).expect("the longer file still reads");
    let crystals: Vec<(String, String, String)> =
        map.crystals.iter().map(|p| (p.x.clone(), p.y.clone(), p.z.clone())).collect();
    let expect = |x: &str, y: &str, z: &str| (x.to_owned(), y.to_owned(), z.to_owned());
    assert_eq!(
        crystals,
        vec![
            expect("1", "2", "3"),
            expect("-7", "70", "7.5"),
            expect("4", "66", "4"),
            expect("9", "9", "9"),
            expect("0", "0", "0"),
        ]
    );
    assert_eq!(map.name, base.name);
    assert_eq!(map.author, base.author);
    assert_eq!(map.kill_y, base.kill_y);
    assert_eq!(map.spawns.len(), base.spawns.len());
    assert_eq!(map.brushes.len(), base.brushes.len());
    assert!(map.bounds.is_none());
}

#[test]
fn a_crystal_added_to_a_file_without_a_final_line_feed_is_listed() {
    let base = parse("name X\nkill_y 1\nspawn 0 2 0").unwrap();
    assert!(base.crystals.is_empty());
    let map = parse("name X\n# note\nkill_y 1\nspawn 0 2 0\ncrystal 5 6 7").unwrap();
    assert_eq!(map.crystals.len(), 1);
    assert_eq!((map.crystals[0].x.as_str(), map.crystals[0].z.as_str()), ("5", "7"));
    assert_eq!(map.name, base.name);
    assert_eq!(map.kill_y, base.kill_y);
    assert_eq!(map.spawns.len(), base.spawns.len());
}

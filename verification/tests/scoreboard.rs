use smash::scoreboard::{fit, render, score_width_of, sorted, Row, Score, COLLAPSE_ABOVE, SIDEBAR_WIDTH};
use smash::screen::{NamedColor, Phase};

fn row(name: &str, lives: u8, colour: NamedColor) -> Row {
    Row { name: name.to_owned(), lives, colour }
}

#[test]
fn a_shown_score_is_drawn_and_a_rank_is_not() {
    assert_eq!(Score::Shown(3).drawn(), Some(3));
    assert_eq!(Score::Rank(3).drawn(), None);
}

#[test]
fn the_score_column_is_its_digits_and_a_gutter() {
    assert_eq!(score_width_of(Score::Shown(4)), 2);
    assert_eq!(score_width_of(Score::Shown(-12)), 4);
    assert_eq!(score_width_of(Score::Shown(i32::MIN)), 12);
    assert_eq!(score_width_of(Score::Rank(99)), 0);
}

#[test]
fn a_row_that_fits_is_left_alone() {
    assert_eq!(fit("Andrew", Score::Shown(4)), "Andrew");
    let exact = "a".repeat(SIDEBAR_WIDTH);
    assert_eq!(fit(&exact, Score::Rank(0)), exact);
}

#[test]
fn a_row_that_does_not_fit_ends_in_two_dots() {
    let long = "abcdefghijklmnopqrstuvwxyz0123456789";
    let fitted = fit(long, Score::Shown(4));
    assert_eq!(fitted, "abcdefghijklmnopqrstuvwxyz..");
    assert_eq!(fitted.chars().count(), SIDEBAR_WIDTH - 2);
    assert_eq!(fit(long, Score::Rank(1)), "abcdefghijklmnopqrstuvwxyz01..");
}

#[test]
fn rows_go_most_lives_first_then_by_name() {
    let rows = vec![
        row("Steve", 2, NamedColor::Gold),
        row("Alex", 4, NamedColor::Green),
        row("Andrew", 2, NamedColor::Gold),
        row("Zed", 0, NamedColor::Gray),
    ];
    let order: Vec<String> = sorted(&rows).into_iter().map(|r| r.name).collect();
    assert_eq!(order, vec!["Alex", "Andrew", "Steve", "Zed"]);
}

#[test]
fn the_panel_shows_each_player_with_lives_as_the_score() {
    let lines = render(Phase::Playing, vec![row("Steve", 1, NamedColor::Red), row("Alex", 4, NamedColor::Green)]);
    assert_eq!(lines.len(), 2);
    assert_eq!(lines[0].text.plain(), "Alex");
    assert_eq!(lines[0].text.color, Some(NamedColor::Green));
    assert_eq!(lines[0].score, Score::Shown(4));
    assert_eq!(lines[1].text.plain(), "Steve");
    assert_eq!(lines[1].text.color, Some(NamedColor::Red));
    assert_eq!(lines[1].score, Score::Shown(1));
}

#[test]
fn a_waiting_lobby_says_so_at_the_bottom() {
    let lines = render(Phase::Waiting, vec![row("Alex", 4, NamedColor::Green)]);
    assert_eq!(lines.len(), 2);
    assert_eq!(lines[1].text.plain(), "Waiting for players");
    assert_eq!(lines[1].text.color, None);
    assert_eq!(lines[1].score, Score::Rank(0));
    assert_eq!(render(Phase::Countdown, Vec::new()).len(), 1);
    assert!(render(Phase::Ended, Vec::new()).is_empty());
}

#[test]
fn a_big_lobby_collapses_to_two_counters() {
    let mut rows = Vec::new();
    for i in 0..=COLLAPSE_ABOVE {
        rows.push(row(&format!("p{i}"), if i % 3 == 0 { 0 } else { 2 }, NamedColor::Gold));
    }
    let lines = render(Phase::Playing, rows);
    assert_eq!(lines.len(), 2);
    assert_eq!(lines[0].text.plain(), "Players Alive: 10");
    assert_eq!(lines[0].score, Score::Rank(2));
    assert_eq!(lines[1].text.plain(), "Players Dead: 5");
    assert_eq!(lines[1].score, Score::Rank(1));
}

#[test]
fn fourteen_players_still_get_a_row_each() {
    let rows: Vec<Row> = (0..COLLAPSE_ABOVE).map(|i| row(&format!("p{i:02}"), 1, NamedColor::Red)).collect();
    let lines = render(Phase::Playing, rows);
    assert_eq!(lines.len(), COLLAPSE_ABOVE);
    assert_eq!(lines[0].text.plain(), "p00");
}

use smash::build_stamp::{needs_redraw, relative_age, reload_title, stamp_bar, stamp_title, BuildStamp};
use smash::screen::{BarColour, NamedColor};

const NOW: i64 = 1_767_225_600;

#[test]
fn the_files_are_read_trimmed() {
    let stamp = BuildStamp::parse(Some("8f3a21c\n"), Some(" 1767225000\n"), Some("1\n"));
    assert_eq!(stamp.rev.as_deref(), Some("8f3a21c"));
    assert_eq!(stamp.committed_at, Some(1_767_225_000));
    assert!(stamp.dirty);
}

#[test]
fn an_unusable_field_reads_as_absent() {
    let stamp = BuildStamp::parse(Some("  \n"), Some("yesterday"), Some("0"));
    assert_eq!(stamp.rev, None);
    assert_eq!(stamp.committed_at, None);
    assert!(!stamp.dirty);
    let stamp = BuildStamp::parse(None, Some("-60"), Some("11"));
    assert_eq!(stamp.committed_at, Some(-60));
    assert!(!stamp.dirty);
}

#[test]
fn nothing_said_is_the_unpackaged_build() {
    let stamp = BuildStamp::parse(None, None, None);
    assert_eq!(stamp.rev, None);
    assert_eq!(stamp.committed_at, None);
    assert!(!stamp.dirty);
    let default = BuildStamp::default();
    assert_eq!(default.rev, None);
    assert_eq!(default.committed_at, None);
    assert!(!default.dirty);
}

#[test]
fn an_age_is_worded_in_its_coarsest_whole_unit() {
    assert_eq!(relative_age(NOW, NOW), "just now");
    assert_eq!(relative_age(NOW - 59, NOW), "just now");
    assert_eq!(relative_age(NOW - 60, NOW), "1m ago");
    assert_eq!(relative_age(NOW - 3599, NOW), "59m ago");
    assert_eq!(relative_age(NOW - 3600, NOW), "1h ago");
    assert_eq!(relative_age(NOW - 7200 - 1799, NOW), "2h ago");
    assert_eq!(relative_age(NOW - 86_399, NOW), "23h ago");
    assert_eq!(relative_age(NOW - 86_400, NOW), "1d ago");
    assert_eq!(relative_age(NOW - 30 * 86_400, NOW), "30d ago");
}

#[test]
fn a_commit_from_the_future_is_just_now() {
    assert_eq!(relative_age(NOW + 180, NOW), "just now");
    assert_eq!(relative_age(i64::MAX, i64::MIN), "just now");
}

#[test]
fn an_age_past_the_range_of_the_clock_saturates() {
    assert_eq!(relative_age(i64::MIN, i64::MAX), format!("{}d ago", i64::MAX / 86_400));
}

#[test]
fn the_title_names_the_build_and_its_age() {
    let clean = BuildStamp::parse(Some("8f3a21c"), Some("1767218400"), None);
    assert_eq!(stamp_title(&clean, NOW), "build 8f3a21c \u{b7} 2h ago");
    let dirty = BuildStamp::parse(Some("8f3a21c"), None, Some("1"));
    assert_eq!(stamp_title(&dirty, NOW), "build 8f3a21c + uncommitted changes");
    let unknown = BuildStamp::default();
    assert_eq!(stamp_title(&unknown, NOW), "build unpackaged build");
    let dated = BuildStamp::parse(None, Some("1767225600"), Some("1"));
    assert_eq!(stamp_title(&dated, NOW), "build unpackaged build \u{b7} just now");
}

#[test]
fn a_clean_build_is_gray_on_blue() {
    let bar = stamp_bar(&BuildStamp::parse(Some("8f3a21c"), None, None), NOW);
    assert_eq!(bar.title.plain(), "build 8f3a21c");
    assert_eq!(bar.title.color, Some(NamedColor::Gray));
    assert_eq!(bar.colour, BarColour::Blue);
}

#[test]
fn a_dirty_build_is_red() {
    let bar = stamp_bar(&BuildStamp::parse(Some("8f3a21c"), None, Some("1")), NOW);
    assert_eq!(bar.title.color, Some(NamedColor::Red));
    assert_eq!(bar.colour, BarColour::Red);
}

#[test]
fn a_reload_names_the_build_it_reloaded_to() {
    let title = reload_title(Some("8f3a21c"));
    assert_eq!(title.title.plain(), "Reloading to build 8f3a21c");
    assert_eq!(title.title.color, Some(NamedColor::Yellow));
    assert!(title.subtitle.is_none());
    assert_eq!(reload_title(None).title.plain(), "Reloading to build an unknown build");
}

#[test]
fn the_bar_is_sent_again_only_when_its_words_change() {
    assert!(needs_redraw(None, "build 8f3a21c \u{b7} 2m ago"));
    assert!(!needs_redraw(Some("build 8f3a21c \u{b7} 2m ago"), "build 8f3a21c \u{b7} 2m ago"));
    assert!(needs_redraw(Some("build 8f3a21c \u{b7} 2m ago"), "build 8f3a21c \u{b7} 3m ago"));
    assert!(needs_redraw(Some("build"), "build 8f3a21c"));
}

use crossfade_player::catalog::{Category, MediaFile};
use crossfade_player::history::{can_update_play_info, update_play_info};

fn row(name: &str, overall: u64, current: u64) -> Category {
    Category {
        category: name.to_string(),
        duration_overall: overall,
        current_duration: current,
        count: 2,
        visible: true,
    }
}

fn file(category: &str, path: &str, played: u32) -> MediaFile {
    MediaFile { path: path.to_string(), category: category.to_string(), played }
}

#[test]
fn a_change_of_category_resets_the_streak_and_credits_the_total() {
    let mut categories = vec![row("B", 10, 10), row("A", 300, 50)];
    let mut media = vec![file("A", "x", 3), file("A", "y", 0)];
    let item = file("A", "x", 3);
    assert!(can_update_play_info(&categories, &media, &item, 125, true));
    update_play_info(&mut categories, &mut media, &item, 125, true);
    assert_eq!(categories[1].duration_overall, 425);
    assert_eq!(categories[1].current_duration, 0);
    assert_eq!(categories[1].count, 2);
    assert!(categories[1].visible);
    assert_eq!(categories[0].duration_overall, 10);
    assert_eq!(categories[0].current_duration, 10);
    assert_eq!(media[0].played, 4);
    assert_eq!(media[1].played, 0);
}

#[test]
fn a_play_in_the_same_category_extends_the_streak() {
    let mut categories = vec![row("A", 300, 50)];
    let mut media = vec![file("A", "x", 0)];
    update_play_info(&mut categories, &mut media, &file("A", "x", 0), 125, false);
    assert_eq!(categories[0].duration_overall, 425);
    assert_eq!(categories[0].current_duration, 175);
    assert_eq!(media[0].played, 1);
}

#[test]
fn the_first_play_after_a_change_leaves_its_own_time() {
    let mut categories = vec![row("A", 300, 50)];
    let mut media = vec![file("A", "x", 0), file("A", "y", 0)];
    update_play_info(&mut categories, &mut media, &file("A", "x", 0), 40, true);
    update_play_info(&mut categories, &mut media, &file("A", "y", 0), 60, false);
    assert_eq!(categories[0].current_duration, 60);
    assert_eq!(categories[0].duration_overall, 400);
}

#[test]
fn two_recordings_count_two_plays() {
    let mut categories = vec![row("A", 0, 0)];
    let mut media = vec![file("A", "x", 5), file("B", "x", 5), file("A", "z", 5)];
    let item = file("A", "x", 5);
    update_play_info(&mut categories, &mut media, &item, 1, false);
    update_play_info(&mut categories, &mut media, &item, 1, false);
    assert_eq!(media[0].played, 7);
    assert_eq!(media[1].played, 5);
    assert_eq!(media[2].played, 5);
    assert_eq!(media[0].path, "x");
    assert_eq!(media[0].category, "A");
}

#[test]
fn only_the_first_matching_row_is_touched() {
    let mut categories = vec![row("A", 1, 1), row("A", 2, 2)];
    let mut media = vec![file("A", "x", 0), file("A", "x", 0)];
    update_play_info(&mut categories, &mut media, &file("A", "x", 0), 9, false);
    assert_eq!(categories[0].duration_overall, 10);
    assert_eq!(categories[0].current_duration, 10);
    assert_eq!(categories[1].duration_overall, 2);
    assert_eq!(categories[1].current_duration, 2);
    assert_eq!(media[0].played, 1);
    assert_eq!(media[1].played, 0);
}

#[test]
fn missing_rows_leave_the_tables_alone() {
    let mut categories = vec![row("A", 1, 1)];
    let mut media = vec![file("A", "x", 0)];
    update_play_info(&mut categories, &mut media, &file("B", "x", 0), 9, false);
    assert_eq!(categories[0].duration_overall, 1);
    assert_eq!(categories[0].current_duration, 1);
    assert_eq!(media[0].played, 0);
    update_play_info(&mut categories, &mut media, &file("A", "y", 0), 9, true);
    assert_eq!(categories[0].duration_overall, 10);
    assert_eq!(categories[0].current_duration, 0);
    assert_eq!(media[0].played, 0);
}

#[test]
fn full_counters_cannot_be_recorded() {
    let categories = vec![row("A", u64::MAX - 5, 0)];
    let media = vec![file("A", "x", 0)];
    assert!(can_update_play_info(&categories, &media, &file("A", "x", 0), 5, false));
    assert!(!can_update_play_info(&categories, &media, &file("A", "x", 0), 6, false));
    assert!(!can_update_play_info(&categories, &media, &file("A", "x", 0), 6, true));

    let categories = vec![row("A", 0, u64::MAX)];
    assert!(!can_update_play_info(&categories, &media, &file("A", "x", 0), 1, false));
    assert!(can_update_play_info(&categories, &media, &file("A", "x", 0), 1, true));
    assert!(can_update_play_info(&categories, &media, &file("A", "x", 0), 0, false));

    let categories = vec![row("A", 0, 0)];
    let media = vec![file("A", "x", u32::MAX)];
    assert!(!can_update_play_info(&categories, &media, &file("A", "x", 0), 1, false));
    assert!(can_update_play_info(&categories, &media, &file("A", "other", 0), 1, false));
    assert!(can_update_play_info(&categories, &media, &file("B", "x", 0), u64::MAX, false));
}

use crossfade_player::catalog::{Category, LastChoice, MediaFile};
use crossfade_player::random::create_seeded_rng;
use crossfade_player::selection::{
    choose_media_file, get_next_song, select_with_draws, selection_is_certain, ROTATION_LIMIT,
};

fn category(name: &str, visible: bool) -> Category {
    Category {
        category: name.to_string(),
        duration_overall: 0,
        current_duration: 0,
        count: 0,
        visible,
    }
}

fn file(category: &str, path: &str, played: u32) -> MediaFile {
    MediaFile { path: path.to_string(), category: category.to_string(), played }
}

fn memory(category: &str, path: &str, times_chosen: u32) -> Option<LastChoice> {
    Some(LastChoice { media_file: file(category, path, 0), times_chosen })
}

fn two_categories() -> (Vec<Category>, Vec<MediaFile>) {
    (
        vec![category("A", true), category("B", true)],
        vec![file("A", "/m/A/one.mp4", 0), file("A", "/m/A/two.mp4", 0), file("B", "/m/B/three.mp4", 0)],
    )
}

#[test]
fn first_choice_comes_from_a_visible_category() {
    let (categories, media) = two_categories();
    let mut seen_a = false;
    let mut seen_b = false;
    for seed in 0..64u64 {
        let mut rng = create_seeded_rng(seed, 17);
        let chosen = choose_media_file(&categories, &media, &None, None, &mut rng).unwrap();
        assert_eq!(chosen.times_chosen, 1);
        assert_eq!(chosen.media_file.played, 0);
        assert!(media.iter().any(|f| f.path == chosen.media_file.path
            && f.category == chosen.media_file.category));
        match chosen.media_file.category.as_str() {
            "A" => seen_a = true,
            "B" => seen_b = true,
            other => panic!("category {other} is not in the table"),
        }
    }
    assert!(seen_a && seen_b);
}

#[test]
fn category_is_kept_until_the_streak_reaches_the_limit() {
    let (categories, media) = two_categories();
    let mut rng = create_seeded_rng(1, 2);
    let mut last = choose_media_file(&categories, &media, &None, None, &mut rng);
    let first_category = last.as_ref().unwrap().media_file.category.clone();
    for expected in 2..=ROTATION_LIMIT {
        let current = last.as_ref().map(|c| c.media_file.clone());
        let next = choose_media_file(&categories, &media, &last, current, &mut rng).unwrap();
        assert_eq!(next.media_file.category, first_category);
        assert_eq!(next.times_chosen, expected);
        last = Some(next);
    }
    let current = last.as_ref().map(|c| c.media_file.clone());
    let next = choose_media_file(&categories, &media, &last, current, &mut rng).unwrap();
    assert_ne!(next.media_file.category, first_category);
    assert_eq!(next.times_chosen, 1);
}

#[test]
fn rotation_leaves_the_last_category_when_another_is_visible() {
    let categories = vec![category("A", true), category("B", true), category("C", true)];
    let media = vec![file("A", "a", 0), file("B", "b", 0), file("C", "c", 0)];
    for seed in 0..40u64 {
        let mut rng = create_seeded_rng(seed, 0);
        let chosen =
            choose_media_file(&categories, &media, &memory("A", "a", 4), None, &mut rng).unwrap();
        assert_ne!(chosen.media_file.category, "A");
        assert_eq!(chosen.times_chosen, 1);
    }
}

#[test]
fn rotation_falls_back_to_the_last_category_and_restarts_the_streak() {
    let categories = vec![category("A", true), category("B", false)];
    let media = vec![file("A", "a1", 0), file("A", "a2", 0), file("B", "b", 0)];
    let mut rng = create_seeded_rng(5, 5);
    let chosen =
        choose_media_file(&categories, &media, &memory("A", "a1", 7), None, &mut rng).unwrap();
    assert_eq!(chosen.media_file.category, "A");
    assert_eq!(chosen.times_chosen, 1);
}

#[test]
fn hidden_categories_are_never_drawn() {
    let categories = vec![category("A", false), category("B", true), category("C", false)];
    let media = vec![file("A", "a", 0), file("B", "b", 0), file("C", "c", 0)];
    for seed in 0..40u64 {
        let mut rng = create_seeded_rng(seed, 3);
        let chosen = choose_media_file(&categories, &media, &None, None, &mut rng).unwrap();
        assert_eq!(chosen.media_file.category, "B");
        assert_eq!(chosen.media_file.path, "b");
    }
}

#[test]
fn a_kept_category_is_not_looked_up_in_the_table() {
    let categories = vec![category("A", false), category("B", true)];
    let media = vec![file("A", "a", 0), file("B", "b", 0)];
    let mut rng = create_seeded_rng(9, 9);
    let chosen =
        choose_media_file(&categories, &media, &memory("A", "a", 1), None, &mut rng).unwrap();
    assert_eq!(chosen.media_file.category, "A");
    assert_eq!(chosen.times_chosen, 2);
}

#[test]
fn nothing_is_chosen_without_a_visible_category() {
    let categories = vec![category("A", false)];
    let media = vec![file("A", "a", 0)];
    let mut rng = create_seeded_rng(0, 0);
    assert!(choose_media_file(&categories, &media, &None, None, &mut rng).is_none());
    assert!(choose_media_file(&Vec::new(), &media, &None, None, &mut rng).is_none());
}

#[test]
fn nothing_is_chosen_from_an_empty_category() {
    let categories = vec![category("A", true)];
    let media = vec![file("B", "b", 0)];
    let mut rng = create_seeded_rng(0, 0);
    assert!(choose_media_file(&categories, &media, &None, None, &mut rng).is_none());
    assert!(choose_media_file(&categories, &media, &memory("A", "a", 2), None, &mut rng).is_none());
}

#[test]
fn unplayed_items_come_first() {
    let categories = vec![category("A", true)];
    let media = vec![file("A", "old", 3), file("A", "new", 0), file("A", "older", 9)];
    for seed in 0..20u64 {
        let mut rng = create_seeded_rng(seed, 1);
        let chosen = choose_media_file(&categories, &media, &None, None, &mut rng).unwrap();
        assert_eq!(chosen.media_file.path, "new");
    }
}

#[test]
fn the_current_item_is_not_repeated_while_another_unplayed_one_exists() {
    let categories = vec![category("A", true)];
    let media = vec![file("A", "one", 0), file("A", "two", 0)];
    for seed in 0..20u64 {
        let mut rng = create_seeded_rng(seed, 1);
        let chosen = choose_media_file(
            &categories,
            &media,
            &memory("A", "one", 1),
            Some(file("A", "one", 0)),
            &mut rng,
        )
        .unwrap();
        assert_eq!(chosen.media_file.path, "two");
    }
}

#[test]
fn played_items_become_eligible_when_no_unplayed_one_is_left() {
    let categories = vec![category("A", true)];
    let media = vec![file("A", "one", 0), file("A", "two", 4), file("A", "three", 1)];
    for seed in 0..20u64 {
        let mut rng = create_seeded_rng(seed, 1);
        let chosen = choose_media_file(
            &categories,
            &media,
            &memory("A", "one", 1),
            Some(file("A", "one", 0)),
            &mut rng,
        )
        .unwrap();
        assert_ne!(chosen.media_file.path, "one");
        assert!(chosen.media_file.played > 0);
    }
}

#[test]
fn the_current_item_is_repeated_when_it_is_alone_in_its_category() {
    let categories = vec![category("A", true)];
    let media = vec![file("A", "one", 2), file("B", "other", 0)];
    let mut rng = create_seeded_rng(3, 3);
    let chosen = choose_media_file(
        &categories,
        &media,
        &memory("A", "one", 1),
        Some(file("A", "one", 2)),
        &mut rng,
    )
    .unwrap();
    assert_eq!(chosen.media_file.path, "one");
    assert_eq!(chosen.media_file.played, 2);
    assert_eq!(chosen.times_chosen, 2);
}

#[test]
fn the_same_seed_gives_the_same_choice() {
    let (categories, media) = two_categories();
    let mut first = create_seeded_rng(1234, 5678);
    let mut second = create_seeded_rng(1234, 5678);
    for _ in 0..10 {
        let a = choose_media_file(&categories, &media, &None, None, &mut first).unwrap();
        let b = choose_media_file(&categories, &media, &None, None, &mut second).unwrap();
        assert_eq!(a.media_file.path, b.media_file.path);
    }
}

#[test]
fn given_draws_pick_the_rows_they_name() {
    let categories = vec![category("A", true), category("H", false), category("B", true)];
    let media = vec![file("A", "a1", 0), file("B", "b1", 1), file("B", "b2", 0), file("B", "b3", 0)];
    let chosen = select_with_draws(&categories, &media, &None, &None, Some(1), Some(1)).unwrap();
    assert_eq!(chosen.media_file.category, "B");
    assert_eq!(chosen.media_file.path, "b3");
    assert_eq!(chosen.media_file.played, 0);
    assert_eq!(chosen.times_chosen, 1);
    let chosen = select_with_draws(&categories, &media, &None, &None, Some(0), Some(0)).unwrap();
    assert_eq!(chosen.media_file.path, "a1");
}

#[test]
fn given_draws_beyond_the_pool_count_as_nothing_drawn() {
    let categories = vec![category("A", true), category("B", true)];
    let media = vec![file("A", "a1", 0), file("B", "b1", 0)];
    assert!(select_with_draws(&categories, &media, &None, &None, Some(2), Some(0)).is_none());
    assert!(select_with_draws(&categories, &media, &None, &None, None, Some(0)).is_none());
    assert!(select_with_draws(&categories, &media, &None, &None, Some(0), Some(1)).is_none());
    assert!(select_with_draws(&categories, &media, &None, &None, Some(0), None).is_none());
    let kept = select_with_draws(&categories, &media, &memory("A", "a1", 4), &None, Some(5), Some(0))
        .unwrap();
    assert_eq!(kept.media_file.category, "A");
    assert_eq!(kept.times_chosen, 1);
}

#[test]
fn given_draws_are_not_consulted_for_a_kept_category() {
    let categories = vec![category("A", true), category("B", true)];
    let media = vec![file("A", "a1", 0), file("B", "b1", 0)];
    let chosen =
        select_with_draws(&categories, &media, &memory("B", "b1", 3), &None, Some(0), Some(0)).unwrap();
    assert_eq!(chosen.media_file.category, "B");
    assert_eq!(chosen.times_chosen, 4);
}

#[test]
fn next_song_is_found_where_every_category_holds_an_item() {
    let (categories, media) = two_categories();
    let mut rng = create_seeded_rng(77, 1);
    let next = get_next_song(&categories, &media, &None, None, &mut rng);
    assert_eq!(next.times_chosen, 1);
    assert!(media.iter().any(|f| f.path == next.media_file.path));
    let after = get_next_song(
        &categories,
        &media,
        &Some(next.clone()),
        Some(next.media_file.clone()),
        &mut rng,
    );
    assert_eq!(after.media_file.category, next.media_file.category);
    assert_eq!(after.times_chosen, 2);
}

#[test]
fn a_hidden_category_is_chosen_only_where_no_visible_one_holds_an_item() {
    let categories = vec![category("A", false), category("B", true)];
    let media = vec![file("A", "a", 0)];
    let mut rng = create_seeded_rng(4, 4);
    let kept = choose_media_file(&categories, &media, &memory("A", "a", 2), None, &mut rng).unwrap();
    assert_eq!(kept.media_file.category, "A");

    let categories = vec![category("A", false)];
    let kept = choose_media_file(&categories, &media, &memory("A", "a", 4), None, &mut rng).unwrap();
    assert_eq!(kept.media_file.category, "A");
    assert_eq!(kept.times_chosen, 1);
}

#[test]
fn a_selection_is_certain_where_each_category_that_can_follow_holds_an_item() {
    let (categories, media) = two_categories();
    assert!(selection_is_certain(&categories, &media, &None));
    assert!(selection_is_certain(&categories, &media, &memory("A", "x", 1)));
    assert!(selection_is_certain(&categories, &media, &memory("A", "x", 4)));
    assert!(selection_is_certain(&categories, &media, &memory("B", "x", 9)));

    let categories = vec![category("A", true), category("B", true), category("C", true)];
    assert!(!selection_is_certain(&categories, &media, &None));
    assert!(selection_is_certain(&categories, &media, &memory("A", "x", 3)));
    assert!(!selection_is_certain(&categories, &media, &memory("A", "x", 4)));
    assert!(!selection_is_certain(&categories, &media, &memory("C", "x", 3)));
    assert!(selection_is_certain(&categories, &media, &memory("C", "x", 4)));

    let hidden = vec![category("A", false), category("C", false)];
    assert!(!selection_is_certain(&hidden, &media, &None));
    assert!(selection_is_certain(&hidden, &media, &memory("A", "x", 4)));
    assert!(!selection_is_certain(&hidden, &media, &memory("C", "x", 4)));
    assert!(!selection_is_certain(&Vec::new(), &media, &None));
    assert!(!selection_is_certain(&categories, &Vec::new(), &memory("A", "x", 1)));
}

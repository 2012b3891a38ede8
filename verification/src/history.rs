//! The play history: after an item has played, its category is credited
//! with the time and the item with one more play.

use vstd::prelude::*;

use crate::catalog::{Category, CategoryView, MediaFile, MediaFileView};
use crate::index::{first_match, is_first, lemma_first_match};

verus! {

/// For each row of the category table, whether it is named `name`.
pub open spec fn named(categories: Seq<CategoryView>, name: Seq<char>) -> Seq<bool> {
    Seq::new(categories.len(), |i: int| categories[i].category == name)
}

/// For each row of the media table, whether it has this category and path.
pub open spec fn located(media: Seq<MediaFileView>, category: Seq<char>, path: Seq<char>) -> Seq<
    bool,
> {
    Seq::new(media.len(), |i: int| media[i].category == category && media[i].path == path)
}

/// The row of the category table that a play in `name` is credited to: the
/// first one named so.
pub open spec fn category_row(categories: Seq<CategoryView>, name: Seq<char>) -> Option<int> {
    first_match(named(categories, name))
}

/// The row of the media table that a play of the item with this category
/// and path is counted in: the first one that has both.
pub open spec fn media_row(media: Seq<MediaFileView>, category: Seq<char>, path: Seq<char>) -> Option<
    int,
> {
    first_match(located(media, category, path))
}

/// A category row after a play of `duration` seconds: the overall time
/// grows by it, and so does the time of the current streak unless the
/// category has changed, which sets it to zero.
pub open spec fn credited(row: CategoryView, duration: nat, category_change: bool) -> CategoryView {
    CategoryView {
        duration_overall: row.duration_overall + duration,
        current_duration: if category_change {
            0
        } else {
            row.current_duration + duration
        },
        ..row
    }
}

/// A media row after one more play.
pub open spec fn counted(file: MediaFileView) -> MediaFileView {
    MediaFileView { played: file.played + 1, ..file }
}

/// The category table after a play in the category `name`.
pub open spec fn categories_after(
    categories: Seq<CategoryView>,
    name: Seq<char>,
    duration: nat,
    category_change: bool,
) -> Seq<CategoryView> {
    match category_row(categories, name) {
        Some(i) => categories.update(i, credited(categories[i], duration, category_change)),
        None => categories,
    }
}

/// The media table after a play of the item with this category and path.
pub open spec fn media_after(media: Seq<MediaFileView>, category: Seq<char>, path: Seq<char>) -> Seq<
    MediaFileView,
> {
    match media_row(media, category, path) {
        Some(i) => media.update(i, counted(media[i])),
        None => media,
    }
}

/// Whether a play of `file` can be recorded: none of the counters that it
/// raises would pass the largest value that it can hold.
pub open spec fn can_record(
    categories: Seq<CategoryView>,
    media: Seq<MediaFileView>,
    file: MediaFileView,
    duration: nat,
    category_change: bool,
) -> bool {
    &&& category_row(categories, file.category) matches Some(i) ==> {
        &&& categories[i].duration_overall + duration <= u64::MAX
        &&& !category_change ==> categories[i].current_duration + duration <= u64::MAX
    }
    &&& media_row(media, file.category, file.path) matches Some(j) ==> media[j].played + 1
        <= u32::MAX
}

pub(crate) fn find_category(categories: &Vec<Category>, name: &String) -> (found: Option<usize>)
    ensures
        match found {
            Some(i) => category_row(categories.deep_view(), name@) == Some(i as int),
            None => category_row(categories.deep_view(), name@) is None,
        },
{
    let ghost flags = named(categories.deep_view(), name@);
    proof {
        lemma_first_match(flags);
    }
    let mut i: usize = 0;
    while i < categories.len()
        invariant
            i <= categories.len(),
            flags == named(categories.deep_view(), name@),
            forall|j: int| 0 <= j < i ==> !flags[j],
        decreases categories.len() - i,
    {
        if categories[i].category == *name {
            assert(is_first(flags, i as int));
            return Some(i);
        }
        i += 1;
    }
    None
}

fn find_media(media_files: &Vec<MediaFile>, category: &String, path: &String) -> (found: Option<
    usize,
>)
    ensures
        match found {
            Some(i) => media_row(media_files.deep_view(), category@, path@) == Some(i as int),
            None => media_row(media_files.deep_view(), category@, path@) is None,
        },
{
    let ghost flags = located(media_files.deep_view(), category@, path@);
    proof {
        lemma_first_match(flags);
    }
    let mut i: usize = 0;
    while i < media_files.len()
        invariant
            i <= media_files.len(),
            flags == located(media_files.deep_view(), category@, path@),
            forall|j: int| 0 <= j < i ==> !flags[j],
        decreases media_files.len() - i,
    {
        if media_files[i].category == *category && media_files[i].path == *path {
            assert(is_first(flags, i as int));
            return Some(i);
        }
        i += 1;
    }
    None
}

/// Whether `update_play_info` can record this play: whether its counters
/// have room for it.
pub fn can_update_play_info(
    categories: &Vec<Category>,
    media_files: &Vec<MediaFile>,
    media_file: &MediaFile,
    duration: u64,
    category_change: bool,
) -> (room: bool)
    ensures
        room == can_record(
            categories.deep_view(),
            media_files.deep_view(),
            media_file@,
            duration as nat,
            category_change,
        ),
{
    let fits_category: bool = match find_category(categories, &media_file.category) {
        Some(i) => {
            let row = &categories[i];
            duration <= u64::MAX - row.duration_overall && (category_change || duration <= u64::MAX
                - row.current_duration)
        },
        None => true,
    };
    let fits_media: bool = match find_media(media_files, &media_file.category, &media_file.path) {
        Some(j) => media_files[j].played < u32::MAX,
        None => true,
    };
    fits_category && fits_media
}

/// Records that `media_file` has played for `duration` seconds. The first
/// row of its category is credited with the time: the overall time always,
/// the time of the current streak unless `category_change`, which sets it
/// to zero. The first row of the media table with its category and path
/// counts one more play. Where such a row is missing, that table stays as
/// it is. The counters are taken to have room for the play, which
/// `can_update_play_info` tells.
pub fn update_play_info(
    categories: &mut Vec<Category>,
    media_files: &mut Vec<MediaFile>,
    media_file: &MediaFile,
    duration: u64,
    category_change: bool,
)
    requires
        can_record(
            old(categories).deep_view(),
            old(media_files).deep_view(),
            media_file@,
            duration as nat,
            category_change,
        ),
    ensures
        final(categories).deep_view() == categories_after(
            old(categories).deep_view(),
            media_file@.category,
            duration as nat,
            category_change,
        ),
        final(media_files).deep_view() == media_after(
            old(media_files).deep_view(),
            media_file@.category,
            media_file@.path,
        ),
        category_row(old(categories).deep_view(), media_file@.category) matches Some(i) ==> {
            &&& 0 <= i < old(categories).len()
            &&& final(categories).deep_view()[i].current_duration == if category_change {
                0
            } else {
                old(categories).deep_view()[i].current_duration + duration
            }
            &&& final(categories).deep_view()[i].duration_overall == old(
                categories,
            ).deep_view()[i].duration_overall + duration
        },
        media_row(old(media_files).deep_view(), media_file@.category, media_file@.path) matches Some(
            j,
        ) ==> 0 <= j < old(media_files).len() && final(media_files).deep_view()[j].played == old(
            media_files,
        ).deep_view()[j].played + 1,
{
    proof {
        lemma_first_match(named(categories.deep_view(), media_file@.category));
        lemma_first_match(located(media_files.deep_view(), media_file@.category, media_file@.path));
    }
    if let Some(i) = find_category(categories, &media_file.category) {
        let row = &categories[i];
        let credited_row = Category {
            category: row.category.clone(),
            duration_overall: row.duration_overall + duration,
            current_duration: if category_change {
                0
            } else {
                row.current_duration + duration
            },
            count: row.count,
            visible: row.visible,
        };
        categories.set(i, credited_row);
    }
    if let Some(j) = find_media(media_files, &media_file.category, &media_file.path) {
        let file = &media_files[j];
        let counted_file = MediaFile {
            path: file.path.clone(),
            category: file.category.clone(),
            played: file.played + 1,
        };
        media_files.set(j, counted_file);
    }
}

/// Recording a play leaves the place of every row as it was: the play is
/// credited to the same rows the next time.
pub proof fn lemma_rows_stay(
    categories: Seq<CategoryView>,
    media: Seq<MediaFileView>,
    file: MediaFileView,
    duration: nat,
    category_change: bool,
)
    ensures
        category_row(
            categories_after(categories, file.category, duration, category_change),
            file.category,
        ) == category_row(categories, file.category),
        media_row(media_after(media, file.category, file.path), file.category, file.path)
            == media_row(media, file.category, file.path),
        categories_after(categories, file.category, duration, category_change).len()
            == categories.len(),
        media_after(media, file.category, file.path).len() == media.len(),
{
    assert(named(
        categories_after(categories, file.category, duration, category_change),
        file.category,
    ) == named(categories, file.category));
    assert(located(media_after(media, file.category, file.path), file.category, file.path)
        == located(media, file.category, file.path));
}

/// Every recording counts: after two recordings of the same item its row
/// stands two plays higher, and every other row of the media table stands
/// as before.
pub proof fn lemma_each_play_counts(
    media: Seq<MediaFileView>,
    category: Seq<char>,
    path: Seq<char>,
    i: int,
)
    requires
        0 <= i < media.len(),
    ensures
        media_after(media, category, path)[i].played == media[i].played + if media_row(
            media,
            category,
            path,
        ) == Some(i) {
            1nat
        } else {
            0nat
        },
        media_after(media_after(media, category, path), category, path)[i].played
            == media[i].played + if media_row(media, category, path) == Some(i) {
            2nat
        } else {
            0nat
        },
        media_after(media, category, path)[i].path == media[i].path,
        media_after(media, category, path)[i].category == media[i].category,
{
    lemma_first_match(located(media, category, path));
    let once = media_after(media, category, path);
    assert(located(once, category, path) == located(media, category, path));
}

/// The time of the current streak: a play with a change of category leaves
/// it at zero, a play without one raises it by exactly the time played, and
/// so the first play after a change leaves exactly its own time. The overall
/// time is raised by the time played in either case.
pub proof fn lemma_streak_duration(
    categories: Seq<CategoryView>,
    name: Seq<char>,
    duration: nat,
    later: nat,
)
    requires
        category_row(categories, name) is Some,
    ensures
        ({
            let i = category_row(categories, name).unwrap();
            let changed = categories_after(categories, name, duration, true);
            let same = categories_after(categories, name, duration, false);
            &&& 0 <= i < categories.len()
            &&& changed[i].current_duration == 0
            &&& same[i].current_duration == categories[i].current_duration + duration
            &&& changed[i].duration_overall == categories[i].duration_overall + duration
            &&& same[i].duration_overall == categories[i].duration_overall + duration
            &&& categories_after(changed, name, later, false)[i].current_duration == later
        }),
{
    lemma_first_match(named(categories, name));
    let changed = categories_after(categories, name, duration, true);
    assert(named(changed, name) == named(categories, name));
}

/// A recording touches no row but the one it is credited to, and of that
/// row neither the name, the count nor the visibility.
pub proof fn lemma_other_rows_untouched(
    categories: Seq<CategoryView>,
    name: Seq<char>,
    duration: nat,
    category_change: bool,
    i: int,
)
    requires
        0 <= i < categories.len(),
    ensures
        ({
            let after = categories_after(categories, name, duration, category_change);
            &&& category_row(categories, name) != Some(i) ==> after[i] == categories[i]
            &&& after[i].category == categories[i].category
            &&& after[i].count == categories[i].count
            &&& after[i].visible == categories[i].visible
        }),
{
    lemma_first_match(named(categories, name));
}

} // verus!

//! Which item plays next: the category is kept until it has been chosen
//! `ROTATION_LIMIT` times in a row and is then drawn anew among the other
//! visible categories; within the category an item that was never played
//! and is not the current one is preferred.

use rand::rngs::StdRng;
use vstd::prelude::*;

use crate::catalog::{Category, CategoryView, LastChoice, LastChoiceView, MediaFile, MediaFileView};
use crate::index::{lemma_matching, lemma_matching_step, matching};
use crate::random::draw_below;

verus! {

/// Once a category has been chosen this often in a row, the next one is drawn.
pub const ROTATION_LIMIT: u32 = 4;

/// Whether row `i` of the category table can be drawn: it is visible and
/// not named `avoid`.
pub open spec fn drawable(categories: Seq<CategoryView>, avoid: Option<Seq<char>>, i: int) -> bool {
    &&& 0 <= i < categories.len()
    &&& categories[i].visible
    &&& (avoid matches Some(name) ==> categories[i].category != name)
}

/// For each row of the category table, whether it can be drawn.
pub open spec fn category_flags(categories: Seq<CategoryView>, avoid: Option<Seq<char>>) -> Seq<
    bool,
> {
    Seq::new(categories.len(), |i: int| drawable(categories, avoid, i))
}

/// Whether the category is drawn rather than kept: nothing was chosen
/// before, or the last category has had its turns.
pub open spec fn draws_category(memory: Option<LastChoiceView>) -> bool {
    memory matches Some(last) ==> last.times_chosen >= ROTATION_LIMIT
}

/// The category that a draw leaves aside: that of the last choice.
pub open spec fn avoided(memory: Option<LastChoiceView>) -> Option<Seq<char>> {
    match memory {
        Some(last) => Some(last.media_file.category),
        None => None,
    }
}

/// The rows of the category table among which the next category is drawn;
/// none where the category is kept.
pub open spec fn category_pool(categories: Seq<CategoryView>, memory: Option<LastChoiceView>) -> Seq<
    int,
> {
    if draws_category(memory) {
        matching(category_flags(categories, avoided(memory)))
    } else {
        Seq::empty()
    }
}

/// How many selections in a row the next choice makes in its category.
pub open spec fn next_streak(memory: Option<LastChoiceView>) -> nat {
    match memory {
        Some(last) => if last.times_chosen >= ROTATION_LIMIT {
            1
        } else {
            last.times_chosen + 1
        },
        None => 1,
    }
}

/// The category of the next item, given what was drawn from the category
/// pool. Without a last choice and without a draw there is none; with a last
/// choice its category stands in where nothing could be drawn.
pub open spec fn chosen_category(
    categories: Seq<CategoryView>,
    memory: Option<LastChoiceView>,
    draw: Option<usize>,
) -> Option<Seq<char>> {
    let pool = category_pool(categories, memory);
    if draw is Some && draw.unwrap() < pool.len() {
        Some(categories[pool[draw.unwrap() as int]].category)
    } else {
        avoided(memory)
    }
}

/// Whether `file` is a candidate of `category` at a level of relaxation:
/// at level 0 it was never played and is not the current item, at level 1
/// it is not the current item, from level 2 on it only belongs to the
/// category.
pub open spec fn is_candidate(
    file: MediaFileView,
    category: Seq<char>,
    current: Option<MediaFileView>,
    level: nat,
) -> bool {
    &&& file.category == category
    &&& (level == 0 ==> file.played == 0)
    &&& (level <= 1 ==> (current matches Some(playing) ==> file.path != playing.path))
}

/// For each row of the media table, whether it is a candidate at `level`.
pub open spec fn candidate_flags(
    media: Seq<MediaFileView>,
    category: Seq<char>,
    current: Option<MediaFileView>,
    level: nat,
) -> Seq<bool> {
    Seq::new(media.len(), |i: int| is_candidate(media[i], category, current, level))
}

/// The least level of relaxation at which `category` has a candidate; 2
/// where it has none at all.
pub open spec fn relaxation(
    media: Seq<MediaFileView>,
    category: Seq<char>,
    current: Option<MediaFileView>,
) -> nat {
    if matching(candidate_flags(media, category, current, 0)).len() > 0 {
        0
    } else if matching(candidate_flags(media, category, current, 1)).len() > 0 {
        1
    } else {
        2
    }
}

/// The rows of the media table among which the next item is drawn.
pub open spec fn candidate_pool(
    media: Seq<MediaFileView>,
    category: Seq<char>,
    current: Option<MediaFileView>,
) -> Seq<int> {
    matching(candidate_flags(media, category, current, relaxation(media, category, current)))
}

/// The next item of `category`, given what was drawn from its candidates.
pub open spec fn chosen_file(
    media: Seq<MediaFileView>,
    category: Seq<char>,
    current: Option<MediaFileView>,
    draw: Option<usize>,
) -> Option<MediaFileView> {
    let pool = candidate_pool(media, category, current);
    if draw is Some && draw.unwrap() < pool.len() {
        Some(media[pool[draw.unwrap() as int]])
    } else {
        None
    }
}

/// The selection that the two draws lead to: the next item with the number
/// of selections that its category has then had in a row.
pub open spec fn selection(
    categories: Seq<CategoryView>,
    media: Seq<MediaFileView>,
    memory: Option<LastChoiceView>,
    current: Option<MediaFileView>,
    category_draw: Option<usize>,
    file_draw: Option<usize>,
) -> Option<LastChoiceView> {
    match chosen_category(categories, memory, category_draw) {
        Some(category) => match chosen_file(media, category, current, file_draw) {
            Some(file) => Some(
                LastChoiceView { media_file: file, times_chosen: next_streak(memory) },
            ),
            None => None,
        },
        None => None,
    }
}

/// Whether `draw` is a draw from `size` items: one of them, or none where
/// there is nothing to draw from.
pub open spec fn fits(draw: Option<usize>, size: nat) -> bool {
    match draw {
        Some(k) => k < size,
        None => size == 0,
    }
}

/// Whether the two draws are draws from the category pool and from the
/// candidates of the category that the first one leads to.
pub open spec fn draws_fit(
    categories: Seq<CategoryView>,
    media: Seq<MediaFileView>,
    memory: Option<LastChoiceView>,
    current: Option<MediaFileView>,
    category_draw: Option<usize>,
    file_draw: Option<usize>,
) -> bool {
    &&& fits(category_draw, category_pool(categories, memory).len())
    &&& match chosen_category(categories, memory, category_draw) {
        Some(category) => fits(file_draw, candidate_pool(media, category, current).len()),
        None => file_draw is None,
    }
}

/// Whether the category table marks `name` as visible.
pub open spec fn is_visible(categories: Seq<CategoryView>, name: Seq<char>) -> bool {
    exists|i: int| drawable(categories, None, i) && categories[i].category == name
}

/// Whether the category table holds a visible category other than `name`.
pub open spec fn has_other_visible(categories: Seq<CategoryView>, name: Seq<char>) -> bool {
    exists|i: int| drawable(categories, Some(name), i)
}

/// Whether the media table holds an item of `category`.
pub open spec fn has_member(media: Seq<MediaFileView>, category: Seq<char>) -> bool {
    exists|j: int| 0 <= j < media.len() && #[trigger] media[j].category == category
}

/// Whether some visible category holds an item.
pub open spec fn visible_has_member(categories: Seq<CategoryView>, media: Seq<
    MediaFileView,
>) -> bool {
    exists|i: int|
        drawable(categories, None, i) && has_member(media, #[trigger] categories[i].category)
}

/// Whether `name` can be the category of the next item.
pub open spec fn may_follow(
    categories: Seq<CategoryView>,
    memory: Option<LastChoiceView>,
    name: Seq<char>,
) -> bool {
    match memory {
        None => is_visible(categories, name),
        Some(last) => if last.times_chosen >= ROTATION_LIMIT && has_other_visible(
            categories,
            last.media_file.category,
        ) {
            is_visible(categories, name) && name != last.media_file.category
        } else {
            name == last.media_file.category
        },
    }
}

/// Whether a next item is found whatever is drawn: some category can
/// follow, and each category that can holds an item.
pub open spec fn selection_certain(
    categories: Seq<CategoryView>,
    media: Seq<MediaFileView>,
    memory: Option<LastChoiceView>,
) -> bool {
    &&& memory is None ==> exists|i: int| drawable(categories, None, i)
    &&& forall|name: Seq<char>| #[trigger]
        may_follow(categories, memory, name) ==> has_member(media, name)
}

spec fn as_ints(indices: Seq<usize>) -> Seq<int> {
    Seq::new(indices.len(), |k: int| indices[k] as int)
}

spec fn name_of(name: Option<&String>) -> Option<Seq<char>> {
    match name {
        Some(text) => Some(text@),
        None => None,
    }
}

fn drawable_rows(categories: &Vec<Category>, avoid: Option<&String>) -> (pool: Vec<usize>)
    ensures
        as_ints(pool@) == matching(category_flags(categories.deep_view(), name_of(avoid))),
{
    let ghost flags = category_flags(categories.deep_view(), name_of(avoid));
    let mut pool: Vec<usize> = Vec::new();
    let mut i: usize = 0;
    while i < categories.len()
        invariant
            i <= categories.len(),
            flags == category_flags(categories.deep_view(), name_of(avoid)),
            as_ints(pool@) == matching(flags.take(i as int)),
        decreases categories.len() - i,
    {
        let row = &categories[i];
        let keep: bool = row.visible && match avoid {
            Some(name) => row.category != *name,
            None => true,
        };
        proof {
            lemma_matching_step(flags, i as int);
        }
        if keep {
            pool.push(i);
        }
        i += 1;
    }
    assert(flags.take(i as int) == flags);
    pool
}

fn category_rows(categories: &Vec<Category>, last_choice: &Option<LastChoice>) -> (pool: Vec<usize>)
    ensures
        as_ints(pool@) == category_pool(categories.deep_view(), last_choice.deep_view()),
{
    match last_choice {
        None => drawable_rows(categories, None),
        Some(last) => if last.times_chosen >= ROTATION_LIMIT {
            drawable_rows(categories, Some(&last.media_file.category))
        } else {
            Vec::new()
        },
    }
}

fn category_from(
    categories: &Vec<Category>,
    last_choice: &Option<LastChoice>,
    pool: &Vec<usize>,
    draw: Option<usize>,
) -> (category: Option<String>)
    requires
        as_ints(pool@) == category_pool(categories.deep_view(), last_choice.deep_view()),
    ensures
        category.deep_view() == chosen_category(
            categories.deep_view(),
            last_choice.deep_view(),
            draw,
        ),
{
    proof {
        lemma_matching(
            category_flags(categories.deep_view(), avoided(last_choice.deep_view())),
        );
    }
    let drawn: Option<usize> = match draw {
        Some(k) => if k < pool.len() {
            Some(pool[k])
        } else {
            None
        },
        None => None,
    };
    match drawn {
        Some(row) => Some(categories[row].category.clone()),
        None => match last_choice {
            Some(last) => Some(last.media_file.category.clone()),
            None => None,
        },
    }
}

fn streak_after(last_choice: &Option<LastChoice>) -> (streak: u32)
    ensures
        streak == next_streak(last_choice.deep_view()),
{
    match last_choice {
        Some(last) => if last.times_chosen >= ROTATION_LIMIT {
            1
        } else {
            last.times_chosen + 1
        },
        None => 1,
    }
}

fn candidates_at(
    media_files: &Vec<MediaFile>,
    category: &String,
    current: &Option<MediaFile>,
    level: u8,
) -> (pool: Vec<usize>)
    ensures
        as_ints(pool@) == matching(
            candidate_flags(
                media_files.deep_view(),
                category@,
                current.deep_view(),
                level as nat,
            ),
        ),
{
    let ghost flags = candidate_flags(
        media_files.deep_view(),
        category@,
        current.deep_view(),
        level as nat,
    );
    let mut pool: Vec<usize> = Vec::new();
    let mut i: usize = 0;
    while i < media_files.len()
        invariant
            i <= media_files.len(),
            flags == candidate_flags(
                media_files.deep_view(),
                category@,
                current.deep_view(),
                level as nat,
            ),
            as_ints(pool@) == matching(flags.take(i as int)),
        decreases media_files.len() - i,
    {
        let file = &media_files[i];
        let fresh: bool = level != 0 || file.played == 0;
        let other: bool = level > 1 || match current {
            Some(playing) => file.path != playing.path,
            None => true,
        };
        let keep: bool = file.category == *category && fresh && other;
        proof {
            lemma_matching_step(flags, i as int);
        }
        if keep {
            pool.push(i);
        }
        i += 1;
    }
    assert(flags.take(i as int) == flags);
    pool
}

fn candidates(media_files: &Vec<MediaFile>, category: &String, current: &Option<MediaFile>) -> (pool:
    Vec<usize>)
    ensures
        as_ints(pool@) == candidate_pool(media_files.deep_view(), category@, current.deep_view()),
{
    let fresh = candidates_at(media_files, category, current, 0);
    if fresh.len() > 0 {
        return fresh;
    }
    let others = candidates_at(media_files, category, current, 1);
    if others.len() > 0 {
        return others;
    }
    candidates_at(media_files, category, current, 2)
}

fn file_from(
    media_files: &Vec<MediaFile>,
    category: &String,
    current: &Option<MediaFile>,
    pool: &Vec<usize>,
    draw: Option<usize>,
) -> (file: Option<MediaFile>)
    requires
        as_ints(pool@) == candidate_pool(media_files.deep_view(), category@, current.deep_view()),
    ensures
        file.deep_view() == chosen_file(
            media_files.deep_view(),
            category@,
            current.deep_view(),
            draw,
        ),
{
    proof {
        lemma_matching(
            candidate_flags(
                media_files.deep_view(),
                category@,
                current.deep_view(),
                relaxation(media_files.deep_view(), category@, current.deep_view()),
            ),
        );
    }
    match draw {
        Some(k) => if k < pool.len() {
            Some(media_files[pool[k]].clone())
        } else {
            None
        },
        None => None,
    }
}

/// The selection that two given draws lead to. A draw that is missing or
/// beyond its pool counts as nothing drawn.
pub fn select_with_draws(
    categories: &Vec<Category>,
    media_files: &Vec<MediaFile>,
    last_choice: &Option<LastChoice>,
    current_media_file: &Option<MediaFile>,
    category_draw: Option<usize>,
    file_draw: Option<usize>,
) -> (chosen: Option<LastChoice>)
    ensures
        chosen.deep_view() == selection(
            categories.deep_view(),
            media_files.deep_view(),
            last_choice.deep_view(),
            current_media_file.deep_view(),
            category_draw,
            file_draw,
        ),
{
    let rows = category_rows(categories, last_choice);
    match category_from(categories, last_choice, &rows, category_draw) {
        Some(category) => {
            let files = candidates(media_files, &category, current_media_file);
            match file_from(media_files, &category, current_media_file, &files, file_draw) {
                Some(file) => Some(
                    LastChoice { media_file: file, times_chosen: streak_after(last_choice) },
                ),
                None => None,
            }
        },
        None => None,
    }
}

/// Whatever is drawn from the category pool, the category it leads to can
/// follow; there is none exactly where nothing was chosen before and no
/// category is visible.
pub proof fn lemma_category_may_follow(
    categories: Seq<CategoryView>,
    memory: Option<LastChoiceView>,
    draw: Option<usize>,
)
    requires
        fits(draw, category_pool(categories, memory).len()),
    ensures
        chosen_category(categories, memory, draw) matches Some(name) ==> may_follow(
            categories,
            memory,
            name,
        ),
        chosen_category(categories, memory, draw) is None <==> memory is None && !exists|i: int|
            drawable(categories, None, i),
{
    let flags = category_flags(categories, avoided(memory));
    lemma_matching(flags);
    if draws_category(memory) {
        match draw {
            Some(k) => {
                assert(drawable(categories, None, category_pool(categories, memory)[k as int]));
            },
            None => {
                assert forall|i: int| !drawable(categories, avoided(memory), i) by {
                    if drawable(categories, avoided(memory), i) {
                        assert(flags[i]);
                    }
                }
            },
        }
    }
}

/// Whatever is drawn from the candidates of `category`, the item it leads
/// to is a row of the media table and a candidate at the least level of
/// relaxation that has one; there is none exactly where the category holds
/// no item.
pub proof fn lemma_file_is_candidate(
    media: Seq<MediaFileView>,
    category: Seq<char>,
    current: Option<MediaFileView>,
    draw: Option<usize>,
)
    requires
        fits(draw, candidate_pool(media, category, current).len()),
    ensures
        chosen_file(media, category, current, draw) matches Some(file) ==> media.contains(file)
            && is_candidate(file, category, current, relaxation(media, category, current)),
        chosen_file(media, category, current, draw) is None <==> !has_member(media, category),
{
    let level = relaxation(media, category, current);
    let flags = candidate_flags(media, category, current, level);
    lemma_matching(flags);
    if draw is None {
        assert forall|j: int| 0 <= j < media.len() implies media[j].category != category by {
            if media[j].category == category {
                assert(flags[j]);
            }
        }
    }
}

/// The next item is never one that was played before, nor the current
/// one, while its category holds an item that is neither; and never the
/// current one while the category holds another.
pub proof fn lemma_fresh_items_first(
    media: Seq<MediaFileView>,
    category: Seq<char>,
    current: Option<MediaFileView>,
    draw: Option<usize>,
    other: int,
)
    requires
        fits(draw, candidate_pool(media, category, current).len()),
        0 <= other < media.len(),
    ensures
        is_candidate(media[other], category, current, 0) ==> (chosen_file(
            media,
            category,
            current,
            draw,
        ) matches Some(file) && is_candidate(file, category, current, 0)),
        is_candidate(media[other], category, current, 1) ==> (chosen_file(
            media,
            category,
            current,
            draw,
        ) matches Some(file) && is_candidate(file, category, current, 1)),
{
    lemma_file_is_candidate(media, category, current, draw);
    let fresh = candidate_flags(media, category, current, 0);
    let others = candidate_flags(media, category, current, 1);
    lemma_matching(fresh);
    lemma_matching(others);
    if is_candidate(media[other], category, current, 0) {
        assert(fresh[other]);
    }
    if is_candidate(media[other], category, current, 1) {
        assert(others[other]);
    }
}

/// The next item belongs to a category that is marked visible, unless no
/// visible category holds an item at all. This is stated of a selection
/// that draws its category, or keeps one that is marked visible: a kept
/// category is not looked up in the table.
pub proof fn lemma_choice_is_visible(
    categories: Seq<CategoryView>,
    media: Seq<MediaFileView>,
    memory: Option<LastChoiceView>,
    current: Option<MediaFileView>,
    category_draw: Option<usize>,
    file_draw: Option<usize>,
)
    requires
        draws_fit(categories, media, memory, current, category_draw, file_draw),
        memory matches Some(last) ==> last.times_chosen >= ROTATION_LIMIT || is_visible(
            categories,
            last.media_file.category,
        ),
    ensures
        selection(categories, media, memory, current, category_draw, file_draw) matches Some(
            choice,
        ) ==> is_visible(categories, choice.media_file.category) || !visible_has_member(
            categories,
            media,
        ),
{
    lemma_category_may_follow(categories, memory, category_draw);
    if let Some(name) = chosen_category(categories, memory, category_draw) {
        lemma_file_is_candidate(media, name, current, file_draw);
        if !is_visible(categories, name) && visible_has_member(categories, media) {
            let i = choose|i: int|
                drawable(categories, None, i) && has_member(media, #[trigger] categories[i].category);
            let last = memory.unwrap();
            assert(!drawable(categories, Some(last.media_file.category), i));
        }
    }
}

/// Once a category has been chosen `ROTATION_LIMIT` times in a row, the
/// next item belongs to another one, whenever another visible one exists.
pub proof fn lemma_rotation_changes_category(
    categories: Seq<CategoryView>,
    media: Seq<MediaFileView>,
    memory: Option<LastChoiceView>,
    current: Option<MediaFileView>,
    category_draw: Option<usize>,
    file_draw: Option<usize>,
)
    requires
        draws_fit(categories, media, memory, current, category_draw, file_draw),
        memory matches Some(last) && last.times_chosen >= ROTATION_LIMIT && has_other_visible(
            categories,
            last.media_file.category,
        ),
    ensures
        chosen_category(categories, memory, category_draw) matches Some(name) && name
            != memory.unwrap().media_file.category,
        selection(categories, media, memory, current, category_draw, file_draw) matches Some(
            choice,
        ) ==> choice.media_file.category != memory.unwrap().media_file.category
            && choice.times_chosen == 1,
{
    lemma_category_may_follow(categories, memory, category_draw);
    let name = chosen_category(categories, memory, category_draw).unwrap();
    lemma_file_is_candidate(media, name, current, file_draw);
}

/// Below `ROTATION_LIMIT` selections in a row the category is kept and the
/// count goes up by one.
pub proof fn lemma_category_is_kept(
    categories: Seq<CategoryView>,
    media: Seq<MediaFileView>,
    memory: Option<LastChoiceView>,
    current: Option<MediaFileView>,
    category_draw: Option<usize>,
    file_draw: Option<usize>,
)
    requires
        draws_fit(categories, media, memory, current, category_draw, file_draw),
        memory matches Some(last) && last.times_chosen < ROTATION_LIMIT,
    ensures
        selection(categories, media, memory, current, category_draw, file_draw) matches Some(
            choice,
        ) ==> choice.media_file.category == memory.unwrap().media_file.category
            && choice.times_chosen == memory.unwrap().times_chosen + 1,
{
    let name = memory.unwrap().media_file.category;
    lemma_file_is_candidate(media, name, current, file_draw);
}

/// A selection fails only where it is not certain.
pub proof fn lemma_certain_selection(
    categories: Seq<CategoryView>,
    media: Seq<MediaFileView>,
    memory: Option<LastChoiceView>,
    current: Option<MediaFileView>,
    category_draw: Option<usize>,
    file_draw: Option<usize>,
)
    requires
        draws_fit(categories, media, memory, current, category_draw, file_draw),
        selection_certain(categories, media, memory),
    ensures
        selection(categories, media, memory, current, category_draw, file_draw) is Some,
{
    lemma_category_may_follow(categories, memory, category_draw);
    let name = chosen_category(categories, memory, category_draw).unwrap();
    lemma_file_is_candidate(media, name, current, file_draw);
}

/// The next item: the category is drawn by `rng` where it is not kept, and
/// the item is drawn by `rng` among the candidates of that category. `None`
/// where nothing was chosen before and no category is visible, and where
/// the category holds no item.
pub fn choose_media_file(
    categories: &Vec<Category>,
    media_files: &Vec<MediaFile>,
    last_choice: &Option<LastChoice>,
    current_media_file: Option<MediaFile>,
    rng: &mut StdRng,
) -> (chosen: Option<LastChoice>)
    ensures
        exists|category_draw: Option<usize>, file_draw: Option<usize>|
            draws_fit(
                categories.deep_view(),
                media_files.deep_view(),
                last_choice.deep_view(),
                current_media_file.deep_view(),
                category_draw,
                file_draw,
            ) && chosen.deep_view() == #[trigger] selection(
                categories.deep_view(),
                media_files.deep_view(),
                last_choice.deep_view(),
                current_media_file.deep_view(),
                category_draw,
                file_draw,
            ),
        chosen matches Some(choice) ==> {
            &&& may_follow(
                categories.deep_view(),
                last_choice.deep_view(),
                choice@.media_file.category,
            )
            &&& choice@.times_chosen == next_streak(last_choice.deep_view())
            &&& media_files.deep_view().contains(choice@.media_file)
            &&& is_candidate(
                choice@.media_file,
                choice@.media_file.category,
                current_media_file.deep_view(),
                relaxation(
                    media_files.deep_view(),
                    choice@.media_file.category,
                    current_media_file.deep_view(),
                ),
            )
        },
        chosen is None ==> !selection_certain(
            categories.deep_view(),
            media_files.deep_view(),
            last_choice.deep_view(),
        ),
        (last_choice.deep_view() matches Some(last) ==> last.times_chosen >= ROTATION_LIMIT
            || is_visible(categories.deep_view(), last.media_file.category)) ==> (chosen matches Some(
            choice,
        ) ==> is_visible(categories.deep_view(), choice@.media_file.category)
            || !visible_has_member(categories.deep_view(), media_files.deep_view())),
        (last_choice.deep_view() matches Some(last) && last.times_chosen >= ROTATION_LIMIT
            && has_other_visible(categories.deep_view(), last.media_file.category)) ==> (
        chosen matches Some(choice) ==> choice@.media_file.category
            != last_choice.unwrap()@.media_file.category),
{
    let rows = category_rows(categories, last_choice);
    let category_draw: Option<usize> = draw_below(rng, rows.len());
    let ghost mut file_draw: Option<usize> = None;
    let chosen = match category_from(categories, last_choice, &rows, category_draw) {
        Some(category) => {
            let files = candidates(media_files, &category, &current_media_file);
            let drawn: Option<usize> = draw_below(rng, files.len());
            proof {
                file_draw = drawn;
            }
            match file_from(media_files, &category, &current_media_file, &files, drawn) {
                Some(file) => Some(
                    LastChoice { media_file: file, times_chosen: streak_after(last_choice) },
                ),
                None => None,
            }
        },
        None => None,
    };
    proof {
        let c = categories.deep_view();
        let m = media_files.deep_view();
        let l = last_choice.deep_view();
        let p = current_media_file.deep_view();
        lemma_category_may_follow(c, l, category_draw);
        if let Some(name) = chosen_category(c, l, category_draw) {
            lemma_file_is_candidate(m, name, p, file_draw);
        }
        if selection_certain(c, m, l) {
            lemma_certain_selection(c, m, l, p, category_draw, file_draw);
        }
        if l matches Some(last) ==> last.times_chosen >= ROTATION_LIMIT || is_visible(
            c,
            last.media_file.category,
        ) {
            lemma_choice_is_visible(c, m, l, p, category_draw, file_draw);
        }
        if l matches Some(last) && last.times_chosen >= ROTATION_LIMIT && has_other_visible(
            c,
            last.media_file.category,
        ) {
            lemma_rotation_changes_category(c, m, l, p, category_draw, file_draw);
        }
    }
    chosen
}

fn holds_item(media_files: &Vec<MediaFile>, category: &String) -> (held: bool)
    ensures
        held == has_member(media_files.deep_view(), category@),
{
    let mut j: usize = 0;
    while j < media_files.len()
        invariant
            j <= media_files.len(),
            forall|k: int| 0 <= k < j ==> media_files.deep_view()[k].category != category@,
        decreases media_files.len() - j,
    {
        if media_files[j].category == *category {
            assert(media_files.deep_view()[j as int].category == category@);
            return true;
        }
        j += 1;
    }
    false
}

fn rows_hold_items(categories: &Vec<Category>, media_files: &Vec<MediaFile>, pool: &Vec<usize>) -> (held:
    bool)
    requires
        forall|k: int| 0 <= k < pool.len() ==> pool[k] < categories.len(),
    ensures
        held == forall|k: int|
            0 <= k < pool.len() ==> has_member(
                media_files.deep_view(),
                #[trigger] categories.deep_view()[pool[k] as int].category,
            ),
{
    let mut k: usize = 0;
    while k < pool.len()
        invariant
            k <= pool.len(),
            forall|k: int| 0 <= k < pool.len() ==> pool[k] < categories.len(),
            forall|h: int|
                0 <= h < k ==> has_member(
                    media_files.deep_view(),
                    #[trigger] categories.deep_view()[pool[h] as int].category,
                ),
        decreases pool.len() - k,
    {
        if !holds_item(media_files, &categories[pool[k]].category) {
            assert(!has_member(
                media_files.deep_view(),
                categories.deep_view()[pool[k as int] as int].category,
            ));
            return false;
        }
        k += 1;
    }
    true
}

/// Whether a next item is found whatever is drawn.
pub fn selection_is_certain(
    categories: &Vec<Category>,
    media_files: &Vec<MediaFile>,
    last_choice: &Option<LastChoice>,
) -> (certain: bool)
    ensures
        certain == selection_certain(
            categories.deep_view(),
            media_files.deep_view(),
            last_choice.deep_view(),
        ),
{
    let ghost c = categories.deep_view();
    let ghost m = media_files.deep_view();
    let ghost l = last_choice.deep_view();
    let ghost flags = category_flags(c, avoided(l));
    let pool = category_rows(categories, last_choice);
    proof {
        lemma_matching(flags);
    }
    if pool.len() > 0 {
        proof {
            assert(as_ints(pool@) == matching(flags));
            assert forall|k: int| 0 <= k < pool.len() implies pool[k] < categories.len()
                && flags[pool[k] as int] by {
                assert(matching(flags)[k] == as_ints(pool@)[k]);
            }
        }
        let held = rows_hold_items(categories, media_files, &pool);
        proof {
            assert(drawable(c, avoided(l), pool[0] as int));
            if held {
                assert forall|name: Seq<char>| #[trigger]
                    may_follow(c, l, name) implies has_member(m, name) by {
                    let i = choose|i: int| drawable(c, None, i) && c[i].category == name;
                    assert(flags[i]);
                    let k = choose|k: int| 0 <= k < pool.len() && matching(flags)[k] == i;
                    assert(pool[k] == i);
                }
            } else {
                let k = choose|k: int|
                    0 <= k < pool.len() && !has_member(m, #[trigger] c[pool[k] as int].category);
                let i = pool[k] as int;
                assert(drawable(c, None, i));
                assert(may_follow(c, l, c[i].category));
            }
        }
        held
    } else {
        match last_choice {
            Some(last) => {
                proof {
                    let name = last@.media_file.category;
                    if last@.times_chosen >= ROTATION_LIMIT {
                        assert forall|i: int| !drawable(c, Some(name), i) by {
                            if drawable(c, Some(name), i) {
                                assert(flags[i]);
                            }
                        }
                    }
                    assert(may_follow(c, l, name));
                }
                holds_item(media_files, &last.media_file.category)
            },
            None => {
                proof {
                    assert forall|i: int| !drawable(c, None, i) by {
                        if drawable(c, None, i) {
                            assert(flags[i]);
                        }
                    }
                }
                false
            },
        }
    }
}

/// The next item, for a caller that cannot go on without one: as
/// `choose_media_file`, where a selection is certain, which
/// `selection_is_certain` tells.
pub fn get_next_song(
    categories: &Vec<Category>,
    media_files: &Vec<MediaFile>,
    last_choice: &Option<LastChoice>,
    current_media_file: Option<MediaFile>,
    rng: &mut StdRng,
) -> (next: LastChoice)
    requires
        selection_certain(
            categories.deep_view(),
            media_files.deep_view(),
            last_choice.deep_view(),
        ),
    ensures
        exists|category_draw: Option<usize>, file_draw: Option<usize>|
            draws_fit(
                categories.deep_view(),
                media_files.deep_view(),
                last_choice.deep_view(),
                current_media_file.deep_view(),
                category_draw,
                file_draw,
            ) && Some(next@) == #[trigger] selection(
                categories.deep_view(),
                media_files.deep_view(),
                last_choice.deep_view(),
                current_media_file.deep_view(),
                category_draw,
                file_draw,
            ),
{
    let chosen = choose_media_file(categories, media_files, last_choice, current_media_file, rng);
    chosen.unwrap()
}

} // verus!

//! The persisted tables: one row per media item, one row per category, and
//! the record of the last selection.

use vstd::prelude::*;
use vstd::string::StringExecFns;

use crate::history::{find_category, named};
use crate::index::lemma_first_match;

verus! {

/// One item of the library, as it stands in the media table.
#[derive(Debug)]
pub struct MediaFile {
    pub path: String,
    pub category: String,
    pub played: u32,
}

/// What a `MediaFile` is in contracts.
pub struct MediaFileView {
    pub path: Seq<char>,
    pub category: Seq<char>,
    pub played: nat,
}

impl View for MediaFile {
    type V = MediaFileView;

    open spec fn view(&self) -> MediaFileView {
        MediaFileView { path: self.path@, category: self.category@, played: self.played as nat }
    }
}

impl Clone for MediaFile {
    fn clone(&self) -> (copy: Self)
        ensures
            copy@ == self@,
    {
        MediaFile {
            path: self.path.clone(),
            category: self.category.clone(),
            played: self.played,
        }
    }
}

/// One row of the category table. Durations are whole seconds.
#[derive(Debug)]
pub struct Category {
    pub category: String,
    pub duration_overall: u64,
    pub current_duration: u64,
    pub count: u32,
    pub visible: bool,
}

/// What a `Category` is in contracts.
pub struct CategoryView {
    pub category: Seq<char>,
    pub duration_overall: nat,
    pub current_duration: nat,
    pub count: nat,
    pub visible: bool,
}

impl View for Category {
    type V = CategoryView;

    open spec fn view(&self) -> CategoryView {
        CategoryView {
            category: self.category@,
            duration_overall: self.duration_overall as nat,
            current_duration: self.current_duration as nat,
            count: self.count as nat,
            visible: self.visible,
        }
    }
}

impl Clone for Category {
    fn clone(&self) -> (copy: Self)
        ensures
            copy@ == self@,
    {
        Category {
            category: self.category.clone(),
            duration_overall: self.duration_overall,
            current_duration: self.current_duration,
            count: self.count,
            visible: self.visible,
        }
    }
}

/// The last item selected and how many selections in a row fell into its
/// category.
#[derive(Debug)]
pub struct LastChoice {
    pub media_file: MediaFile,
    pub times_chosen: u32,
}

/// What a `LastChoice` is in contracts.
pub struct LastChoiceView {
    pub media_file: MediaFileView,
    pub times_chosen: nat,
}

impl View for LastChoice {
    type V = LastChoiceView;

    open spec fn view(&self) -> LastChoiceView {
        LastChoiceView { media_file: self.media_file@, times_chosen: self.times_chosen as nat }
    }
}

impl Clone for LastChoice {
    fn clone(&self) -> (copy: Self)
        ensures
            copy@ == self@,
    {
        LastChoice { media_file: self.media_file.clone(), times_chosen: self.times_chosen }
    }
}

impl DeepView for MediaFile {
    type V = MediaFileView;

    open spec fn deep_view(&self) -> MediaFileView {
        self@
    }
}

impl DeepView for Category {
    type V = CategoryView;

    open spec fn deep_view(&self) -> CategoryView {
        self@
    }
}

impl DeepView for LastChoice {
    type V = LastChoiceView;

    open spec fn deep_view(&self) -> LastChoiceView {
        self@
    }
}

/// The categories of the media table, each once, in the order in which
/// they first occur.
pub open spec fn category_names(media: Seq<MediaFileView>) -> Seq<Seq<char>>
    decreases media.len(),
{
    if media.len() == 0 {
        Seq::empty()
    } else if category_names(media.drop_last()).contains(media.last().category) {
        category_names(media.drop_last())
    } else {
        category_names(media.drop_last()).push(media.last().category)
    }
}

/// How many rows of the media table belong to the category `name`.
pub open spec fn members(media: Seq<MediaFileView>, name: Seq<char>) -> nat
    decreases media.len(),
{
    if media.len() == 0 {
        0
    } else if media.last().category == name {
        members(media.drop_last(), name) + 1
    } else {
        members(media.drop_last(), name)
    }
}

/// The row of a category that has `count` items and has not played yet: it
/// is visible and no time stands to its credit.
pub open spec fn fresh_row(name: Seq<char>, count: nat) -> CategoryView {
    CategoryView {
        category: name,
        duration_overall: 0,
        current_duration: 0,
        count,
        visible: true,
    }
}

/// The category table of a media table: one fresh row for each of its
/// categories, with the number of its items.
pub open spec fn category_table(media: Seq<MediaFileView>) -> Seq<CategoryView> {
    Seq::new(
        category_names(media).len(),
        |i: int| fresh_row(category_names(media)[i], members(media, category_names(media)[i])),
    )
}

proof fn lemma_members(media: Seq<MediaFileView>, name: Seq<char>)
    ensures
        members(media, name) <= media.len(),
        !category_names(media).contains(name) ==> members(media, name) == 0,
    decreases media.len(),
{
    if media.len() > 0 {
        lemma_members(media.drop_last(), name);
        let before = category_names(media.drop_last());
        if !category_names(media).contains(name) {
            if before.contains(name) {
                let k = choose|k: int| 0 <= k < before.len() && before[k] == name;
                assert(category_names(media)[k] == name);
            }
            if media.last().category == name {
                assert(category_names(media)[before.len() as int] == name);
            }
        }
    }
}

proof fn lemma_names_differ(media: Seq<MediaFileView>)
    ensures
        forall|a: int, b: int|
            0 <= a < b < category_names(media).len() ==> category_names(media)[a]
                != category_names(media)[b],
    decreases media.len(),
{
    if media.len() > 0 {
        lemma_names_differ(media.drop_last());
        let before = category_names(media.drop_last());
        let names = category_names(media);
        assert forall|a: int, b: int| 0 <= a < b < names.len() implies names[a] != names[b] by {
            if b < before.len() {
                assert(names[a] == before[a] && names[b] == before[b]);
            } else {
                assert(!before.contains(names[b]));
            }
        }
    }
}

/// The category table of a media table names no category twice, names the
/// category of every item, and names no category without an item.
pub proof fn lemma_category_table(media: Seq<MediaFileView>)
    ensures
        category_table(media).len() <= media.len(),
        forall|a: int, b: int|
            0 <= a < b < category_table(media).len() ==> category_table(media)[a].category
                != category_table(media)[b].category,
        forall|i: int|
            0 <= i < media.len() ==> category_names(media).contains(#[trigger] media[i].category),
        forall|k: int|
            0 <= k < category_table(media).len() ==> 1 <= (#[trigger] category_table(
                media,
            )[k]).count <= media.len(),
    decreases media.len(),
{
    lemma_names_differ(media);
    assert forall|k: int| 0 <= k < category_table(media).len() implies 1 <= (#[trigger] category_table(
        media,
    )[k]).count <= media.len() by {
        let name = category_names(media)[k];
        lemma_members(media, name);
        lemma_named_has_member(media, name);
    }
    if media.len() > 0 {
        let before = media.drop_last();
        lemma_category_table(before);
        assert forall|i: int| 0 <= i < media.len() implies category_names(media).contains(
            #[trigger] media[i].category,
        ) by {
            if i < before.len() {
                let k = choose|k: int|
                    0 <= k < category_names(before).len() && category_names(before)[k]
                        == before[i].category;
                assert(category_names(media)[k] == media[i].category);
            } else if !category_names(before).contains(media.last().category) {
                assert(category_names(media)[category_names(before).len() as int]
                    == media[i].category);
            }
        }
    }
}

proof fn lemma_named_has_member(media: Seq<MediaFileView>, name: Seq<char>)
    requires
        category_names(media).contains(name),
    ensures
        members(media, name) >= 1,
    decreases media.len(),
{
    if media.len() > 0 {
        let before = media.drop_last();
        if media.last().category != name {
            let k = choose|k: int|
                0 <= k < category_names(media).len() && category_names(media)[k] == name;
            assert(category_names(before)[k] == name);
            lemma_named_has_member(before, name);
        }
    }
}

/// The category table that is written beside a media table: one fresh row
/// for each category of `media_files`, in the order in which the categories
/// first occur, with the number of its items.
pub fn write_media_files_to_csv(media_files: &Vec<MediaFile>) -> (categories: Vec<Category>)
    requires
        media_files.len() <= u32::MAX,
    ensures
        categories.deep_view() == category_table(media_files.deep_view()),
{
    let ghost media = media_files.deep_view();
    let mut categories: Vec<Category> = Vec::new();
    let mut i: usize = 0;
    while i < media_files.len()
        invariant
            i <= media_files.len(),
            media_files.len() <= u32::MAX,
            media == media_files.deep_view(),
            categories.deep_view() == category_table(media.take(i as int)),
        decreases media_files.len() - i,
    {
        let file = &media_files[i];
        let ghost seen = media.take(i as int);
        let ghost next = media.take(i + 1);
        let ghost before = categories.deep_view();
        proof {
            assert(next.drop_last() == seen);
            lemma_names_differ(seen);
            lemma_members(seen, file@.category);
            lemma_first_match(named(before, file@.category));
            assert(forall|k: int|
                0 <= k < before.len() ==> before[k].category == category_names(seen)[k]);
        }
        match find_category(&categories, &file.category) {
            Some(k) => {
                let row = &categories[k];
                let raised = Category {
                    category: row.category.clone(),
                    duration_overall: row.duration_overall,
                    current_duration: row.current_duration,
                    count: row.count + 1,
                    visible: row.visible,
                };
                categories.set(k, raised);
            },
            None => {
                assert(!category_names(seen).contains(file@.category)) by {
                    if category_names(seen).contains(file@.category) {
                        let k = choose|k: int|
                            0 <= k < category_names(seen).len() && category_names(seen)[k]
                                == file@.category;
                        assert(named(before, file@.category)[k]);
                    }
                }
                categories.push(
                    Category {
                        category: file.category.clone(),
                        duration_overall: 0,
                        current_duration: 0,
                        count: 1,
                        visible: true,
                    },
                );
            },
        }
        i += 1;
    }
    assert(media.take(i as int) == media);
    categories
}

/// A letter from `A` to `Z` as the letter from `a` to `z`; any other
/// character as it is.
pub open spec fn lowered(c: char) -> char {
    if 'A' <= c && c <= 'Z' {
        ((c as u8) + 32) as char
    } else {
        c
    }
}

/// Whether two texts are the same but for the case of the letters from `A`
/// to `Z`.
pub open spec fn same_ignoring_case(left: Seq<char>, right: Seq<char>) -> bool {
    &&& left.len() == right.len()
    &&& forall|i: int| 0 <= i < left.len() ==> lowered(left[i]) == lowered(right[i])
}

/// Whether a file with this extension is a media file: the extension is
/// `mp4` or `webm`, in any case of the letters.
pub open spec fn is_media(extension: Seq<char>) -> bool {
    same_ignoring_case(extension, "mp4"@) || same_ignoring_case(extension, "webm"@)
}

/// Calls `str::eq_ignore_ascii_case`. Its documentation says that the two
/// strings match when each is taken with its letters `A` to `Z` turned
/// into `a` to `z` and with every other character left as it is.
#[verifier::external_body]
fn matches_ignoring_case(left: &str, right: &str) -> (same: bool)
    ensures
        same == same_ignoring_case(left@, right@),
{
    left.eq_ignore_ascii_case(right)
}

/// Whether a file with this extension is a media file.
pub fn is_media_extension(extension: &str) -> (media: bool)
    ensures
        media == is_media(extension@),
{
    matches_ignoring_case(extension, "mp4") || matches_ignoring_case(extension, "webm")
}

/// Takes a file that was found below the directory of `category` into the
/// media table, as an item that has not played yet, if its extension is
/// that of a media file.
pub fn collect_media_files(
    path: &str,
    extension: &str,
    category: &str,
    media_files: &mut Vec<MediaFile>,
)
    ensures
        final(media_files).deep_view() == if is_media(extension@) {
            old(media_files).deep_view().push(
                MediaFileView { path: path@, category: category@, played: 0 },
            )
        } else {
            old(media_files).deep_view()
        },
{
    if is_media_extension(extension) {
        media_files.push(
            MediaFile {
                path: String::from_str(path),
                category: String::from_str(category),
                played: 0,
            },
        );
    }
}

} // verus!

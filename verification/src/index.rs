//! Indices into a table, picked by a flag for each row.

use vstd::prelude::*;

verus! {

/// The indices at which `flags` holds `true`, in rising order.
pub open spec fn matching(flags: Seq<bool>) -> Seq<int>
    decreases flags.len(),
{
    if flags.len() == 0 {
        Seq::empty()
    } else if flags.last() {
        matching(flags.drop_last()).push(flags.len() - 1)
    } else {
        matching(flags.drop_last())
    }
}

/// Whether `i` is the first index at which `flags` holds `true`.
pub open spec fn is_first(flags: Seq<bool>, i: int) -> bool {
    &&& 0 <= i < flags.len()
    &&& flags[i]
    &&& forall|j: int| 0 <= j < i ==> !flags[j]
}

/// The first index at which `flags` holds `true`, if there is one.
pub open spec fn first_match(flags: Seq<bool>) -> Option<int> {
    if exists|i: int| is_first(flags, i) {
        Some(choose|i: int| is_first(flags, i))
    } else {
        None
    }
}

/// Every index of `matching(flags)` is one at which `flags` holds `true`,
/// each such index is among them, and they rise.
pub proof fn lemma_matching(flags: Seq<bool>)
    ensures
        matching(flags).len() <= flags.len(),
        forall|k: int|
            0 <= k < matching(flags).len() ==> 0 <= #[trigger] matching(flags)[k] < flags.len()
                && flags[matching(flags)[k]],
        forall|i: int| 0 <= i < flags.len() && flags[i] ==> matching(flags).contains(i),
        forall|a: int, b: int|
            0 <= a < b < matching(flags).len() ==> matching(flags)[a] < matching(flags)[b],
    decreases flags.len(),
{
    if flags.len() > 0 {
        let before = flags.drop_last();
        lemma_matching(before);
        assert forall|i: int| 0 <= i < flags.len() && flags[i] implies matching(flags).contains(
            i,
        ) by {
            if i < before.len() {
                assert(before[i]);
                let k = choose|k: int| 0 <= k < matching(before).len() && matching(before)[k] == i;
                assert(matching(flags)[k] == i);
            } else {
                assert(matching(flags)[matching(flags).len() - 1] == i);
            }
        }
    }
}

/// `matching` of one flag more: the index of that flag is added if it holds.
pub proof fn lemma_matching_step(flags: Seq<bool>, i: int)
    requires
        0 <= i < flags.len(),
    ensures
        matching(flags.take(i + 1)) == if flags[i] {
            matching(flags.take(i)).push(i)
        } else {
            matching(flags.take(i))
        },
{
    assert(flags.take(i + 1).drop_last() == flags.take(i));
}

proof fn lemma_first_exists(flags: Seq<bool>, i: int)
    requires
        0 <= i < flags.len(),
        flags[i],
    ensures
        exists|f: int| is_first(flags, f),
    decreases i,
{
    if exists|j: int| 0 <= j < i && flags[j] {
        let j = choose|j: int| 0 <= j < i && flags[j];
        lemma_first_exists(flags, j);
    } else {
        assert(is_first(flags, i));
    }
}

/// `first_match(flags)` is the one index that is first, and there is none
/// only where no flag holds.
pub proof fn lemma_first_match(flags: Seq<bool>)
    ensures
        forall|i: int| is_first(flags, i) ==> first_match(flags) == Some(i),
        first_match(flags) matches Some(i) ==> is_first(flags, i),
        first_match(flags) is None ==> forall|i: int| 0 <= i < flags.len() ==> !flags[i],
{
    if first_match(flags) is None {
        assert forall|i: int| 0 <= i < flags.len() implies !flags[i] by {
            if flags[i] {
                lemma_first_exists(flags, i);
            }
        }
    }
}

} // verus!

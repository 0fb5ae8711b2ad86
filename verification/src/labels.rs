//! Counts and the labels that show them in the workspace's headers and
//! badges.
use vstd::prelude::*;
use crate::text::{decimal_digits, push_decimal_u64};

verus! {

/// The library header's count: singular for one document.
pub open spec fn document_count_text(total: nat) -> Seq<char> {
    if total == 1 {
        "1 document available"@
    } else {
        decimal_digits(total) + " documents available"@
    }
}

/// The label under the library's title for `total` documents.
pub fn document_count_label(total: usize) -> (label: String)
    ensures
        label@ == document_count_text(total as nat),
{
    if total == 1 {
        return String::from_str("1 document available");
    }
    let mut label = String::new();
    push_decimal_u64(&mut label, total as u64);
    label.append(" documents available");
    label
}

/// The chip of a related note: plural only for more than one shared tag.
pub open spec fn shared_tag_text(count: nat) -> Seq<char> {
    if count > 1 {
        decimal_digits(count) + " tags"@
    } else {
        decimal_digits(count) + " tag"@
    }
}

/// The label of the chip that counts a related note's shared tags.
pub fn shared_tag_label(count: usize) -> (label: String)
    ensures
        label@ == shared_tag_text(count as nat),
{
    let mut label = String::new();
    push_decimal_u64(&mut label, count as u64);
    if count > 1 {
        label.append(" tags");
    } else {
        label.append(" tag");
    }
    label
}

/// How many of the flags are set.
pub open spec fn count_true(flags: Seq<bool>) -> nat
    decreases flags.len(),
{
    if flags.len() == 0 {
        0
    } else {
        count_true(flags.drop_last()) + if flags.last() { 1nat } else { 0nat }
    }
}

/// The task view's badge counts, from each task's checked flag: how many
/// are completed and how many are still active.
pub fn task_counts(checked: &Vec<bool>) -> (counts: (usize, usize))
    ensures
        counts.0 == count_true(checked@),
        counts.1 == checked@.len() - count_true(checked@),
{
    let mut completed: usize = 0;
    let mut i: usize = 0;
    while i < checked.len()
        invariant
            0 <= i <= checked.len(),
            completed == count_true(checked@.take(i as int)),
            completed <= i,
        decreases checked.len() - i,
    {
        proof {
            assert(checked@.take(i + 1).drop_last() =~= checked@.take(i as int));
        }
        if checked[i] {
            completed = completed + 1;
        }
        i = i + 1;
    }
    proof {
        assert(checked@.take(i as int) =~= checked@);
    }
    (completed, checked.len() - completed)
}

/// The property count in the editor's header: one for a title, one for a
/// non-empty tag list, and one for each other property.
pub fn editor_property_count(has_title: bool, tag_count: usize, extra_count: usize) -> (count: usize)
    requires
        (if has_title { 1int } else { 0int }) + (if tag_count > 0 { 1int } else { 0int }) + extra_count
            <= usize::MAX,
    ensures
        count == (if has_title { 1int } else { 0int }) + (if tag_count > 0 { 1int } else { 0int }) + extra_count,
{
    (if has_title { 1 } else { 0 }) + (if tag_count > 0 { 1 } else { 0 }) + extra_count
}

/// The property count in the inspector: one for a title, one for each
/// tag, and one for each other property.
pub fn inspector_property_count(has_title: bool, tag_count: usize, extra_count: usize) -> (count: usize)
    requires
        (if has_title { 1int } else { 0int }) + tag_count + extra_count <= usize::MAX,
    ensures
        count == (if has_title { 1int } else { 0int }) + tag_count + extra_count,
{
    (if has_title { 1 } else { 0 }) + tag_count + extra_count
}

/// The indent, in pixels, of a heading of the given level in the outline:
/// twelve per level below the first.
pub fn outline_indent(level: usize) -> (indent: usize)
    requires
        level == 0 || (level - 1) * 12 <= usize::MAX,
    ensures
        indent == (if level == 0 { 0int } else { (level - 1) * 12 }),
{
    level.saturating_sub(1) * 12
}

/// The completed count is the number of checked tasks, and completed and
/// active tasks together are all of them.
pub proof fn lemma_task_counts_split_the_tasks(flags: Seq<bool>)
    ensures
        count_true(flags) == flags.filter(|b: bool| b).len(),
        count_true(flags) <= flags.len(),
    decreases flags.len(),
{
    reveal(Seq::filter);
    if flags.len() > 0 {
        lemma_task_counts_split_the_tasks(flags.drop_last());
    }
}

} // verus!

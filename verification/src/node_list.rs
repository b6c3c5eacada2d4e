//! Editing a list of applied transforms through the node numbers of the
//! tree that shows it: node `0` is the group, node `k + 1` is the element at
//! position `k` of the list.

use vstd::prelude::*;

use crate::pipeline::{element_mut, moved, with_active, PipelineStep, StepView, step_views};
use crate::tree_actions::DirPosition;

verus! {

/// The node number of the group that holds every transform.
pub const GROUP_1_ID: usize = 0;

/// The node number of the first transform of the list.
pub const FIRST_TRANSFORM_ID: usize = 1;

/// The node number, before the drop, of the place a drop at `position`
/// asks for, in a list of `len` elements.
pub open spec fn drop_node(position: DirPosition<usize>, len: int) -> int {
    match position {
        DirPosition::First => 1,
        DirPosition::Before(node_id) => node_id as int,
        DirPosition::After(node_id) => node_id + 1,
        DirPosition::Last => len + 1,
    }
}

/// A drop of node `moved_node` inside the directory `target_dir` at
/// `position` can be carried out without a fault: it is ignored (the group
/// itself, or another directory), or the positions it names lie in the list.
pub open spec fn move_is_valid(
    moved_node: usize,
    target_dir: usize,
    position: DirPosition<usize>,
    len: int,
) -> bool {
    moved_node == GROUP_1_ID || target_dir != GROUP_1_ID || {
        let source: int = moved_node - 1;
        let target: int = drop_node(position, len) - 1;
        &&& drop_node(position, len) <= usize::MAX
        &&& 0 <= target
        &&& (source == target || (source < target && target <= len) || (target < source
            && source < len))
    }
}

/// The list after the drop: unchanged when the drop is ignored or names the
/// element's own place; otherwise the element at `source` goes to `target`,
/// or, when `target` lies after it, to `target - 1`.
pub open spec fn after_move<A>(
    moved_node: usize,
    target_dir: usize,
    position: DirPosition<usize>,
    s: Seq<A>,
) -> Seq<A> {
    if moved_node == GROUP_1_ID || target_dir != GROUP_1_ID {
        s
    } else {
        let source: int = moved_node - 1;
        let target: int = drop_node(position, s.len() as int) - 1;
        if source == target {
            s
        } else if source < target {
            moved(s, source, target - 1)
        } else {
            moved(s, source, target)
        }
    }
}

/// Exchanges the elements at `i` and `i + 1`.
fn swap_adjacent<T>(s: &mut [T], i: usize)
    requires
        i + 1 < old(s)@.len(),
    ensures
        final(s)@ == old(s)@.update(i as int, old(s)@[i + 1]).update(i + 1, old(s)@[i as int]),
{
    let len: usize = s.len();
    assert(i + 1 < len);
    let (left, right) = s.split_at_mut(i + 1);
    let a = left.last_mut().unwrap();
    let b = right.first_mut().unwrap();
    std::mem::swap(a, b);
}

/// Exchanging the moved element with its right neighbour moves it one place
/// further.
proof fn lemma_move_one_further<A>(b: Seq<A>, source: int, k: int)
    requires
        0 <= source <= k,
        k + 1 < b.len(),
    ensures
        ({
            let m = moved(b, source, k);
            m.update(k, m[k + 1]).update(k + 1, m[k])
        }) == moved(b, source, k + 1),
{
    let m = moved(b, source, k);
    let n = moved(b, source, k + 1);
    let r = b.remove(source);
    assert(m[k] == b[source]);
    assert(m[k + 1] == r[k]);
    assert(n[k] == r[k]);
    assert(n[k + 1] == b[source]);
    assert(m.update(k, m[k + 1]).update(k + 1, m[k]) =~= n);
}

/// Moves the element shown as node `moved_node_idx` to the place of a drop at
/// `position_in_target_dir` inside the directory `target_dir`. Drops of the
/// group itself, and drops into another directory, are ignored.
pub fn move_transform<T>(
    moved_node_idx: usize,
    target_dir: usize,
    position_in_target_dir: DirPosition<usize>,
    transforms: &mut [T],
)
    requires
        move_is_valid(
            moved_node_idx,
            target_dir,
            position_in_target_dir,
            old(transforms)@.len() as int,
        ),
    ensures
        final(transforms)@ == after_move(
            moved_node_idx,
            target_dir,
            position_in_target_dir,
            old(transforms)@,
        ),
{
    if moved_node_idx == GROUP_1_ID || target_dir != GROUP_1_ID {
        return;
    }
    let applied_vec_source_idx: usize = moved_node_idx - 1;
    let target_node: usize = match position_in_target_dir {
        DirPosition::First => 1,
        DirPosition::Before(node_id) => node_id,
        DirPosition::After(node_id) => node_id + 1,
        DirPosition::Last => transforms.len() + 1,
    };
    let applied_vec_target_idx: usize = target_node - 1;
    if applied_vec_source_idx == applied_vec_target_idx {
        return;
    }
    let ghost before = transforms@;
    let ghost source: int = applied_vec_source_idx as int;
    assert(moved(before, source, source) =~= before);
    let mut k: usize = applied_vec_source_idx;
    if applied_vec_source_idx < applied_vec_target_idx {
        // The element travels right, one place at a time, to just before the target.
        while k + 1 < applied_vec_target_idx
            invariant
                source == applied_vec_source_idx,
                source <= k < applied_vec_target_idx <= before.len(),
                transforms@.len() == before.len(),
                transforms@ == moved(before, source, k as int),
            decreases applied_vec_target_idx - k,
        {
            swap_adjacent(transforms, k);
            proof {
                lemma_move_one_further(before, source, k as int);
            }
            k = k + 1;
        }
    } else {
        // The element travels left, one place at a time, to the target.
        while k > applied_vec_target_idx
            invariant
                applied_vec_target_idx <= k <= source < before.len(),
                transforms@.len() == before.len(),
                transforms@ == moved(before, source, k as int),
            decreases k,
        {
            swap_adjacent(transforms, k - 1);
            assert(transforms@ =~= moved(before, source, k - 1));
            k = k - 1;
        }
    }
}

/// A node number names the group or an element of a list of `len`.
pub open spec fn node_is_valid(node_id: usize, len: int) -> bool {
    node_id == GROUP_1_ID || node_id - FIRST_TRANSFORM_ID < len
}

/// The position in the list of the element shown as `node_id`; `None` for
/// the group.
pub fn node_index(node_id: usize) -> (res: Option<usize>)
    ensures
        node_id == GROUP_1_ID ==> res is None,
        node_id != GROUP_1_ID ==> res == Some((node_id - FIRST_TRANSFORM_ID) as usize),
{
    if node_id == GROUP_1_ID {
        None
    } else {
        Some(node_id - FIRST_TRANSFORM_ID)
    }
}

/// The list with the flag of the element shown as `node_id` set to `active`
/// (unchanged for the group).
pub open spec fn with_node_flag<T>(s: Seq<StepView<T>>, node_id: usize, active: bool) -> Seq<
    StepView<T>,
> {
    if node_id == GROUP_1_ID {
        s
    } else {
        with_active(s, node_id - FIRST_TRANSFORM_ID, active)
    }
}

/// Sets the flag of the element at `index`.
fn set_flag_at<T>(transforms: &mut [PipelineStep<T>], index: usize, active: bool)
    requires
        index < old(transforms)@.len(),
    ensures
        step_views(final(transforms)@) == with_active(
            step_views(old(transforms)@),
            index as int,
            active,
        ),
{
    let step = element_mut(transforms, index);
    if active {
        step.activate();
    } else {
        step.deactivate();
    }
    assert(step_views(transforms@) =~= with_active(
        step_views(old(transforms)@),
        index as int,
        active,
    ));
}

/// Switches the element shown as `node_id` on if it was off and off if it
/// was on; the group is left alone.
pub fn toggle_transform_active<T>(node_id: usize, transforms: &mut [PipelineStep<T>])
    requires
        node_is_valid(node_id, old(transforms)@.len() as int),
    ensures
        node_id == GROUP_1_ID ==> final(transforms)@ == old(transforms)@,
        node_id != GROUP_1_ID ==> step_views(final(transforms)@) == with_active(
            step_views(old(transforms)@),
            node_id - FIRST_TRANSFORM_ID,
            !old(transforms)@[node_id - FIRST_TRANSFORM_ID]@.2,
        ),
{
    if let Some(index) = node_index(node_id) {
        let active: bool = transforms[index].is_active();
        set_flag_at(transforms, index, !active);
    }
}

/// Switches the element shown as `node_id` on; the group is left alone.
pub fn activate_transform<T>(node_id: usize, transforms: &mut [PipelineStep<T>])
    requires
        node_is_valid(node_id, old(transforms)@.len() as int),
    ensures
        step_views(final(transforms)@) == with_node_flag(step_views(old(transforms)@), node_id, true),
{
    if let Some(index) = node_index(node_id) {
        set_flag_at(transforms, index, true);
    }
}

/// Switches the element shown as `node_id` off; the group is left alone.
pub fn deactivate_transform<T>(node_id: usize, transforms: &mut [PipelineStep<T>])
    requires
        node_is_valid(node_id, old(transforms)@.len() as int),
    ensures
        step_views(final(transforms)@) == with_node_flag(
            step_views(old(transforms)@),
            node_id,
            false,
        ),
{
    if let Some(index) = node_index(node_id) {
        set_flag_at(transforms, index, false);
    }
}

/// Deletes the element shown as `node_id`; the group is left alone.
pub fn delete_transform<T>(node_id: usize, transforms: &mut Vec<T>)
    requires
        node_is_valid(node_id, old(transforms)@.len() as int),
    ensures
        node_id == GROUP_1_ID ==> final(transforms)@ == old(transforms)@,
        node_id != GROUP_1_ID ==> final(transforms)@ == old(transforms)@.remove(
            node_id - FIRST_TRANSFORM_ID,
        ),
{
    if node_id != GROUP_1_ID {
        let vec_idx: usize = node_id - FIRST_TRANSFORM_ID;
        transforms.remove(vec_idx);
    }
}

/// A drop inside the group of the element shown as node `moved_node_idx`
/// (at `s = moved_node_idx - 1`) lands it at the place the drop names, `t`:
/// the first place, the last place, just before node `n` (place `n - 1`) or
/// just after it (place `n`). The element is taken out and put back at `t`,
/// counted without the element itself when `t` lies after it; a drop at its
/// own place changes nothing.
pub proof fn law_drop_in_group_lands_the_element<A>(
    moved_node_idx: usize,
    position: DirPosition<usize>,
    list: Seq<A>,
    t: int,
)
    requires
        1 <= moved_node_idx <= list.len(),
        0 <= t <= list.len(),
        match position {
            DirPosition::First => t == 0,
            DirPosition::Last => t == list.len(),
            DirPosition::Before(n) => t == n - 1,
            DirPosition::After(n) => t == n,
        },
    ensures
        ({
            let s: int = moved_node_idx - 1;
            let f: int = if t > s {
                t - 1
            } else {
                t
            };
            after_move(moved_node_idx, GROUP_1_ID, position, list) == if t == s {
                list
            } else {
                list.remove(s).insert(f, list[s])
            }
        }),
{
}

/// Drops of the group itself, and drops into another directory, leave the
/// list as it is.
pub proof fn law_ignored_drop_changes_nothing<A>(
    moved_node_idx: usize,
    target_dir: usize,
    position: DirPosition<usize>,
    list: Seq<A>,
)
    requires
        moved_node_idx == GROUP_1_ID || target_dir != GROUP_1_ID,
    ensures
        after_move(moved_node_idx, target_dir, position, list) == list,
{
}

} // verus!

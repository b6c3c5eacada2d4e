//! What the tree of applied transforms does with the user's actions: drag a
//! step to another place, activate (double click) a step, or pick an entry of
//! its context menu.

use vstd::prelude::*;

use crate::pipeline::{
    first_index, has_id, is_first_with_id, lemma_first_index, move_step_outcome, step_views,
    with_flag_of, with_flag_switched, without_id, Pipeline, StepView,
};

verus! {

/// Where, inside a directory of the tree, dragged nodes are dropped.
#[derive(Clone, Copy, Debug, PartialEq, Eq)]
pub enum DirPosition<N> {
    /// At the first place of the directory.
    First,
    /// At the last place of the directory.
    Last,
    /// Right after the given node.
    After(N),
    /// Right before the given node.
    Before(N),
}

/// A node of the tree of applied transforms: the one group, or a step.
#[derive(Clone, Copy, Debug, PartialEq, Eq, Hash, Structural)]
pub enum AppliedTransformNodeId {
    Root,
    Step(u128),
}

/// An entry of a step's context menu, with the step it was picked for.
#[derive(Clone, Copy, Debug, PartialEq, Eq, Structural)]
pub enum TransformContextAction {
    Enable(u128),
    Disable(u128),
    Delete(u128),
}

/// An action reported by the tree, reduced to what is acted upon: for a
/// drop, the first dragged node, the directory and the place; for an
/// activation, the first activated node.
#[derive(Debug)]
pub enum TreeAction {
    Move {
        source: Option<AppliedTransformNodeId>,
        target: AppliedTransformNodeId,
        position: DirPosition<AppliedTransformNodeId>,
    },
    Activate { selected: Option<AppliedTransformNodeId> },
    Other,
}

/// The position in the pipeline that a drop at `position` inside the
/// directory `target_dir` asks for, or `None` when the drop is refused.
pub open spec fn drop_target_index<T>(
    target_dir: AppliedTransformNodeId,
    position: DirPosition<AppliedTransformNodeId>,
    steps: Seq<StepView<T>>,
) -> Option<int> {
    match target_dir {
        AppliedTransformNodeId::Step(_) => None,
        AppliedTransformNodeId::Root => match position {
            DirPosition::First => Some(0),
            DirPosition::Last => Some(steps.len() as int),
            DirPosition::Before(AppliedTransformNodeId::Step(id)) => if has_id(steps, id) {
                Some(first_index(steps, id))
            } else {
                None
            },
            DirPosition::After(AppliedTransformNodeId::Step(id)) => if has_id(steps, id) {
                Some(first_index(steps, id) + 1)
            } else {
                None
            },
            DirPosition::Before(AppliedTransformNodeId::Root) => None,
            DirPosition::After(AppliedTransformNodeId::Root) => None,
        },
    }
}

/// The step identifier that a drop position refers to (zero when none).
pub open spec fn id_of_position(position: DirPosition<AppliedTransformNodeId>) -> u128 {
    match position {
        DirPosition::Before(AppliedTransformNodeId::Step(id)) => id,
        DirPosition::After(AppliedTransformNodeId::Step(id)) => id,
        _ => 0,
    }
}

/// The position of the first step whose identifier is `id`.
pub fn step_index<T>(pipeline: &Pipeline<T>, id: u128) -> (res: Option<usize>)
    ensures
        match res {
            Some(i) => is_first_with_id(pipeline@, id, i as int),
            None => !has_id(pipeline@, id),
        },
{
    let steps = pipeline.steps();
    let ghost view = pipeline@;
    let n: usize = steps.len();
    let mut i: usize = 0;
    while i < n
        invariant
            step_views(steps@) == view,
            view == pipeline@,
            n == steps@.len(),
            0 <= i <= n,
            forall|j: int| 0 <= j < i ==> #[trigger] view[j].0 != id,
        decreases n - i,
    {
        assert(view[i as int] == steps@[i as int]@);
        if steps[i].id() == id {
            return Some(i);
        }
        i = i + 1;
    }
    None
}

/// The position in the pipeline that a drop asks for: `None` when the drop
/// is not in the group, is next to the group itself, or is next to a step
/// that is not in the pipeline.
pub fn target_index_for_position<T>(
    target_dir: AppliedTransformNodeId,
    position_in_target_dir: DirPosition<AppliedTransformNodeId>,
    pipeline: &Pipeline<T>,
) -> (res: Option<usize>)
    ensures
        match drop_target_index(target_dir, position_in_target_dir, pipeline@) {
            Some(i) => res is Some && res->0 as int == i,
            None => res is None,
        },
{
    proof {
        lemma_first_index(pipeline@, id_of_position(position_in_target_dir));
    }
    match target_dir {
        AppliedTransformNodeId::Step(_) => {
            return None;
        },
        AppliedTransformNodeId::Root => {},
    }
    match position_in_target_dir {
        DirPosition::First => Some(0),
        DirPosition::Before(AppliedTransformNodeId::Step(id)) => {
            step_index(pipeline, id)
        },
        DirPosition::After(AppliedTransformNodeId::Step(id)) => {
            let len: usize = pipeline.len();
            match step_index(pipeline, id) {
                Some(i) => {
                    assert(i < len);
                    Some(i + 1)
                },
                None => None,
            }
        },
        DirPosition::Last => Some(pipeline.len()),
        DirPosition::Before(AppliedTransformNodeId::Root) => None,
        DirPosition::After(AppliedTransformNodeId::Root) => None,
    }
}

/// The steps after a context-menu entry is carried out.
pub open spec fn after_context_action<T>(
    steps: Seq<StepView<T>>,
    action: TransformContextAction,
) -> Seq<StepView<T>> {
    match action {
        TransformContextAction::Enable(id) => with_flag_of(steps, id, true),
        TransformContextAction::Disable(id) => with_flag_of(steps, id, false),
        TransformContextAction::Delete(id) => without_id(steps, id),
    }
}

/// Carries out a context-menu entry: switches the step on or off, or
/// deletes it. A step that is not in the pipeline is left alone.
pub fn apply_action<T>(action: &TransformContextAction, pipeline: &mut Pipeline<T>)
    ensures
        final(pipeline)@ == after_context_action(old(pipeline)@, *action),
{
    match *action {
        TransformContextAction::Enable(step_id) => {
            pipeline.activate(step_id);
        },
        TransformContextAction::Disable(step_id) => {
            pipeline.deactivate(step_id);
        },
        TransformContextAction::Delete(step_id) => {
            pipeline.remove(step_id);
        },
    }
}

/// The steps after a tree action, and whether the pipeline is to be
/// considered changed.
pub open spec fn after_tree_action<T>(steps: Seq<StepView<T>>, action: TreeAction) -> (
    Seq<StepView<T>>,
    bool,
) {
    match action {
        TreeAction::Move { source, target, position } => match source {
            Some(AppliedTransformNodeId::Step(id)) => match drop_target_index(
                target,
                position,
                steps,
            ) {
                Some(t) => move_step_outcome(steps, id, t),
                None => (steps, false),
            },
            _ => (steps, false),
        },
        TreeAction::Activate { selected } => match selected {
            Some(AppliedTransformNodeId::Step(id)) => (with_flag_switched(steps, id), true),
            _ => (steps, false),
        },
        TreeAction::Other => (steps, false),
    }
}

/// Carries out an action of the tree: a drop of a step moves it to the
/// place it was dropped at; an activation switches the step on or off.
/// Returns whether the pipeline is to be considered changed.
pub fn apply_tree_action<T>(action: &TreeAction, pipeline: &mut Pipeline<T>) -> (changed: bool)
    ensures
        (final(pipeline)@, changed) == after_tree_action(old(pipeline)@, *action),
{
    match action {
        TreeAction::Move { source, target, position } => {
            if let Some(AppliedTransformNodeId::Step(source)) = source {
                match target_index_for_position(*target, *position, pipeline) {
                    Some(target_index) => pipeline.move_step(*source, target_index),
                    None => false,
                }
            } else {
                false
            }
        },
        TreeAction::Activate { selected } => {
            if let Some(AppliedTransformNodeId::Step(step_id)) = selected {
                pipeline.toggle(*step_id);
                true
            } else {
                false
            }
        },
        TreeAction::Other => false,
    }
}

/// The steps after the tree's actions, carried out in order, and whether
/// any of them changed the pipeline.
pub open spec fn after_tree_actions<T>(steps: Seq<StepView<T>>, actions: Seq<TreeAction>) -> (
    Seq<StepView<T>>,
    bool,
)
    decreases actions.len(),
{
    if actions.len() == 0 {
        (steps, false)
    } else {
        let (before_last, changed) = after_tree_actions(steps, actions.drop_last());
        let (after_last, changed_last) = after_tree_action(before_last, actions.last());
        (after_last, changed || changed_last)
    }
}

/// The steps after the context-menu entries, carried out in order.
pub open spec fn after_context_actions<T>(
    steps: Seq<StepView<T>>,
    actions: Seq<TransformContextAction>,
) -> Seq<StepView<T>>
    decreases actions.len(),
{
    if actions.len() == 0 {
        steps
    } else {
        after_context_action(after_context_actions(steps, actions.drop_last()), actions.last())
    }
}

/// Carries out what the user did with the tree during one frame: first the
/// tree's own actions, then the context-menu entries that were picked.
/// Returns whether the pipeline is to be considered changed: a tree action
/// said so, or some context-menu entry was picked.
pub fn apply_tree_view_actions<T>(
    actions: &Vec<TreeAction>,
    context_actions: &Vec<TransformContextAction>,
    pipeline: &mut Pipeline<T>,
) -> (changed: bool)
    ensures
        final(pipeline)@ == after_context_actions(
            after_tree_actions(old(pipeline)@, actions@).0,
            context_actions@,
        ),
        changed == (after_tree_actions(old(pipeline)@, actions@).1 || context_actions@.len() > 0),
{
    let mut changed: bool = false;
    let n: usize = actions.len();
    let mut i: usize = 0;
    while i < n
        invariant
            n == actions@.len(),
            0 <= i <= n,
            (pipeline@, changed) == after_tree_actions(old(pipeline)@, actions@.take(i as int)),
        decreases n - i,
    {
        assert(actions@.take(i + 1).drop_last() == actions@.take(i as int));
        let changed_now: bool = apply_tree_action(&actions[i], pipeline);
        changed = changed || changed_now;
        i = i + 1;
    }
    assert(actions@.take(n as int) == actions@);
    let ghost after_tree = pipeline@;
    let m: usize = context_actions.len();
    let mut k: usize = 0;
    while k < m
        invariant
            m == context_actions@.len(),
            0 <= k <= m,
            pipeline@ == after_context_actions(after_tree, context_actions@.take(k as int)),
        decreases m - k,
    {
        assert(context_actions@.take(k + 1).drop_last() == context_actions@.take(k as int));
        apply_action(&context_actions[k], pipeline);
        k = k + 1;
    }
    assert(context_actions@.take(m as int) == context_actions@);
    changed || m > 0
}

/// A double-click on a step switches it: when the step with `id` first
/// stands at `i`, its flag is negated, nothing else changes, and the
/// pipeline is reported changed.
pub proof fn law_activation_switches_the_step<T>(steps: Seq<StepView<T>>, id: u128, i: int)
    requires
        0 <= i < steps.len(),
        steps[i].0 == id,
        forall|j: int| 0 <= j < i ==> steps[j].0 != id,
    ensures
        after_tree_action(
            steps,
            TreeAction::Activate { selected: Some(AppliedTransformNodeId::Step(id)) },
        ) == (steps.update(i, (steps[i].0, steps[i].1, !steps[i].2)), true),
{
    assert(is_first_with_id(steps, id, i));
    lemma_first_index(steps, id);
}

/// A drop of the step with `id` (first at `i`) inside the group lands it at
/// the place the drop names: `t` is the first place, the last place, or the
/// place just before or just after the step it was dropped next to. The
/// step is taken out and put back at `t`, counted without the step itself
/// when `t` lies after it; the pipeline is reported changed exactly when
/// that place differs from `i`.
pub proof fn law_drop_lands_the_step<T>(
    steps: Seq<StepView<T>>,
    id: u128,
    i: int,
    position: DirPosition<AppliedTransformNodeId>,
    t: int,
)
    requires
        0 <= i < steps.len(),
        steps[i].0 == id,
        forall|j: int| 0 <= j < i ==> steps[j].0 != id,
        match position {
            DirPosition::First => t == 0,
            DirPosition::Last => t == steps.len(),
            DirPosition::Before(AppliedTransformNodeId::Step(x)) => 0 <= t < steps.len()
                && steps[t].0 == x && forall|j: int| 0 <= j < t ==> steps[j].0 != x,
            DirPosition::After(AppliedTransformNodeId::Step(x)) => 1 <= t <= steps.len()
                && steps[t - 1].0 == x && forall|j: int| 0 <= j < t - 1 ==> steps[j].0 != x,
            _ => false,
        },
    ensures
        ({
            let f: int = if t > i {
                t - 1
            } else {
                t
            };
            after_tree_action(
                steps,
                TreeAction::Move {
                    source: Some(AppliedTransformNodeId::Step(id)),
                    target: AppliedTransformNodeId::Root,
                    position,
                },
            ) == if f == i {
                (steps, false)
            } else {
                (steps.remove(i).insert(f, steps[i]), true)
            }
        }),
{
    assert(is_first_with_id(steps, id, i));
    lemma_first_index(steps, id);
    match position {
        DirPosition::Before(AppliedTransformNodeId::Step(x)) => {
            assert(is_first_with_id(steps, x, t));
            lemma_first_index(steps, x);
        },
        DirPosition::After(AppliedTransformNodeId::Step(x)) => {
            assert(is_first_with_id(steps, x, t - 1));
            lemma_first_index(steps, x);
        },
        _ => {},
    }
    crate::pipeline::law_move_step_moves_the_step(steps, id, i, t);
}

/// A drop onto another directory than the group, or of the group itself,
/// changes nothing and is not reported as a change.
pub proof fn law_refused_drop_changes_nothing<T>(
    steps: Seq<StepView<T>>,
    source: Option<AppliedTransformNodeId>,
    target: AppliedTransformNodeId,
    position: DirPosition<AppliedTransformNodeId>,
)
    requires
        !(source matches Some(AppliedTransformNodeId::Step(_))) || target
            != AppliedTransformNodeId::Root,
    ensures
        after_tree_action(steps, TreeAction::Move { source, target, position }) == (steps, false),
{
}

/// A tree action that changes the steps reports a change.
pub proof fn law_tree_action_reports_its_change<T>(steps: Seq<StepView<T>>, action: TreeAction)
    ensures
        after_tree_action(steps, action).0 != steps ==> after_tree_action(steps, action).1,
{
}

/// A frame of one tree action does what that action does and reports what
/// it reports.
pub proof fn law_one_action_frame<T>(steps: Seq<StepView<T>>, action: TreeAction)
    ensures
        after_tree_actions(steps, seq![action]) == after_tree_action(steps, action),
{
    let one = seq![action];
    assert(one.drop_last() =~= Seq::<TreeAction>::empty());
    assert(one.last() == action);
    assert(after_tree_actions(steps, one.drop_last()) == (steps, false));
}

/// A frame of tree actions carries them out one after another, and reports
/// a change as soon as one of them reports one.
pub proof fn law_frame_reports_every_change<T>(steps: Seq<StepView<T>>, actions: Seq<TreeAction>)
    ensures
        forall|k: int|
            0 <= k < actions.len() && #[trigger] after_tree_action(
                after_tree_actions(steps, actions.take(k)).0,
                actions[k],
            ).1 ==> after_tree_actions(steps, actions).1,
    decreases actions.len(),
{
    if actions.len() > 0 {
        let rest = actions.drop_last();
        law_frame_reports_every_change(steps, rest);
        assert forall|k: int|
            0 <= k < actions.len() && #[trigger] after_tree_action(
                after_tree_actions(steps, actions.take(k)).0,
                actions[k],
            ).1 implies after_tree_actions(steps, actions).1 by {
            if k < actions.len() - 1 {
                assert(actions.take(k) =~= rest.take(k));
                assert(actions[k] == rest[k]);
            } else {
                assert(actions.take(k) =~= rest);
            }
        }
    }
}

/// A frame of tree actions that changes the steps reports a change.
pub proof fn law_frame_reports_its_change<T>(steps: Seq<StepView<T>>, actions: Seq<TreeAction>)
    ensures
        after_tree_actions(steps, actions).0 != steps ==> after_tree_actions(steps, actions).1,
    decreases actions.len(),
{
    if actions.len() > 0 {
        let rest = actions.drop_last();
        law_frame_reports_its_change(steps, rest);
        law_tree_action_reports_its_change(after_tree_actions(steps, rest).0, actions.last());
    }
}

/// One frame of the tree view that changes the pipeline, by tree actions or
/// by context-menu entries, is reported as a change.
pub proof fn law_view_frame_reports_its_change<T>(
    steps: Seq<StepView<T>>,
    actions: Seq<TreeAction>,
    context_actions: Seq<TransformContextAction>,
)
    ensures
        after_context_actions(after_tree_actions(steps, actions).0, context_actions) != steps
            ==> (after_tree_actions(steps, actions).1 || context_actions.len() > 0),
{
    law_frame_reports_its_change(steps, actions);
}

/// The context-menu entries act on the first step with their identifier:
/// "enable" switches it on, "disable" switches it off, "delete" takes it
/// out; the other steps stay as they are.
pub proof fn law_context_entries_act_on_the_step<T>(steps: Seq<StepView<T>>, id: u128, i: int)
    requires
        0 <= i < steps.len(),
        steps[i].0 == id,
        forall|j: int| 0 <= j < i ==> steps[j].0 != id,
    ensures
        after_context_action(steps, TransformContextAction::Enable(id)) == steps.update(
            i,
            (steps[i].0, steps[i].1, true),
        ),
        after_context_action(steps, TransformContextAction::Disable(id)) == steps.update(
            i,
            (steps[i].0, steps[i].1, false),
        ),
        after_context_action(steps, TransformContextAction::Delete(id)) == steps.remove(i),
{
    crate::pipeline::law_set_flag_sets_the_flag(steps, id, i, true);
    crate::pipeline::law_set_flag_sets_the_flag(steps, id, i, false);
    crate::pipeline::law_remove_takes_out_the_first(steps, id, i);
}

/// A context-menu entry for a step that is not in the pipeline changes
/// nothing.
pub proof fn law_context_entry_for_absent_step<T>(
    steps: Seq<StepView<T>>,
    action: TransformContextAction,
)
    requires
        forall|j: int|
            0 <= j < steps.len() ==> steps[j].0 != match action {
                TransformContextAction::Enable(id) => id,
                TransformContextAction::Disable(id) => id,
                TransformContextAction::Delete(id) => id,
            },
    ensures
        after_context_action(steps, action) == steps,
{
}

} // verus!

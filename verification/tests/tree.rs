use dip_visualizer::node_list::{
    activate_transform, deactivate_transform, delete_transform, move_transform,
    toggle_transform_active,
};
use dip_visualizer::pipeline::{Pipeline, PipelineStep};
use dip_visualizer::tree_actions::{
    apply_action, apply_tree_action, apply_tree_view_actions, step_index, target_index_for_position,
    AppliedTransformNodeId, DirPosition, TransformContextAction, TreeAction,
};

fn make_test_transforms() -> Vec<usize> {
    vec![1, 2, 3, 4]
}

#[test]
fn move_transform_first() {
    let moved_node_idx = 4;

    let mut transforms = make_test_transforms();
    move_transform(moved_node_idx, 0, DirPosition::First, &mut transforms);

    let mut expected = make_test_transforms();
    expected
        .get_mut(0..moved_node_idx)
        .expect("Выход за границы вектора")
        .rotate_right(1);

    assert_eq!(transforms, expected);
}

#[test]
fn move_transform_forward_and_last() {
    let mut transforms = make_test_transforms();
    // Node 1 (element 0) dropped before node 3 (element 2).
    move_transform(1, 0, DirPosition::Before(3), &mut transforms);
    assert_eq!(transforms, vec![2, 1, 3, 4]);

    let mut transforms = make_test_transforms();
    move_transform(2, 0, DirPosition::Last, &mut transforms);
    assert_eq!(transforms, vec![1, 3, 4, 2]);

    let mut transforms = make_test_transforms();
    move_transform(4, 0, DirPosition::After(1), &mut transforms);
    assert_eq!(transforms, vec![1, 4, 2, 3]);
}

#[test]
fn move_transform_ignores_the_group_and_other_dirs() {
    let mut transforms = make_test_transforms();
    move_transform(0, 0, DirPosition::First, &mut transforms);
    move_transform(2, 3, DirPosition::First, &mut transforms);
    move_transform(2, 0, DirPosition::Before(2), &mut transforms);
    assert_eq!(transforms, make_test_transforms());
}

fn steps(flags: &[bool]) -> Vec<PipelineStep<u8>> {
    flags
        .iter()
        .enumerate()
        .map(|(k, &active)| PipelineStep::from_parts(k as u128 + 10, k as u8, active))
        .collect()
}

fn flags_of(steps: &[PipelineStep<u8>]) -> Vec<bool> {
    steps.iter().map(|s| s.is_active()).collect()
}

#[test]
fn node_flags_and_delete() {
    let mut list = steps(&[true, true, false]);
    toggle_transform_active(1, &mut list);
    assert_eq!(flags_of(&list), vec![false, true, false]);
    toggle_transform_active(0, &mut list);
    assert_eq!(flags_of(&list), vec![false, true, false]);
    activate_transform(3, &mut list);
    assert_eq!(flags_of(&list), vec![false, true, true]);
    deactivate_transform(2, &mut list);
    assert_eq!(flags_of(&list), vec![false, false, true]);
    deactivate_transform(0, &mut list);
    assert_eq!(flags_of(&list), vec![false, false, true]);

    let mut values = make_test_transforms();
    delete_transform(2, &mut values);
    assert_eq!(values, vec![1, 3, 4]);
    delete_transform(0, &mut values);
    assert_eq!(values, vec![1, 3, 4]);
}

fn pipeline_of(ids: &[u128]) -> Pipeline<u8> {
    let mut pipeline = Pipeline::new();
    for (k, id) in ids.iter().enumerate() {
        pipeline.add(k as u8);
        let last = pipeline.len() - 1;
        pipeline.steps_mut_for_params()[last] = PipelineStep::from_parts(*id, k as u8, true);
    }
    pipeline
}

fn ids(pipeline: &Pipeline<u8>) -> Vec<u128> {
    pipeline.steps().iter().map(|s| s.id()).collect()
}

#[test]
fn target_index_for_each_position() {
    let pipeline = pipeline_of(&[5, 6, 7]);
    assert_eq!(step_index(&pipeline, 6), Some(1));
    assert_eq!(step_index(&pipeline, 8), None);
    assert_eq!(target_index_for_position(AppliedTransformNodeId::Root, DirPosition::First, &pipeline), Some(0));
    assert_eq!(target_index_for_position(AppliedTransformNodeId::Root, DirPosition::Last, &pipeline), Some(3));
    assert_eq!(target_index_for_position(AppliedTransformNodeId::Root, DirPosition::Before(AppliedTransformNodeId::Step(7)), &pipeline), Some(2));
    assert_eq!(target_index_for_position(AppliedTransformNodeId::Root, DirPosition::After(AppliedTransformNodeId::Step(7)), &pipeline), Some(3));
    assert_eq!(target_index_for_position(AppliedTransformNodeId::Root, DirPosition::After(AppliedTransformNodeId::Step(9)), &pipeline), None);
    assert_eq!(target_index_for_position(AppliedTransformNodeId::Root, DirPosition::Before(AppliedTransformNodeId::Root), &pipeline), None);
    assert_eq!(target_index_for_position(AppliedTransformNodeId::Root, DirPosition::After(AppliedTransformNodeId::Root), &pipeline), None);
    assert_eq!(target_index_for_position(AppliedTransformNodeId::Step(5), DirPosition::First, &pipeline), None);
}

#[test]
fn context_menu_actions() {
    let mut pipeline = pipeline_of(&[5, 6, 7]);
    apply_action(&TransformContextAction::Disable(6), &mut pipeline);
    assert!(!pipeline.steps()[1].is_active());
    apply_action(&TransformContextAction::Enable(6), &mut pipeline);
    assert!(pipeline.steps()[1].is_active());
    apply_action(&TransformContextAction::Delete(5), &mut pipeline);
    assert_eq!(ids(&pipeline), vec![6, 7]);
    apply_action(&TransformContextAction::Delete(5), &mut pipeline);
    assert_eq!(ids(&pipeline), vec![6, 7]);
}

#[test]
fn tree_actions_move_and_toggle() {
    let mut pipeline = pipeline_of(&[5, 6, 7]);
    let drop_first = TreeAction::Move {
        source: Some(AppliedTransformNodeId::Step(7)),
        target: AppliedTransformNodeId::Root,
        position: DirPosition::Before(AppliedTransformNodeId::Step(5)),
    };
    assert!(apply_tree_action(&drop_first, &mut pipeline));
    assert_eq!(ids(&pipeline), vec![7, 5, 6]);

    let drop_in_place = TreeAction::Move {
        source: Some(AppliedTransformNodeId::Step(5)),
        target: AppliedTransformNodeId::Root,
        position: DirPosition::After(AppliedTransformNodeId::Step(7)),
    };
    assert!(!apply_tree_action(&drop_in_place, &mut pipeline));

    let drop_elsewhere = TreeAction::Move {
        source: Some(AppliedTransformNodeId::Step(5)),
        target: AppliedTransformNodeId::Step(6),
        position: DirPosition::Last,
    };
    assert!(!apply_tree_action(&drop_elsewhere, &mut pipeline));
    assert_eq!(ids(&pipeline), vec![7, 5, 6]);

    assert!(apply_tree_action(&TreeAction::Activate { selected: Some(AppliedTransformNodeId::Step(6)) }, &mut pipeline));
    assert!(!pipeline.steps()[2].is_active());
    assert!(!apply_tree_action(&TreeAction::Activate { selected: Some(AppliedTransformNodeId::Root) }, &mut pipeline));
    assert!(!apply_tree_action(&TreeAction::Other, &mut pipeline));
    assert!(!pipeline.steps()[2].is_active());
}

#[test]
fn one_frame_of_tree_actions() {
    let mut pipeline = pipeline_of(&[5, 6, 7]);
    let actions = vec![
        TreeAction::Move {
            source: Some(AppliedTransformNodeId::Step(5)),
            target: AppliedTransformNodeId::Root,
            position: DirPosition::Last,
        },
        TreeAction::Other,
    ];
    let context = vec![TransformContextAction::Disable(6), TransformContextAction::Delete(7)];
    assert!(apply_tree_view_actions(&actions, &context, &mut pipeline));
    assert_eq!(ids(&pipeline), vec![6, 5]);
    assert!(!pipeline.steps()[0].is_active());
    assert!(pipeline.steps()[1].is_active());

    // Nothing moved and no menu entry: unchanged.
    let idle = vec![TreeAction::Other];
    assert!(!apply_tree_view_actions(&idle, &Vec::new(), &mut pipeline));
    assert_eq!(ids(&pipeline), vec![6, 5]);

    // A menu entry counts as a change even when it finds no step.
    assert!(apply_tree_view_actions(&Vec::new(), &vec![TransformContextAction::Enable(9)], &mut pipeline));
    assert_eq!(ids(&pipeline), vec![6, 5]);
}

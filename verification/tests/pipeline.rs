use dip_visualizer::pipeline::{Pipeline, PipelineStep};
use dip_visualizer::transform_kind::{transform_kind_label, TransformKind};

fn pipeline_of(ids: &[u128]) -> Pipeline<char> {
    let mut pipeline = Pipeline::new();
    for (k, id) in ids.iter().enumerate() {
        let transform = (b'a' + k as u8) as char;
        pipeline.add(transform);
        let last = pipeline.len() - 1;
        pipeline.steps_mut_for_params()[last] = PipelineStep::from_parts(*id, transform, true);
    }
    pipeline
}

fn ids(pipeline: &Pipeline<char>) -> Vec<u128> {
    pipeline.steps().iter().map(|s| s.id()).collect()
}

fn flags(pipeline: &Pipeline<char>) -> Vec<bool> {
    pipeline.steps().iter().map(|s| s.is_active()).collect()
}

fn is_random_uuid(id: u128) -> bool {
    id & 0x0000_0000_0000_f000_c000_0000_0000_0000 == 0x0000_0000_0000_4000_8000_0000_0000_0000
}

#[test]
fn new_step_is_active_with_a_random_id() {
    let a = PipelineStep::new('x');
    let b = PipelineStep::new('x');
    assert!(a.is_active());
    assert_eq!(*a.transform(), 'x');
    assert!(is_random_uuid(a.id()));
    assert!(is_random_uuid(b.id()));
    assert_ne!(a.id(), b.id());
}

#[test]
fn step_flags() {
    let mut step = PipelineStep::from_parts(7, 'g', true);
    step.deactivate();
    assert!(!step.is_active());
    step.toggle();
    assert!(step.is_active());
    step.toggle();
    assert!(!step.is_active());
    step.activate();
    assert!(step.is_active());
    *step.transform_mut() = 'h';
    assert_eq!(step.into_parts(), (7, 'h', true));
}

#[test]
fn add_appends_and_returns_the_id() {
    let mut pipeline: Pipeline<char> = Pipeline::default();
    let first = pipeline.add('n');
    let second = pipeline.add('g');
    assert_eq!(ids(&pipeline), vec![first, second]);
    assert!(is_random_uuid(first));
    assert_eq!(*pipeline.steps()[1].transform(), 'g');
    assert_eq!(flags(&pipeline), vec![true, true]);
}

#[test]
fn remove_takes_out_the_step() {
    let mut pipeline = pipeline_of(&[1, 2, 3]);
    let removed = pipeline.remove(2).expect("present");
    assert_eq!(removed.id(), 2);
    assert_eq!(*removed.transform(), 'b');
    assert_eq!(ids(&pipeline), vec![1, 3]);
    assert!(pipeline.remove(42).is_none());
    assert_eq!(ids(&pipeline), vec![1, 3]);
}

#[test]
fn remove_undoes_add() {
    let mut pipeline = pipeline_of(&[1, 2]);
    let id = pipeline.add('z');
    let removed = pipeline.remove(id).expect("present");
    assert_eq!(*removed.transform(), 'z');
    assert_eq!(ids(&pipeline), vec![1, 2]);
}

#[test]
fn clear_removes_everything() {
    let mut pipeline = pipeline_of(&[1, 2, 3]);
    pipeline.clear();
    assert_eq!(pipeline.len(), 0);
}

#[test]
fn move_step_forward_counts_the_step_itself() {
    let mut pipeline = pipeline_of(&[1, 2, 3, 4]);
    // Drop step 1 before step 3 (index 2): it lands between 2 and 3.
    assert!(pipeline.move_step(1, 2));
    assert_eq!(ids(&pipeline), vec![2, 1, 3, 4]);
}

#[test]
fn move_step_backward() {
    let mut pipeline = pipeline_of(&[1, 2, 3, 4]);
    assert!(pipeline.move_step(4, 0));
    assert_eq!(ids(&pipeline), vec![4, 1, 2, 3]);
}

#[test]
fn move_step_to_the_end_is_clamped() {
    let mut pipeline = pipeline_of(&[1, 2, 3]);
    assert!(pipeline.move_step(1, 100));
    assert_eq!(ids(&pipeline), vec![2, 3, 1]);
}

#[test]
fn move_step_to_its_own_place_changes_nothing() {
    let mut pipeline = pipeline_of(&[1, 2, 3]);
    assert!(!pipeline.move_step(2, 1));
    assert!(!pipeline.move_step(2, 2));
    assert!(!pipeline.move_step(9, 0));
    assert_eq!(ids(&pipeline), vec![1, 2, 3]);
}

#[test]
fn move_step_back_restores_the_order() {
    let mut pipeline = pipeline_of(&[1, 2, 3, 4, 5]);
    assert!(pipeline.move_step(2, 4));
    assert_eq!(ids(&pipeline), vec![1, 3, 4, 2, 5]);
    // 2 came from index 1, which lies before its new place 3.
    assert!(pipeline.move_step(2, 1));
    assert_eq!(ids(&pipeline), vec![1, 2, 3, 4, 5]);
    assert!(pipeline.move_step(4, 0));
    assert_eq!(ids(&pipeline), vec![4, 1, 2, 3, 5]);
    // 4 came from index 3, which lies after its new place 0: ask for 3 + 1.
    assert!(pipeline.move_step(4, 4));
    assert_eq!(ids(&pipeline), vec![1, 2, 3, 4, 5]);
}

#[test]
fn toggle_activate_deactivate() {
    let mut pipeline = pipeline_of(&[1, 2, 3]);
    assert!(pipeline.toggle(2));
    assert_eq!(flags(&pipeline), vec![true, false, true]);
    assert!(pipeline.toggle(2));
    assert_eq!(flags(&pipeline), vec![true, true, true]);
    assert!(pipeline.deactivate(3));
    assert!(pipeline.deactivate(3));
    assert_eq!(flags(&pipeline), vec![true, true, false]);
    assert!(pipeline.activate(3));
    assert_eq!(flags(&pipeline), vec![true, true, true]);
    assert!(!pipeline.toggle(9));
    assert!(!pipeline.activate(9));
    assert!(!pipeline.deactivate(9));
    assert_eq!(ids(&pipeline), vec![1, 2, 3]);
}

#[test]
fn transform_kind_names() {
    assert_eq!(TransformKind::Negative.name(), "Негатив");
    assert_eq!(TransformKind::GammaCorrection.name(), "Гамма-коррекция");
    assert_eq!(TransformKind::LogTransform.name(), "Логарифм. преобраз.");
    assert_eq!(transform_kind_label(TransformKind::LogTransform), "Логарифм. преобраз.");
    assert_eq!(
        TransformKind::available_kinds(),
        &[TransformKind::Negative, TransformKind::GammaCorrection, TransformKind::LogTransform]
    );
}

#[test]
fn toggle_twice_gives_the_pipeline_back() {
    let mut pipeline = pipeline_of(&[1, 2, 3]);
    pipeline.deactivate(1);
    let before = flags(&pipeline);
    pipeline.toggle(1);
    pipeline.toggle(1);
    assert_eq!(flags(&pipeline), before);
    pipeline.toggle(3);
    pipeline.toggle(3);
    assert_eq!(flags(&pipeline), before);
    assert_eq!(ids(&pipeline), vec![1, 2, 3]);
}

#[test]
fn switching_on_twice_is_switching_on_once() {
    let mut once = pipeline_of(&[1, 2]);
    once.deactivate(2);
    once.activate(2);
    let mut twice = pipeline_of(&[1, 2]);
    twice.deactivate(2);
    twice.activate(2);
    twice.activate(2);
    assert_eq!(flags(&once), flags(&twice));
    twice.deactivate(1);
    twice.deactivate(1);
    assert_eq!(flags(&twice), vec![false, true]);
}

#[test]
fn move_step_keeps_the_same_steps() {
    let mut pipeline = pipeline_of(&[1, 2, 3, 4]);
    pipeline.move_step(1, 3);
    let mut moved = ids(&pipeline);
    assert_eq!(moved, vec![2, 3, 1, 4]);
    moved.sort();
    assert_eq!(moved, vec![1, 2, 3, 4]);
    let transforms: Vec<char> = pipeline.steps().iter().map(|s| *s.transform()).collect();
    assert_eq!(transforms, vec!['b', 'c', 'a', 'd']);
}

#[test]
fn step_parts_round_trip() {
    let step = PipelineStep::from_parts(7, 'q', false);
    assert_eq!(step.id(), 7);
    assert_eq!(*step.transform(), 'q');
    assert!(!step.is_active());
    assert_eq!(step.into_parts(), (7, 'q', false));
    let mut step = PipelineStep::from_parts(7, 'q', true);
    *step.transform_mut() = 'r';
    assert_eq!(step.into_parts(), (7, 'r', true));
}

use dip_visualizer::image_picker::{ImagePicker, PickedImage, PollOutcome, Received};
use dip_visualizer::tab_title::tab_title;

#[test]
fn picker_keeps_the_pick_path() {
    let picker: ImagePicker<u32> = ImagePicker::new("/home/user/images");
    assert_eq!(picker.get_pick_path(), "/home/user/images");
}

#[test]
fn polling_hands_over_a_picked_image() {
    let mut picker: ImagePicker<u32> = ImagePicker::new("/start");
    let mut got = Vec::new();
    assert_eq!(picker.poll_picked_image(|p| got.push(p.user_data)), PollOutcome::Empty);
    assert!(got.is_empty());
    assert_eq!(picker.get_pick_path(), "/start");

    picker
        .sender()
        .send(PickedImage { path: "/pics/cat.png".to_string(), bytes: vec![1, 2], user_data: 7 })
        .expect("the picker listens");
    assert_eq!(picker.poll_picked_image(|p| got.push(p.user_data)), PollOutcome::Picked);
    assert_eq!(got, vec![7]);
    assert_eq!(picker.get_pick_path(), "/pics/cat.png");
}

#[test]
fn accept_changes_the_path_only_for_an_image() {
    let mut picker: ImagePicker<()> = ImagePicker::new("a");
    assert!(picker.accept(Received::Empty).is_none());
    assert!(picker.accept(Received::Disconnected).is_none());
    assert_eq!(picker.get_pick_path(), "a");
    let picked = picker
        .accept(Received::Value(PickedImage { path: "b".to_string(), bytes: vec![], user_data: () }))
        .expect("an image");
    assert_eq!(picked.path, "b");
    assert_eq!(picker.get_pick_path(), "b");
}

#[test]
fn tab_title_is_the_file_name_of_an_absolute_path() {
    assert_eq!(tab_title("/home/user/cat.png"), "cat.png");
    assert_eq!(tab_title("/cat.png"), "cat.png");
    assert_eq!(tab_title("/фото/кот.png"), "кот.png");
}

#[test]
fn tab_title_keeps_other_paths() {
    assert_eq!(tab_title("images/cat.png"), "images/cat.png");
    assert_eq!(tab_title("cat.png"), "cat.png");
    assert_eq!(tab_title("/home/user/"), "/home/user/");
    assert_eq!(tab_title("/"), "/");
    assert_eq!(tab_title(""), "");
}

#[test]
fn every_sender_hands_to_the_same_picker() {
    let mut picker: ImagePicker<u8> = ImagePicker::new("/");
    let first = picker.sender();
    let second = picker.sender();
    second
        .send(PickedImage { path: "/b".to_string(), bytes: vec![], user_data: 2 })
        .expect("the picker listens");
    first
        .send(PickedImage { path: "/a".to_string(), bytes: vec![], user_data: 1 })
        .expect("the picker listens");
    let mut got = Vec::new();
    assert_eq!(picker.poll_picked_image(|p| got.push(p.user_data)), PollOutcome::Picked);
    assert_eq!(picker.poll_picked_image(|p| got.push(p.user_data)), PollOutcome::Picked);
    assert_eq!(picker.poll_picked_image(|p| got.push(p.user_data)), PollOutcome::Empty);
    assert_eq!(got, vec![2, 1]);
    assert_eq!(picker.get_pick_path(), "/a");
}

#[test]
fn a_new_picker_has_nothing_waiting() {
    let mut picker: ImagePicker<u8> = ImagePicker::new("/x");
    let mut got = Vec::new();
    assert_eq!(picker.poll_picked_image(|p| got.push(p.user_data)), PollOutcome::Empty);
    assert_eq!(picker.poll_picked_image(|p| got.push(p.user_data)), PollOutcome::Empty);
    assert!(got.is_empty());
    assert_eq!(picker.get_pick_path(), "/x");
}

#[test]
fn a_picker_whose_senders_are_gone_finds_nothing() {
    let mut picker: ImagePicker<u8> = ImagePicker::new("/x");
    drop(picker.sender());
    assert_eq!(picker.poll_picked_image(|_| {}), PollOutcome::Empty);
}

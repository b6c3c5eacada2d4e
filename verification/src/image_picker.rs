//! Receiving the images that the user picks in a file dialog. The dialog
//! runs elsewhere and sends what was picked over a channel; the picker keeps
//! the place where the next dialog should open.

use vstd::prelude::*;

use std::sync::mpsc::Sender;

use crate::channel::{clone_sender, new_channel, try_receive, Channel};
pub use crate::channel::Received;

verus! {

/// An image chosen in the file dialog: where it is, its encoded bytes, and
/// the data that the request carried.
pub struct PickedImage<T> {
    pub path: String,
    pub bytes: Vec<u8>,
    pub user_data: T,
}

/// What a poll of the picker found.
#[derive(Clone, Copy, Debug, PartialEq, Eq, Structural)]
pub enum PollOutcome {
    /// An image was waiting; it was handed over.
    Picked,
    /// Nothing was waiting.
    Empty,
}

/// Receives picked images and remembers where the file dialog should open.
#[verifier::reject_recursive_types(T)]
pub struct ImagePicker<T> {
    pick_path: String,
    picked_images: Channel<PickedImage<T>>,
    last_polled: Ghost<Option<int>>,
    last_poll_found: Ghost<bool>,
}

impl<T> ImagePicker<T> {
    /// The place (a folder, or a file whose folder is meant) where the next
    /// file dialog opens.
    pub closed spec fn pick_path_spec(&self) -> Seq<char> {
        self.pick_path@
    }

    /// The std sender into the picker's channel.
    pub closed spec fn sending_end(&self) -> Sender<PickedImage<T>> {
        self.picked_images.std_sender()
    }

    /// The label of the picker's channel.
    pub closed spec fn channel_label(&self) -> int {
        self.picked_images.label()
    }

    /// No sender has been handed out yet, so no image can be waiting.
    pub closed spec fn no_sender_handed_out(&self) -> bool {
        self.picked_images.quiet()
    }

    /// The channel that the last poll looked at, if there was a poll.
    pub closed spec fn last_polled_channel(&self) -> Option<int> {
        self.last_polled@
    }

    /// Whether the last poll found an image waiting in the channel.
    pub closed spec fn last_poll_found_image(&self) -> bool {
        self.last_poll_found@
    }

    /// A picker whose dialogs open at `pick_path`, with a new channel of its
    /// own, in which no image is waiting.
    pub fn new(pick_path: &str) -> (res: Self)
        ensures
            res.pick_path_spec() == pick_path@,
            res.no_sender_handed_out(),
            res.last_polled_channel() is None,
            !res.last_poll_found_image(),
    {
        ImagePicker {
            pick_path: pick_path.to_string(),
            picked_images: new_channel(),
            last_polled: Ghost(None),
            last_poll_found: Ghost(false),
        }
    }

    /// Where the next file dialog opens.
    pub fn get_pick_path(&self) -> (res: &str)
        ensures
            res@ == self.pick_path_spec(),
    {
        self.pick_path.as_str()
    }

    /// A sending end for the task that runs the file dialog: one into the
    /// picker's own channel.
    pub fn sender(&mut self) -> (res: Sender<PickedImage<T>>)
        ensures
            res == old(self).sending_end(),
            final(self).sending_end() == old(self).sending_end(),
            final(self).channel_label() == old(self).channel_label(),
            !final(self).no_sender_handed_out(),
            final(self).pick_path_spec() == old(self).pick_path_spec(),
            final(self).last_polled_channel() == old(self).last_polled_channel(),
            final(self).last_poll_found_image() == old(self).last_poll_found_image(),
    {
        clone_sender(&mut self.picked_images)
    }

    /// Takes in what a look at the channel found: a picked image becomes
    /// the place of the next dialog and is handed back; otherwise nothing
    /// changes. The channel stays.
    pub fn accept(&mut self, received: Received<PickedImage<T>>) -> (res: Option<
        PickedImage<T>,
    >)
        ensures
            match received {
                Received::Value(picked) => res == Some(picked) && final(self).pick_path_spec()
                    == picked.path@,
                _ => res is None && final(self).pick_path_spec() == old(self).pick_path_spec(),
            },
            final(self).sending_end() == old(self).sending_end(),
            final(self).channel_label() == old(self).channel_label(),
            final(self).no_sender_handed_out() == old(self).no_sender_handed_out(),
            final(self).last_polled_channel() == old(self).last_polled_channel(),
            final(self).last_poll_found_image() == old(self).last_poll_found_image(),
    {
        match received {
            Received::Value(picked_image) => {
                self.pick_path = picked_image.path.clone();
                Some(picked_image)
            },
            Received::Empty => None,
            Received::Disconnected => None,
        }
    }

    /// Looks, without waiting, at the picker's own channel. An image that
    /// has been picked since the last look is handed to `on_pick` and its
    /// path becomes the place of the next dialog. Returns what was found.
    /// The picker keeps a sender of its own, so its channel is never found
    /// disconnected; before any sender is handed out, nothing is found.
    pub fn poll_picked_image<F: FnOnce(PickedImage<T>)>(&mut self, on_pick: F) -> (res:
        PollOutcome)
        requires
            forall|p: PickedImage<T>| #[trigger] on_pick.requires((p,)),
        ensures
            final(self).last_polled_channel() == Some(old(self).channel_label()),
            final(self).last_poll_found_image() == (res == PollOutcome::Picked),
            final(self).sending_end() == old(self).sending_end(),
            final(self).channel_label() == old(self).channel_label(),
            final(self).no_sender_handed_out() == old(self).no_sender_handed_out(),
            old(self).no_sender_handed_out() ==> res == PollOutcome::Empty,
            match res {
                PollOutcome::Picked => exists|p: PickedImage<T>|
                    p.path@ == final(self).pick_path_spec() && #[trigger] on_pick.ensures(
                        (p,),
                        (),
                    ),
                PollOutcome::Empty => final(self).pick_path_spec() == old(self).pick_path_spec(),
            },
    {
        let polled = try_receive(&self.picked_images);
        self.last_polled = Ghost(Some(polled.channel()));
        self.last_poll_found = Ghost(polled.outcome() is Value);
        let received = polled.into_outcome();
        let outcome = match &received {
            Received::Value(_) => PollOutcome::Picked,
            _ => PollOutcome::Empty,
        };
        if let Some(picked_image) = self.accept(received) {
            let ghost p = picked_image;
            on_pick(picked_image);
            assert(on_pick.ensures((p,), ()));
        }
        outcome
    }
}

} // verus!

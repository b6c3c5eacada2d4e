//! A message channel held with both of its ends. It carries ghost state:
//! a label, to say which channel was looked at, and whether a sender has
//! been handed out yet.

use vstd::prelude::*;

use std::sync::mpsc::{Receiver, Sender, TryRecvError};

verus! {

#[verifier::external_type_specification]
#[verifier::external_body]
#[verifier::reject_recursive_types(T)]
pub struct ExSender<T>(Sender<T>);

#[verifier::external_type_specification]
#[verifier::external_body]
#[verifier::reject_recursive_types(T)]
pub struct ExReceiver<T>(Receiver<T>);

/// What a look at a channel finds.
pub enum Received<V> {
    /// A value was waiting.
    Value(V),
    /// Nothing is waiting yet.
    Empty,
    /// Every sender is gone: nothing will come.
    Disconnected,
}

/// A channel, both ends together: the picker-side holder of a channel keeps
/// its own sender, so the channel stays connected while it lives.
#[verifier::reject_recursive_types(V)]
pub struct Channel<V> {
    sender: Sender<V>,
    receiver: Receiver<V>,
    label: Ghost<int>,
    quiet: Ghost<bool>,
}

/// What a look at a channel found, with the channel that was looked at.
pub struct Polled<V> {
    outcome: Received<V>,
    channel: Ghost<int>,
}

impl<V> Channel<V> {
    /// A ghost label of the channel, to say which channel was looked at.
    pub closed spec fn label(&self) -> int {
        self.label@
    }

    /// The std sender that the channel keeps.
    pub closed spec fn std_sender(&self) -> Sender<V> {
        self.sender
    }

    /// No sender of the channel has been handed out since it was made, so
    /// nothing can have been sent into it.
    pub closed spec fn quiet(&self) -> bool {
        self.quiet@
    }
}

impl<V> Polled<V> {
    /// The label of the channel that was looked at.
    pub closed spec fn channel(&self) -> int {
        self.channel@
    }

    /// What was found.
    pub closed spec fn outcome(&self) -> Received<V> {
        self.outcome
    }

    /// What was found, taken out.
    pub fn into_outcome(self) -> (res: Received<V>)
        ensures
            res == self.outcome(),
    {
        self.outcome
    }
}

/// A new channel. Trusted: calls `std::sync::mpsc::channel` and keeps both
/// ends. A new channel holds nothing, and no sender has been handed out: the
/// contract claims that it is quiet, and nothing else.
#[verifier::external_body]
pub(crate) fn new_channel<V>() -> (res: Channel<V>)
    ensures
        res.quiet(),
{
    let (sender, receiver) = std::sync::mpsc::channel();
    Channel { sender, receiver, label: Ghost(0int), quiet: Ghost(true) }
}

/// Takes the next value of the channel without waiting. Trusted: calls
/// `Receiver::try_recv` and tells its outcomes apart. What is found depends
/// on other threads. The contract claims three things. The channel looked at
/// is this one. It is never found disconnected: std reports that only once
/// every sender is gone, and the channel keeps one of its own for as long as
/// it is borrowed here. A quiet channel is found empty: nothing can have been
/// sent into it, as no wrapper sends and no sender has been handed out.
#[verifier::external_body]
pub(crate) fn try_receive<V>(channel: &Channel<V>) -> (res: Polled<V>)
    ensures
        res.channel() == channel.label(),
        !(res.outcome() is Disconnected),
        channel.quiet() ==> res.outcome() is Empty,
{
    let outcome = match channel.receiver.try_recv() {
        Ok(value) => Received::Value(value),
        Err(TryRecvError::Empty) => Received::Empty,
        Err(TryRecvError::Disconnected) => Received::Disconnected,
    };
    Polled { outcome, channel: Ghost(channel.label@) }
}

/// Hands out another std sender into the channel. Trusted: calls
/// `Sender::clone`, which std documents as giving a sender into the same
/// channel. A `Sender` is opaque here and stands for the channel it sends
/// into, so the contract claims that the clone is equal to the channel's own
/// sender; it also records, in the ghost flag, that the channel is no longer
/// quiet. Nothing else changes.
#[verifier::external_body]
pub(crate) fn clone_sender<V>(channel: &mut Channel<V>) -> (res: Sender<V>)
    ensures
        res == old(channel).std_sender(),
        final(channel).std_sender() == old(channel).std_sender(),
        final(channel).label() == old(channel).label(),
        !final(channel).quiet(),
{
    channel.quiet = Ghost(false);
    channel.sender.clone()
}

} // verus!

//! The broadcast channel on which the registry publishes its events.

use vstd::prelude::*;
use crate::heartbeat::MeshEvent;

verus! {

/// The sending half of tokio's broadcast channel. Opaque: what it retains
/// and who listens is tokio's to know.
#[verifier::external_type_specification]
#[verifier::external_body]
#[verifier::reject_recursive_types(T)]
pub struct ExSender<T>(tokio::sync::broadcast::Sender<T>);

/// The receiving half of tokio's broadcast channel. Opaque.
#[verifier::external_type_specification]
#[verifier::external_body]
#[verifier::reject_recursive_types(T)]
pub struct ExReceiver<T>(tokio::sync::broadcast::Receiver<T>);

/// The number of events that the channel behind a sender was opened for:
/// the bound that `channel` was called with. It is fixed when the channel is
/// opened and shared by every handle of the channel. tokio sizes its buffer
/// to the next power of two, so it may retain more than this, never fewer.
pub uninterp spec fn opened_for(sender: tokio::sync::broadcast::Sender<MeshEvent>) -> nat;

/// Opens tokio's broadcast channel for `capacity` retained events and keeps
/// its sending half; the first receiver is dropped at once, so the channel
/// starts with no subscriber. The claim is that the channel was opened for
/// exactly the capacity handed in. tokio panics on a capacity of zero or
/// above half of `usize::MAX`, which the precondition excludes. It allocates
/// the whole buffer at once, so a capacity beyond what memory holds aborts.
#[verifier::external_body]
pub(crate) fn open_channel(capacity: usize) -> (sender: tokio::sync::broadcast::Sender<MeshEvent>)
    requires
        0 < capacity <= usize::MAX / 2,
    ensures
        opened_for(sender) == capacity,
{
    tokio::sync::broadcast::channel(capacity).0
}

/// `Sender::send` of tokio: offers the event to the receivers that are
/// subscribed now. The answer is the number of receivers, or `None` where
/// there is none and the event was dropped. Nothing is claimed of it.
#[verifier::external_body]
pub(crate) fn send_event(sender: &tokio::sync::broadcast::Sender<MeshEvent>, event: MeshEvent) -> (receivers:
    Option<usize>) {
    sender.send(event).ok()
}

/// Whether a receiver listens on the channel behind a sender: the two are
/// handles of one channel, so what is sent through the sender from the
/// moment the receiver was made is what the receiver is offered. It is fixed
/// when the receiver is made.
pub uninterp spec fn listens_on(
    receiver: tokio::sync::broadcast::Receiver<MeshEvent>,
    sender: tokio::sync::broadcast::Sender<MeshEvent>,
) -> bool;

/// `Sender::subscribe` of tokio: a new receiver on the sender's own channel,
/// which sees the events sent after this call. The claim is that the
/// receiver listens on this sender's channel and no other.
#[verifier::external_body]
pub(crate) fn subscribe_to(sender: &tokio::sync::broadcast::Sender<MeshEvent>) -> (receiver:
    tokio::sync::broadcast::Receiver<MeshEvent>)
    ensures
        listens_on(receiver, *sender),
{
    sender.subscribe()
}

} // verus!

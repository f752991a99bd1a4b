use vstd::prelude::*;

use tokio::sync::broadcast::{Receiver, Sender};

use crate::domain::{EventView, ServerEvent};

verus! {

#[verifier::external_type_specification]
#[verifier::external_body]
#[verifier::reject_recursive_types(T)]
pub struct ExSender<T>(Sender<T>);

#[verifier::external_type_specification]
#[verifier::external_body]
#[verifier::reject_recursive_types(T)]
pub struct ExReceiver<T>(Receiver<T>);

/// How many events a subscriber may fall behind before it misses some.
pub const EVENT_BUFFER: usize = 256;

/// Relies on tokio's `broadcast::Sender::new`, which panics on a capacity of
/// zero or above half the address space.
#[verifier::external_body]
fn new_sender(capacity: usize) -> (r: Sender<ServerEvent>)
    requires
        0 < capacity <= usize::MAX / 2,
{
    Sender::new(capacity)
}

/// Relies on tokio's `broadcast::Sender::send`, which never blocks; with no
/// subscriber the event is dropped.
#[verifier::external_body]
fn send_event(sender: &Sender<ServerEvent>, event: ServerEvent) {
    let _ = sender.send(event);
}

/// Relies on tokio's `broadcast::Sender::subscribe`: a receiver of every event
/// sent after this call.
#[verifier::external_body]
fn subscribe_to(sender: &Sender<ServerEvent>) -> (r: Receiver<ServerEvent>) {
    sender.subscribe()
}

/// The publishing side of the event bus, with a record of what it published.
pub struct EventBus {
    sender: Sender<ServerEvent>,
    published: Ghost<Seq<EventView>>,
}

impl EventBus {
    /// Every event published so far, oldest first.
    pub closed spec fn published(&self) -> Seq<EventView> {
        self.published@
    }

    /// A bus that has published nothing.
    pub fn new() -> (r: EventBus)
        ensures
            r.published().len() == 0,
    {
        EventBus { sender: new_sender(EVENT_BUFFER), published: Ghost(Seq::empty()) }
    }

    /// Sends `event` to every current subscriber, without waiting for any.
    pub fn publish(&mut self, event: ServerEvent)
        ensures
            final(self).published() == old(self).published().push(event@),
    {
        proof {
            self.published@ = self.published@.push(event@);
        }
        send_event(&self.sender, event);
    }

    /// A subscription to every event published after this call.
    pub fn subscribe(&self) -> Receiver<ServerEvent> {
        subscribe_to(&self.sender)
    }
}

} // verus!

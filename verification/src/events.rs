//! The event loop's mapping from events to commands.

pub mod event_handler;

use crate::channel::{flow_of, hand_on, Flow};
use crate::common::Event;
use std::sync::mpsc::Sender;
use vstd::prelude::*;

verus! {

/// The handle through which events enter the event loop's queue.
pub struct EventLoop {
    sender: Sender<Event>,
}

impl EventLoop {
    /// The sending end of the queue that this handle feeds.
    pub closed spec fn channel(&self) -> Sender<Event> {
        self.sender
    }

    /// A handle on the queue that `sender` feeds.
    pub fn attach(sender: Sender<Event>) -> (handle: EventLoop)
        ensures
            handle.channel() == sender,
    {
        EventLoop { sender }
    }

    /// Queues an event for the loop. `Stop` tells that the loop has gone
    /// and the event with it.
    pub fn raise_event(&self, event: Event) -> (flow: Flow)
        ensures
            exists|accepted: nat| accepted <= 1 && flow == #[trigger] flow_of(1, accepted),
    {
        let mut events: Vec<Event> = Vec::new();
        events.push(event);
        hand_on(&self.sender, events)
    }
}

} // verus!

//! The sending end of the hotplug event channel, with a model of what it
//! has delivered: the events the channel accepted, in order, and whether it
//! has refused one (its receiver is gone, so it refuses every later event).
use vstd::prelude::*;

use std::sync::mpsc::Sender;

use crate::hotplug::HotplugEvent;

verus! {

#[verifier::external_type_specification]
#[verifier::external_body]
#[verifier::reject_recursive_types(T)]
pub struct ExSender<T>(Sender<T>);

/// A `Sender` of hotplug events and what it has delivered so far.
pub struct EventSender {
    tx: Sender<HotplugEvent>,
    delivered: Ghost<Seq<HotplugEvent>>,
    refused: Ghost<bool>,
}

impl EventSender {
    /// The events the channel accepted through this sender, in order.
    pub closed spec fn delivered(self) -> Seq<HotplugEvent> {
        self.delivered@
    }

    /// Whether the channel has refused an event: its receiver is gone.
    pub closed spec fn refused(self) -> bool {
        self.refused@
    }

    /// Wrap the sending end of a channel; nothing is delivered yet.
    pub fn new(tx: Sender<HotplugEvent>) -> (s: EventSender)
        ensures
            s.delivered() == Seq::<HotplugEvent>::empty(),
            !s.refused(),
    {
        EventSender { tx, delivered: Ghost(Seq::empty()), refused: Ghost(false) }
    }

    /// Hands `event` to the channel with `std::sync::mpsc::Sender::send`.
    /// The call fails only when the receiving end is gone, and then fails
    /// for every later event too: an accepted event is appended to what
    /// was delivered, a refused one is dropped and marks the channel as
    /// refusing. Whether the receiver is still there is not known before
    /// the call, so which of the two happens is not stated.
    #[verifier::external_body]
    pub(crate) fn send(&mut self, event: HotplugEvent) -> (accepted: bool)
        ensures
            accepted ==> !old(self).refused() && !final(self).refused() && final(self).delivered()
                == old(self).delivered().push(event),
            !accepted ==> final(self).refused() && final(self).delivered() == old(
                self,
            ).delivered(),
    {
        self.tx.send(event).is_ok()
    }
}

} // verus!

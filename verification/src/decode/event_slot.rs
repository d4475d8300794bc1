//! The one-slot buffer through which a monitor gets its results.
use crate::decode::request::{event_request_id, spec_event_request_id, DecodeEvent};
use vstd::prelude::*;

verus! {

/// Holds the newest completed result that nobody has taken yet.
#[derive(Debug)]
pub struct EventSlot {
    event: Option<DecodeEvent>,
    newest_request_id: u64,
}

impl EventSlot {
    /// The result that waits.
    pub closed spec fn waiting(&self) -> Option<DecodeEvent> {
        self.event
    }

    /// The newest request that was ever answered here.
    pub closed spec fn newest(&self) -> u64 {
        self.newest_request_id
    }

    /// What waits answers the newest request.
    pub open spec fn wf(&self) -> bool {
        self.waiting() matches Some(event) ==> spec_event_request_id(event) == self.newest()
    }

    pub fn new() -> (slot: Self)
        ensures
            slot.wf(),
            slot.waiting() is None,
            slot.newest() == 0,
    {
        EventSlot { event: None, newest_request_id: 0 }
    }

    /// Offers a result. A result of an older request than one already answered is dropped.
    /// Returns whether the owner has to be woken.
    pub fn publish(&mut self, event: DecodeEvent) -> (changed: bool)
        requires
            old(self).wf(),
        ensures
            final(self).wf(),
            changed == (spec_event_request_id(event) >= old(self).newest()),
            changed ==> final(self).waiting() == Some(event) && final(self).newest()
                == spec_event_request_id(event),
            !changed ==> *final(self) == *old(self),
            final(self).newest() >= old(self).newest(),
    {
        let request_id: u64 = event_request_id(&event);
        if request_id < self.newest_request_id {
            return false;
        }
        self.newest_request_id = request_id;
        self.event = Some(event);
        true
    }

    /// Takes the result that waits.
    pub fn take(&mut self) -> (event: Option<DecodeEvent>)
        requires
            old(self).wf(),
        ensures
            final(self).wf(),
            event == old(self).waiting(),
            final(self).waiting() is None,
            final(self).newest() == old(self).newest(),
            event matches Some(event) ==> spec_event_request_id(event) == old(self).newest(),
    {
        self.event.take()
    }
}

/// Results are offered newest first: one of an older request than was ever answered is dropped, any
/// other replaces what waits; what is taken is what waits, once.
pub proof fn law_older_results_never_replace_newer(
    slot: &mut EventSlot,
    event: DecodeEvent,
    changed: bool,
)
    requires
        call_ensures(EventSlot::publish, (slot, event), changed),
    ensures
        ({
            let id = match event {
                DecodeEvent::Frame(frame) => frame.request_id,
                DecodeEvent::Error(error) => error.request_id,
            };
            &&& changed <==> id >= old(slot).newest()
            &&& changed ==> final(slot).waiting() == Some(event) && final(slot).newest() == id
            &&& !changed ==> final(slot).waiting() == old(slot).waiting() && final(slot).newest()
                == old(slot).newest()
        }),
{
}

/// A result is taken once.
pub proof fn law_results_are_taken_once(slot: &mut EventSlot, event: Option<DecodeEvent>)
    requires
        call_ensures(EventSlot::take, (slot,), event),
    ensures
        event == old(slot).waiting(),
        final(slot).waiting() is None,
        final(slot).newest() == old(slot).newest(),
{
}

/// A result that is published is the one that is received, unless it was overtaken.
pub proof fn law_published_result_is_received(
    publishing: &mut EventSlot,
    event: DecodeEvent,
    changed: bool,
    receiving: &mut EventSlot,
    received: Option<DecodeEvent>,
)
    requires
        call_ensures(EventSlot::publish, (publishing, event), changed),
        call_ensures(EventSlot::take, (receiving,), received),
        *final(publishing) == *old(receiving),
    ensures
        changed ==> received == Some(event),
        !changed ==> received == old(publishing).waiting(),
{
}

} // verus!

//! What the engine hands to the host: events for the application and
//! envelopes to transmit.

use crate::message::Message;
use crate::model::{ActionView, EventView};
use crate::peer::PeerIdentity;
use crate::rpc::{MalformedMessage, Rpc};
use crate::table::peer_views;
use crate::topic::TopicHash;
use vstd::prelude::*;

verus! {

/// Something the application is told.
#[derive(Debug)]
pub enum Event {
    /// A connected peer subscribed to a topic.
    Subscribed { peer: PeerIdentity, topic: TopicHash },
    /// A connected peer unsubscribed from a topic.
    Unsubscribed { peer: PeerIdentity, topic: TopicHash },
    /// A message on a locally subscribed topic arrived from `source`.
    Message { source: PeerIdentity, message: Message },
    /// A peer sent an envelope with a message that cannot be read.
    MalformedRpc { peer: PeerIdentity, reason: MalformedMessage },
}

impl View for Event {
    type V = EventView;

    open spec fn view(&self) -> EventView {
        match *self {
            Event::Subscribed { peer, topic } => EventView::Subscribed { peer: peer@, topic: topic@ },
            Event::Unsubscribed { peer, topic } => EventView::Unsubscribed {
                peer: peer@,
                topic: topic@,
            },
            Event::Message { source, message } => EventView::Message {
                source: source@,
                message: message@,
            },
            Event::MalformedRpc { peer, reason } => EventView::MalformedRpc { peer: peer@, reason },
        }
    }
}

/// An envelope to transmit, and the peers to transmit it to.
#[derive(Debug)]
pub struct OutboundAction {
    pub destinations: Vec<PeerIdentity>,
    pub rpc: Rpc,
}

impl View for OutboundAction {
    type V = ActionView;

    open spec fn view(&self) -> ActionView {
        ActionView { destinations: peer_views(self.destinations@).to_set(), rpc: self.rpc@ }
    }
}

/// The views of a list of events, in order.
pub open spec fn event_views(events: Seq<Event>) -> Seq<EventView> {
    Seq::new(events.len(), |i: int| events[i]@)
}

/// The views of a list of envelopes, in order.
pub open spec fn action_views(actions: Seq<OutboundAction>) -> Seq<ActionView> {
    Seq::new(actions.len(), |i: int| actions[i]@)
}

/// Every envelope is for somebody, and none names a peer twice.
pub open spec fn well_addressed(actions: Seq<OutboundAction>) -> bool {
    forall|i: int|
        0 <= i < actions.len() ==> (#[trigger] actions[i]).destinations.len() > 0 && peer_views(
            actions[i].destinations@,
        ).no_duplicates()
}

} // verus!

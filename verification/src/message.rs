//! Published messages.

use crate::peer::{is_peer_id, peer_view, PeerIdentity};
use crate::topic::{clone_topics, topic_views, Topic, TopicHash};
use vstd::prelude::*;

verus! {

/// What a message holds, as plain mathematical values.
pub struct MessageView {
    pub source: Option<Seq<u8>>,
    pub sequence_number: Option<u64>,
    pub topics: Seq<Seq<char>>,
    pub payload: Seq<u8>,
}

/// A message whose publisher, if it has one, is a peer identity in its
/// canonical encoding. The view of every `Message` is such a message.
pub open spec fn valid_message(msg: MessageView) -> bool {
    msg.source matches Some(p) ==> is_peer_id(p)
}

/// A message published to one or more topics.
#[derive(Debug)]
pub struct Message {
    source: Option<PeerIdentity>,
    sequence_number: Option<u64>,
    topics: Vec<TopicHash>,
    payload: Vec<u8>,
}

impl View for Message {
    type V = MessageView;

    closed spec fn view(&self) -> MessageView {
        MessageView {
            source: peer_view(self.source),
            sequence_number: self.sequence_number,
            topics: topic_views(self.topics@),
            payload: self.payload@,
        }
    }
}

impl Message {
    /// An anonymous, unsequenced message to one topic.
    pub fn new(topic: Topic, payload: Vec<u8>) -> (m: Message)
        ensures
            m@ == (MessageView {
                source: None,
                sequence_number: None,
                topics: seq![topic@],
                payload: payload@,
            }),
    {
        let mut topics: Vec<TopicHash> = Vec::new();
        topics.push(topic.hash());
        assert(topic_views(topics@) =~= seq![topic@]);
        Message { source: None, sequence_number: None, topics, payload }
    }

    /// A message assembled from its four parts.
    pub fn from_parts(
        source: Option<PeerIdentity>,
        sequence_number: Option<u64>,
        topics: Vec<TopicHash>,
        payload: Vec<u8>,
    ) -> (m: Message)
        ensures
            m@ == (MessageView {
                source: peer_view(source),
                sequence_number,
                topics: topic_views(topics@),
                payload: payload@,
            }),
    {
        Message { source, sequence_number, topics, payload }
    }

    /// Replaces the publisher.
    pub fn set_source(&mut self, source: Option<PeerIdentity>)
        ensures
            final(self)@ == (MessageView { source: peer_view(source), ..old(self)@ }),
    {
        self.source = source;
    }

    /// Replaces the sequence number.
    pub fn set_sequence_number(&mut self, sequence_number: Option<u64>)
        ensures
            final(self)@ == (MessageView { sequence_number, ..old(self)@ }),
    {
        self.sequence_number = sequence_number;
    }

    /// The publisher, if the message names one.
    pub fn source(&self) -> (s: &Option<PeerIdentity>)
        ensures
            peer_view(*s) == self@.source,
            valid_message(self@),
    {
        proof {
            match &self.source {
                Some(p) => {
                    use_type_invariant(p);
                },
                None => {},
            }
        }
        &self.source
    }

    /// The sequence number, if the message carries one.
    pub fn sequence_number(&self) -> (n: Option<u64>)
        ensures
            n == self@.sequence_number,
    {
        self.sequence_number
    }

    /// The topics the message is published to.
    pub fn topics(&self) -> (t: &Vec<TopicHash>)
        ensures
            topic_views(t@) == self@.topics,
    {
        &self.topics
    }

    /// The payload.
    pub fn payload(&self) -> (p: &Vec<u8>)
        ensures
            p@ == self@.payload,
    {
        &self.payload
    }
}

impl PartialEq for Message {
    fn eq(&self, other: &Self) -> (r: bool) {
        let r = self.source == other.source && self.sequence_number == other.sequence_number
            && self.topics == other.topics && self.payload == other.payload;
        proof {
            if r {
                assert(self.payload@ =~= other.payload@);
                assert(topic_views(self.topics@) =~= topic_views(other.topics@));
            }
            if self@ == other@ {
                assert(self.topics@.len() == topic_views(self.topics@).len());
                assert(other.topics@.len() == topic_views(other.topics@).len());
                assert forall|i: int| 0 <= i < self.topics@.len() implies self.topics@[i]@
                    == other.topics@[i]@ by {
                    assert(topic_views(self.topics@)[i] == topic_views(other.topics@)[i]);
                }
            }
        }
        r
    }
}

impl vstd::std_specs::cmp::PartialEqSpecImpl for Message {
    open spec fn obeys_eq_spec() -> bool {
        true
    }

    open spec fn eq_spec(&self, other: &Self) -> bool {
        self@ == other@
    }
}

impl Clone for Message {
    fn clone(&self) -> (r: Self)
        ensures
            r@ == self@,
    {
        let source = match &self.source {
            Some(p) => Some(p.clone()),
            None => None,
        };
        Message {
            source,
            sequence_number: self.sequence_number,
            topics: clone_topics(&self.topics),
            payload: self.payload.clone(),
        }
    }
}

} // verus!

//! The envelope that two connected peers exchange, and the reading and
//! writing of the messages in it.

use crate::message::{valid_message, Message, MessageView};
use crate::peer::{is_peer_id, parse_peer, PeerIdentity};
use crate::topic::{topic_views, TopicHash};
use vstd::prelude::*;

verus! {

/// One subscription change: `subscribe` tells a subscription from its
/// withdrawal.
#[derive(Clone, Debug, PartialEq, Eq)]
pub struct SubscriptionChange {
    pub subscribe: bool,
    pub topic_id: String,
}

/// A published message as it travels: the publisher as the bytes of its
/// identity, the sequence number as eight bytes, most significant first.
#[derive(Clone, Debug, PartialEq, Eq)]
pub struct WireMessage {
    pub from: Option<Vec<u8>>,
    pub data: Vec<u8>,
    pub seqno: Option<Vec<u8>>,
    pub topic_ids: Vec<String>,
}

/// A batch of subscription changes and of published messages.
#[derive(Clone, Debug, PartialEq, Eq)]
pub struct Rpc {
    pub subscriptions: Vec<SubscriptionChange>,
    pub publish: Vec<WireMessage>,
}

/// A subscription change, as plain mathematical values.
pub struct ChangeView {
    pub subscribe: bool,
    pub topic: Seq<char>,
}

/// A wire message, as plain mathematical values.
pub struct WireMessageView {
    pub from: Option<Seq<u8>>,
    pub data: Seq<u8>,
    pub seqno: Option<Seq<u8>>,
    pub topic_ids: Seq<Seq<char>>,
}

/// An envelope, as plain mathematical values.
pub struct RpcView {
    pub subscriptions: Seq<ChangeView>,
    pub publish: Seq<WireMessageView>,
}

/// The bytes of an optional byte string.
pub open spec fn bytes_view(bytes: Option<Vec<u8>>) -> Option<Seq<u8>> {
    match bytes {
        Some(b) => Some(b@),
        None => None,
    }
}

/// The views of a list of strings, in order.
pub open spec fn string_views(strings: Seq<String>) -> Seq<Seq<char>> {
    Seq::new(strings.len(), |i: int| strings[i]@)
}

impl View for SubscriptionChange {
    type V = ChangeView;

    open spec fn view(&self) -> ChangeView {
        ChangeView { subscribe: self.subscribe, topic: self.topic_id@ }
    }
}

impl View for WireMessage {
    type V = WireMessageView;

    open spec fn view(&self) -> WireMessageView {
        WireMessageView {
            from: bytes_view(self.from),
            data: self.data@,
            seqno: bytes_view(self.seqno),
            topic_ids: string_views(self.topic_ids@),
        }
    }
}

/// The views of a list of subscription changes, in order.
pub open spec fn change_views(changes: Seq<SubscriptionChange>) -> Seq<ChangeView> {
    Seq::new(changes.len(), |i: int| changes[i]@)
}

/// The views of a list of wire messages, in order.
pub open spec fn wire_views(messages: Seq<WireMessage>) -> Seq<WireMessageView> {
    Seq::new(messages.len(), |i: int| messages[i]@)
}

impl View for Rpc {
    type V = RpcView;

    open spec fn view(&self) -> RpcView {
        RpcView {
            subscriptions: change_views(self.subscriptions@),
            publish: wire_views(self.publish@),
        }
    }
}

/// The number that `bytes` spell, most significant byte first.
pub open spec fn big_endian(bytes: Seq<u8>) -> nat
    decreases bytes.len(),
{
    if bytes.len() == 0 {
        0
    } else {
        big_endian(bytes.drop_last()) * 256 + bytes.last() as nat
    }
}

/// The `len` low bytes of `n`, most significant first.
pub open spec fn big_endian_bytes(n: nat, len: nat) -> Seq<u8>
    decreases len,
{
    if len == 0 {
        Seq::empty()
    } else {
        big_endian_bytes(n / 256, (len - 1) as nat).push((n % 256) as u8)
    }
}

/// 256 to the power `k`.
pub open spec fn pow256(k: nat) -> nat
    decreases k,
{
    if k == 0 {
        1
    } else {
        256 * pow256((k - 1) as nat)
    }
}

/// Eight bytes hold exactly the numbers below 2^64.
pub proof fn lemma_pow256_eight()
    ensures
        pow256(7) == 0x100_0000_0000_0000,
        pow256(8) == 0x1_0000_0000_0000_0000,
{
    reveal_with_fuel(pow256, 9);
}

/// A byte string spells a number below 256 to the power of its length.
pub proof fn lemma_big_endian_bound(bytes: Seq<u8>)
    ensures
        big_endian(bytes) < pow256(bytes.len()),
    decreases bytes.len(),
{
    if bytes.len() > 0 {
        lemma_big_endian_bound(bytes.drop_last());
    }
}

/// Writing a number in `len` bytes and reading it back gives the number,
/// where `len` bytes can hold it.
pub proof fn lemma_big_endian_of_bytes(n: nat, len: nat)
    requires
        n < pow256(len),
    ensures
        big_endian_bytes(n, len).len() == len,
        big_endian(big_endian_bytes(n, len)) == n,
    decreases len,
{
    if len > 0 {
        lemma_big_endian_of_bytes(n / 256, (len - 1) as nat);
        let b = big_endian_bytes(n, len);
        assert(b.drop_last() =~= big_endian_bytes(n / 256, (len - 1) as nat));
    }
}

/// Reading a byte string as a number and writing it back in as many bytes
/// gives the byte string.
pub proof fn lemma_bytes_of_big_endian(bytes: Seq<u8>)
    ensures
        big_endian_bytes(big_endian(bytes), bytes.len()) == bytes,
    decreases bytes.len(),
{
    if bytes.len() > 0 {
        lemma_bytes_of_big_endian(bytes.drop_last());
        let n = big_endian(bytes);
        assert(n / 256 == big_endian(bytes.drop_last()));
        assert(n % 256 == bytes.last() as nat);
        assert(big_endian_bytes(n, bytes.len()) =~= bytes);
    }
}

/// The sequence number that `bytes` carry: exactly eight bytes, most
/// significant first. Any other length is malformed.
pub open spec fn parse_sequence_number(bytes: Seq<u8>) -> Option<u64> {
    if bytes.len() == 8 {
        Some(big_endian(bytes) as u64)
    } else {
        None
    }
}

/// Why a wire message cannot be read.
#[derive(Clone, Copy, Debug, PartialEq, Eq, Structural)]
pub enum MalformedMessage {
    /// The publisher is not the encoding of a peer identity.
    Source,
    /// The sequence number is not eight bytes long.
    SequenceNumber,
}

/// The message that a wire message carries. The publisher is looked at
/// first.
pub open spec fn parse_message(wire: WireMessageView) -> Result<MessageView, MalformedMessage> {
    if wire.from is Some && parse_peer(wire.from->0) is None {
        Err(MalformedMessage::Source)
    } else if wire.seqno is Some && parse_sequence_number(wire.seqno->0) is None {
        Err(MalformedMessage::SequenceNumber)
    } else {
        Ok(
            MessageView {
                source: match wire.from {
                    Some(b) => parse_peer(b),
                    None => None,
                },
                sequence_number: match wire.seqno {
                    Some(b) => parse_sequence_number(b),
                    None => None,
                },
                topics: wire.topic_ids,
                payload: wire.data,
            },
        )
    }
}

/// The wire form of a message.
pub open spec fn wire_form(msg: MessageView) -> WireMessageView {
    WireMessageView {
        from: msg.source,
        data: msg.payload,
        seqno: match msg.sequence_number {
            Some(n) => Some(big_endian_bytes(n as nat, 8)),
            None => None,
        },
        topic_ids: msg.topics,
    }
}

/// A message that was written to the wire is read back unchanged.
pub proof fn lemma_wire_round_trip(msg: MessageView)
    requires
        valid_message(msg),
    ensures
        parse_message(wire_form(msg)) == Ok::<MessageView, MalformedMessage>(msg),
{
    lemma_pow256_eight();
    match msg.sequence_number {
        Some(n) => {
            lemma_big_endian_of_bytes(n as nat, 8);
        },
        None => {},
    }
    let back = parse_message(wire_form(msg));
    assert(back is Ok);
    assert(back->Ok_0.source == msg.source);
    assert(back->Ok_0.sequence_number == msg.sequence_number);
}

/// A wire message that can be read is written back unchanged, where its
/// publisher is in its canonical encoding.
pub proof fn lemma_wire_forwarded_unchanged(wire: WireMessageView)
    requires
        parse_message(wire) is Ok,
        wire.from matches Some(b) ==> is_peer_id(b),
    ensures
        wire_form(parse_message(wire)->Ok_0) == wire,
{
    lemma_pow256_eight();
    match wire.seqno {
        Some(b) => {
            lemma_bytes_of_big_endian(b);
            lemma_big_endian_bound(b);
        },
        None => {},
    }
}

/// Writes a sequence number in eight bytes, most significant first.
pub fn encode_sequence_number(n: u64) -> (bytes: Vec<u8>)
    ensures
        bytes@ == big_endian_bytes(n as nat, 8),
{
    let mut low_first: Vec<u8> = Vec::new();
    let mut rest: u64 = n;
    let mut k: usize = 0;
    while k < 8
        invariant
            k <= 8,
            low_first.len() == k,
            big_endian_bytes(n as nat, 8) == big_endian_bytes(rest as nat, (8 - k) as nat)
                + low_first@.reverse(),
        decreases 8 - k,
    {
        let ghost before = low_first@;
        low_first.push((rest % 256) as u8);
        proof {
            assert(low_first@.reverse() =~= seq![(rest % 256) as u8] + before.reverse());
            assert(big_endian_bytes(rest as nat, (8 - k) as nat) == big_endian_bytes(
                (rest / 256) as nat,
                (8 - k - 1) as nat,
            ).push((rest % 256) as u8));
            assert(big_endian_bytes(rest as nat, (8 - k) as nat) + before.reverse()
                =~= big_endian_bytes((rest / 256) as nat, (8 - k - 1) as nat) + low_first@.reverse());
        }
        rest = rest / 256;
        k += 1;
    }
    let mut bytes: Vec<u8> = Vec::new();
    let mut i: usize = low_first.len();
    while i > 0
        invariant
            i <= low_first.len(),
            bytes.len() == low_first.len() - i,
            forall|j: int| 0 <= j < bytes.len() ==> bytes[j] == low_first[low_first.len() - 1 - j],
        decreases i,
    {
        i -= 1;
        bytes.push(low_first[i]);
    }
    assert(bytes@ =~= low_first@.reverse());
    assert(big_endian_bytes(rest as nat, 0) + low_first@.reverse() =~= low_first@.reverse());
    bytes
}

/// Reads a sequence number from eight bytes, most significant first.
pub fn decode_sequence_number(bytes: &Vec<u8>) -> (r: Option<u64>)
    ensures
        r == parse_sequence_number(bytes@),
{
    if bytes.len() != 8 {
        return None;
    }
    let mut n: u64 = 0;
    let mut i: usize = 0;
    while i < 8
        invariant
            bytes.len() == 8,
            i <= 8,
            n == big_endian(bytes@.take(i as int)),
            n < pow256(i as nat),
        decreases 8 - i,
    {
        proof {
            lemma_pow256_eight();
            reveal_with_fuel(pow256, 9);
            assert(bytes@.take(i + 1).drop_last() =~= bytes@.take(i as int));
        }
        n = n * 256 + bytes[i] as u64;
        i += 1;
    }
    assert(bytes@.take(8) =~= bytes@);
    Some(n)
}

/// Clones a list of strings into topic hashes.
fn topics_of_strings(strings: &Vec<String>) -> (topics: Vec<TopicHash>)
    ensures
        topic_views(topics@) == string_views(strings@),
{
    let mut topics: Vec<TopicHash> = Vec::new();
    let mut i: usize = 0;
    while i < strings.len()
        invariant
            i <= strings.len(),
            topics.len() == i,
            forall|j: int| 0 <= j < i ==> topics[j]@ == strings[j]@,
        decreases strings.len() - i,
    {
        topics.push(TopicHash::from_raw(strings[i].clone()));
        i += 1;
    }
    assert(topic_views(topics@) =~= string_views(strings@));
    topics
}

/// Clones a list of topic hashes into strings.
fn strings_of_topics(topics: &Vec<TopicHash>) -> (strings: Vec<String>)
    ensures
        string_views(strings@) == topic_views(topics@),
{
    let mut strings: Vec<String> = Vec::new();
    let mut i: usize = 0;
    while i < topics.len()
        invariant
            i <= topics.len(),
            strings.len() == i,
            forall|j: int| 0 <= j < i ==> strings[j]@ == topics[j]@,
        decreases topics.len() - i,
    {
        strings.push(topics[i].clone().into_string());
        i += 1;
    }
    assert(string_views(strings@) =~= topic_views(topics@));
    strings
}

/// Reads a message from its wire form.
pub fn decode_message(wire: &WireMessage) -> (r: Result<Message, MalformedMessage>)
    ensures
        match r {
            Ok(m) => parse_message(wire@) == Ok::<MessageView, MalformedMessage>(m@),
            Err(e) => parse_message(wire@) == Err::<MessageView, MalformedMessage>(e),
        },
{
    let source = match &wire.from {
        Some(bytes) => match PeerIdentity::from_bytes(bytes) {
            Some(p) => Some(p),
            None => {
                return Err(MalformedMessage::Source);
            },
        },
        None => None,
    };
    let sequence_number = match &wire.seqno {
        Some(bytes) => match decode_sequence_number(bytes) {
            Some(n) => Some(n),
            None => {
                return Err(MalformedMessage::SequenceNumber);
            },
        },
        None => None,
    };
    let topics = topics_of_strings(&wire.topic_ids);
    Ok(Message::from_parts(source, sequence_number, topics, wire.data.clone()))
}

/// Writes a message in its wire form.
pub fn encode_message(msg: &Message) -> (wire: WireMessage)
    ensures
        wire@ == wire_form(msg@),
        parse_message(wire@) == Ok::<MessageView, MalformedMessage>(msg@),
{
    let from = match msg.source() {
        Some(p) => Some(p.as_bytes().clone()),
        None => None,
    };
    proof {
        lemma_wire_round_trip(msg@);
    }
    let seqno = match msg.sequence_number() {
        Some(n) => Some(encode_sequence_number(n)),
        None => None,
    };
    WireMessage {
        from,
        data: msg.payload().clone(),
        seqno,
        topic_ids: strings_of_topics(msg.topics()),
    }
}

} // verus!

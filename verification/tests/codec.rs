use floodsub::rpc::{decode_message, decode_sequence_number, encode_message, encode_sequence_number};
use floodsub::{MalformedMessage, Message, PeerIdentity, Topic, TopicHash, WireMessage};
use libp2p::identity::PeerId;

fn wire(from: Option<Vec<u8>>, seqno: Option<Vec<u8>>) -> WireMessage {
    WireMessage { from, data: b"hello".to_vec(), seqno, topic_ids: vec!["news".to_string()] }
}

#[test]
fn sequence_number_is_written_most_significant_byte_first() {
    assert_eq!(encode_sequence_number(0), vec![0, 0, 0, 0, 0, 0, 0, 0]);
    assert_eq!(encode_sequence_number(1), vec![0, 0, 0, 0, 0, 0, 0, 1]);
    assert_eq!(encode_sequence_number(258), vec![0, 0, 0, 0, 0, 0, 1, 2]);
    assert_eq!(
        encode_sequence_number(0x0102030405060708),
        vec![1, 2, 3, 4, 5, 6, 7, 8]
    );
    assert_eq!(encode_sequence_number(u64::MAX), vec![255; 8]);
    assert_eq!(encode_sequence_number(644222), 644222u64.to_be_bytes().to_vec());
}

#[test]
fn sequence_number_is_read_most_significant_byte_first() {
    assert_eq!(decode_sequence_number(&vec![0, 0, 0, 0, 0, 0, 0, 0]), Some(0));
    assert_eq!(decode_sequence_number(&vec![0, 0, 0, 0, 0, 0, 1, 2]), Some(258));
    assert_eq!(
        decode_sequence_number(&vec![1, 2, 3, 4, 5, 6, 7, 8]),
        Some(0x0102030405060708)
    );
    assert_eq!(decode_sequence_number(&vec![255; 8]), Some(u64::MAX));
}

#[test]
fn sequence_number_of_another_length_is_malformed() {
    assert_eq!(decode_sequence_number(&Vec::new()), None);
    assert_eq!(decode_sequence_number(&vec![0; 7]), None);
    assert_eq!(decode_sequence_number(&vec![0; 9]), None);
}

#[test]
fn sequence_number_survives_the_round_trip() {
    for n in [0u64, 1, 255, 256, 644222, u64::MAX - 1, u64::MAX] {
        assert_eq!(decode_sequence_number(&encode_sequence_number(n)), Some(n));
    }
}

#[test]
fn message_with_all_parts_is_read() {
    let peer = PeerId::random();
    let message = decode_message(&wire(Some(peer.to_bytes()), Some(vec![0, 0, 0, 0, 0, 0, 0, 5])))
        .expect("well formed");

    assert_eq!(
        message.source().as_ref().map(|p| p.as_bytes().clone()),
        Some(peer.to_bytes())
    );
    assert_eq!(message.sequence_number(), Some(5));
    assert_eq!(message.payload(), &b"hello".to_vec());
    assert_eq!(message.topics().len(), 1);
    assert_eq!(message.topics()[0].as_str(), "news");
}

#[test]
fn message_without_source_and_sequence_number_is_read() {
    let message = decode_message(&wire(None, None)).expect("well formed");

    assert!(message.source().is_none());
    assert_eq!(message.sequence_number(), None);
    assert_eq!(message.payload(), &b"hello".to_vec());
}

#[test]
fn message_with_a_bad_source_is_malformed() {
    let result = decode_message(&wire(Some(vec![1, 2, 3]), None));
    assert_eq!(result.err(), Some(MalformedMessage::Source));

    let result = decode_message(&wire(Some(Vec::new()), None));
    assert_eq!(result.err(), Some(MalformedMessage::Source));
}

#[test]
fn message_with_a_bad_sequence_number_is_malformed() {
    let peer = PeerId::random();
    let result = decode_message(&wire(Some(peer.to_bytes()), Some(vec![1, 2, 3])));
    assert_eq!(result.err(), Some(MalformedMessage::SequenceNumber));
}

#[test]
fn a_bad_source_is_reported_before_a_bad_sequence_number() {
    let result = decode_message(&wire(Some(vec![9]), Some(vec![1, 2, 3])));
    assert_eq!(result.err(), Some(MalformedMessage::Source));
}

#[test]
fn message_is_written_in_its_wire_form() {
    let peer = PeerId::random();
    let source = PeerIdentity::from_bytes(&peer.to_bytes()).expect("canonical");
    let topics = vec![
        TopicHash::from_raw("a".to_string()),
        TopicHash::from_raw("b".to_string()),
    ];
    let message = Message::from_parts(Some(source), Some(258), topics, b"data".to_vec());

    let wire = encode_message(&message);

    assert_eq!(wire.from, Some(peer.to_bytes()));
    assert_eq!(wire.seqno, Some(vec![0, 0, 0, 0, 0, 0, 1, 2]));
    assert_eq!(wire.data, b"data".to_vec());
    assert_eq!(wire.topic_ids, vec!["a".to_string(), "b".to_string()]);
}

#[test]
fn anonymous_message_is_written_without_source_and_sequence_number() {
    let message = Message::new(Topic::new("news".to_string()), b"hello".to_vec());

    let wire = encode_message(&message);

    assert_eq!(wire.from, None);
    assert_eq!(wire.seqno, None);
    assert_eq!(wire.data, b"hello".to_vec());
    assert_eq!(wire.topic_ids, vec!["news".to_string()]);
}

#[test]
fn message_survives_the_round_trip() {
    let peer = PeerId::random();
    let source = PeerIdentity::from_bytes(&peer.to_bytes()).expect("canonical");
    let topics = vec![TopicHash::from_raw("a".to_string())];
    let message = Message::from_parts(Some(source.clone()), Some(u64::MAX), topics, b"data".to_vec());

    let back = decode_message(&encode_message(&message)).expect("well formed");

    assert_eq!(back.source(), &Some(source));
    assert_eq!(back.sequence_number(), Some(u64::MAX));
    assert_eq!(back.payload(), message.payload());
    assert_eq!(back.topics(), message.topics());
}

#[test]
fn new_message_has_one_topic_and_nothing_else() {
    let message = Message::new(Topic::new("news".to_string()), b"hello".to_vec());

    assert!(message.source().is_none());
    assert_eq!(message.sequence_number(), None);
    assert_eq!(message.topics(), &vec![TopicHash::from_raw("news".to_string())]);
    assert_eq!(message.payload(), &b"hello".to_vec());
}

#[test]
fn topic_hash_is_the_name() {
    let topic = Topic::new("news".to_string());
    assert_eq!(topic.name(), "news");
    assert_eq!(topic.hash().as_str(), "news");
    assert_eq!(topic.hash(), Topic::new("news".to_string()).hash());
    assert_ne!(topic.hash(), Topic::new("sport".to_string()).hash());
    assert_eq!(topic.hash().into_string(), "news".to_string());
}

#[test]
fn messages_are_equal_when_all_their_parts_are() {
    let peer = PeerId::random();
    let source = PeerIdentity::from_bytes(&peer.to_bytes()).expect("canonical");
    let make = |seqno: Option<u64>, topic: &str, data: &[u8]| {
        Message::from_parts(
            Some(source.clone()),
            seqno,
            vec![TopicHash::from_raw(topic.to_string())],
            data.to_vec(),
        )
    };
    let message = make(Some(1), "a", b"data");

    assert_eq!(message, message.clone());
    assert_eq!(message, make(Some(1), "a", b"data"));
    assert_ne!(message, make(Some(2), "a", b"data"));
    assert_ne!(message, make(None, "a", b"data"));
    assert_ne!(message, make(Some(1), "b", b"data"));
    assert_ne!(message, make(Some(1), "a", b"other"));
    let mut anonymous = make(Some(1), "a", b"data");
    anonymous.set_source(None);
    assert_ne!(message, anonymous);
}

#[test]
fn wire_message_is_forwarded_unchanged() {
    let peer = PeerId::random();
    let wire = WireMessage {
        from: Some(peer.to_bytes()),
        data: b"hello".to_vec(),
        seqno: Some(vec![0, 0, 0, 0, 0, 0, 0, 5]),
        topic_ids: vec!["news".to_string(), "sport".to_string()],
    };

    let again = encode_message(&decode_message(&wire).expect("well formed"));

    assert_eq!(again, wire);
}

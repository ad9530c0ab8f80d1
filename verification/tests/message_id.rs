use bytes::Bytes;
use floodsub::message_id::{common_prefix, decimal_digits};
use floodsub::{default_message_id_fn, DefaultMessageIdFn, IdentTopic, Message, MessageId, MessageIdFn, PeerIdentity};
use libp2p::identity::PeerId;
use rand::Rng;
use std::cmp::Ordering;

fn new_test_topic() -> IdentTopic {
    IdentTopic::new(format!("/test-{}/0.1.0", rand::thread_rng().gen::<u32>()))
}

fn identity_of(peer: PeerId) -> PeerIdentity {
    PeerIdentity::from_bytes(&peer.to_bytes()).expect("a peer id is a peer identity")
}

fn new_test_message(source: Option<PeerId>, seqno: Option<u64>) -> Message {
    let mut message = Message::new(new_test_topic(), b"test-data".to_vec());
    message.set_source(source.map(identity_of));
    message.set_sequence_number(seqno);
    message
}

#[test]
fn default_message_id_fn_should_return_same_id_for_same_message() {
    //// Given
    let source = PeerId::random();
    let message = new_test_message(Some(source), Some(644222));

    let id_fn = DefaultMessageIdFn;

    //// When
    let message_id = id_fn.message_id(&message);
    let message_id2 = id_fn.message_id(&message);

    //// Then
    assert_eq!(message_id, message_id2);
}

#[test]
fn default_message_id_fn_should_return_same_id_for_same_message_no_source() {
    //// Given
    let message = new_test_message(None, Some(644222));

    let id_fn = DefaultMessageIdFn;

    //// When
    let message_id = id_fn.message_id(&message);
    let message_id2 = id_fn.message_id(&message);

    //// Then
    assert_eq!(message_id, message_id2);
}

#[test]
fn default_id_is_base58_of_source_then_decimal_sequence_number() {
    let source = PeerId::random();
    let message = new_test_message(Some(source), Some(644222));

    let id = default_message_id_fn(&message);

    let mut expected = source.to_base58();
    expected.push_str("644222");
    assert_eq!(id.into_vec(), expected.into_bytes());
}

#[test]
fn default_id_without_source_uses_the_zero_identity() {
    let message = new_test_message(None, Some(644222));

    let id = default_message_id_fn(&message);

    assert_eq!(id.as_bytes().as_slice(), b"15R644222");
    let mut expected = PeerId::from_bytes(&[0, 1, 0]).expect("valid peer id").to_base58();
    expected.push_str("644222");
    assert_eq!(id.into_vec(), expected.into_bytes());
}

#[test]
fn default_id_without_sequence_number_uses_zero() {
    let source = PeerId::random();
    let message = new_test_message(Some(source), None);

    let id = default_message_id_fn(&message);

    let mut expected = source.to_base58();
    expected.push('0');
    assert_eq!(id.into_vec(), expected.into_bytes());
}

#[test]
fn anonymous_unsequenced_messages_collide() {
    let first = Message::new(IdentTopic::new("a".to_string()), b"one".to_vec());
    let second = Message::new(IdentTopic::new("b".to_string()), b"two".to_vec());

    let first_id = default_message_id_fn(&first);
    let second_id = default_message_id_fn(&second);

    assert_eq!(first_id, second_id);
    assert_eq!(first_id.as_bytes().as_slice(), b"15R0");
}

#[test]
fn default_id_ignores_topics_and_payload() {
    let source = PeerId::random();
    let mut first = Message::new(IdentTopic::new("a".to_string()), b"one".to_vec());
    first.set_source(Some(identity_of(source)));
    first.set_sequence_number(Some(7));
    let mut second = Message::new(IdentTopic::new("b".to_string()), b"two".to_vec());
    second.set_source(Some(identity_of(source)));
    second.set_sequence_number(Some(7));

    assert_eq!(default_message_id_fn(&first), default_message_id_fn(&second));
}

#[test]
fn different_sequence_numbers_give_different_ids() {
    let source = PeerId::random();
    let first = new_test_message(Some(source), Some(1));
    let second = new_test_message(Some(source), Some(2));

    assert_ne!(default_message_id_fn(&first), default_message_id_fn(&second));
}

#[test]
fn decimal_digits_of_zero() {
    assert_eq!(decimal_digits(0), b"0".to_vec());
}

#[test]
fn decimal_digits_of_small_numbers() {
    assert_eq!(decimal_digits(9), b"9".to_vec());
    assert_eq!(decimal_digits(10), b"10".to_vec());
    assert_eq!(decimal_digits(644222), b"644222".to_vec());
}

#[test]
fn decimal_digits_of_the_largest_number() {
    assert_eq!(decimal_digits(u64::MAX), b"18446744073709551615".to_vec());
    assert_eq!(decimal_digits(u64::MAX), u64::MAX.to_string().into_bytes());
}

#[test]
fn message_id_from_vec_and_slice_agree() {
    let from_vec = MessageId::new(vec![1, 2, 3]);
    let from_slice = MessageId::new_from_slice(&[1, 2, 3]);
    let converted = MessageId::from(vec![1, 2, 3]);

    assert_eq!(from_vec, from_slice);
    assert_eq!(from_vec, converted);
    assert_ne!(from_vec, MessageId::new(vec![1, 2]));
    assert_ne!(from_vec, MessageId::new(vec![1, 2, 4]));
}

#[test]
fn message_id_converts_to_and_from_bytes() {
    let id = MessageId::from(Bytes::from(vec![9u8, 8, 7]));
    assert_eq!(id.as_bytes().as_slice(), &[9u8, 8, 7]);

    let back: Bytes = Bytes::from(id);
    assert_eq!(back.as_ref(), &[9u8, 8, 7]);
}

#[test]
fn message_id_prints_as_lower_case_hex() {
    let id = MessageId::new(vec![0x0a, 0x1b, 0x2c, 0x3d, 0x4e, 0x5f]);
    assert_eq!(id.to_string(), "0a1b2c3d4e5f");
    assert_eq!(id.debug_string(), "MessageId(0a1b2c3d4e5f)");
}

#[test]
fn message_id_prints_long_identities_in_full() {
    let id = MessageId::new(vec![0xff; 40]);
    assert_eq!(id.to_string(), "ff".repeat(40));
}

#[test]
fn empty_message_id_prints_as_nothing() {
    let id = MessageId::new(Vec::new());
    assert_eq!(id.to_string(), "");
    assert_eq!(id.debug_string(), "MessageId()");
}

#[test]
fn message_ids_order_byte_by_byte() {
    assert!(MessageId::new(vec![1, 2]) < MessageId::new(vec![1, 3]));
    assert!(MessageId::new(vec![1, 2]) < MessageId::new(vec![1, 2, 0]));
    assert!(MessageId::new(vec![2]) > MessageId::new(vec![1, 255]));
}

#[test]
fn common_prefix_counts_the_leading_bytes_in_common() {
    assert_eq!(common_prefix(&vec![1, 2, 3], &vec![1, 2, 4]), 2);
    assert_eq!(common_prefix(&vec![1, 2, 3], &vec![1, 2, 3]), 3);
    assert_eq!(common_prefix(&vec![1, 2], &vec![1, 2, 3]), 2);
    assert_eq!(common_prefix(&vec![9], &vec![1, 2, 3]), 0);
    assert_eq!(common_prefix(&Vec::new(), &vec![1]), 0);
}

#[test]
fn message_ids_compare_as_their_bytes_do() {
    let cases: Vec<(Vec<u8>, Vec<u8>)> = vec![
        (vec![], vec![]),
        (vec![], vec![0]),
        (vec![0], vec![]),
        (vec![1, 2, 3], vec![1, 2, 3]),
        (vec![1, 2, 3], vec![1, 2, 4]),
        (vec![1, 3], vec![1, 2, 4]),
        (vec![255], vec![0, 255]),
    ];
    for (a, b) in cases {
        let expected = a.cmp(&b);
        let left = MessageId::new(a);
        let right = MessageId::new(b);
        assert_eq!(left.partial_cmp(&right), Some(expected));
        assert_eq!(left.cmp(&right), expected);
        assert_eq!(left == right, expected == Ordering::Equal);
    }
}

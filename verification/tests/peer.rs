use floodsub::PeerIdentity;
use libp2p::identity::PeerId;

#[test]
fn canonical_encoding_is_read_unchanged() {
    let peer = PeerId::random();
    let identity = PeerIdentity::from_bytes(&peer.to_bytes()).expect("canonical");
    assert_eq!(identity.as_bytes(), &peer.to_bytes());
}

#[test]
fn sha256_coded_identity_is_read() {
    let mut bytes = vec![0x12, 32];
    bytes.extend_from_slice(&[7u8; 32]);
    let identity = PeerIdentity::from_bytes(&bytes).expect("canonical");
    assert_eq!(identity.as_bytes(), &bytes);
    assert_eq!(
        identity.to_base58(),
        PeerId::from_bytes(&bytes).expect("valid").to_base58().into_bytes()
    );
}

#[test]
fn garbage_is_not_a_peer_identity() {
    assert!(PeerIdentity::from_bytes(&Vec::new()).is_none());
    assert!(PeerIdentity::from_bytes(&vec![0x12]).is_none());
    assert!(PeerIdentity::from_bytes(&vec![0x13, 1, 0]).is_none());
    assert!(PeerIdentity::from_bytes(&vec![0, 2, 0]).is_none());
    assert!(PeerIdentity::from_bytes(&vec![0, 1, 0, 0]).is_none());
}

#[test]
fn inline_identity_longer_than_the_limit_is_refused() {
    let mut bytes = vec![0x00, 43];
    bytes.extend_from_slice(&[1u8; 43]);
    assert!(PeerIdentity::from_bytes(&bytes).is_none());

    let mut bytes = vec![0x00, 42];
    bytes.extend_from_slice(&[1u8; 42]);
    assert!(PeerIdentity::from_bytes(&bytes).is_some());
}

#[test]
fn digest_longer_than_sixty_four_bytes_is_refused() {
    let mut bytes = vec![0x12, 65];
    bytes.extend_from_slice(&[1u8; 65]);
    assert!(PeerIdentity::from_bytes(&bytes).is_none());

    let mut bytes = vec![0x12, 64];
    bytes.extend_from_slice(&[1u8; 64]);
    assert!(PeerIdentity::from_bytes(&bytes).is_some());
}

#[test]
fn over_long_encoding_is_read_as_the_canonical_one() {
    // The code 0x12 spelt in ten bytes, then a digest of no byte.
    let bytes = vec![0x92, 0x80, 0x80, 0x80, 0x80, 0x80, 0x80, 0x80, 0x80, 0x02, 0x00];
    let peer = PeerId::from_bytes(&bytes).expect("libp2p reads it");

    let identity = PeerIdentity::from_bytes(&bytes).expect("libp2p reads it");

    assert_eq!(identity.as_bytes(), &peer.to_bytes());
    assert_eq!(identity.as_bytes(), &vec![0x12, 0x00]);
    assert_eq!(identity.to_base58(), peer.to_base58().into_bytes());
}

#[test]
fn zero_identity_is_the_one_byte_inline_identity() {
    let zero = PeerIdentity::zero();
    assert_eq!(zero.as_bytes(), &vec![0u8, 1, 0]);
    assert_eq!(zero.to_base58(), b"15R".to_vec());
}

#[test]
fn base58_is_what_libp2p_prints() {
    let peer = PeerId::random();
    let identity = PeerIdentity::from_bytes(&peer.to_bytes()).expect("canonical");
    assert_eq!(identity.to_base58(), peer.to_base58().into_bytes());
    assert_ne!(identity.to_base58(), peer.to_bytes());
}

#[test]
fn identities_are_equal_when_their_bytes_are() {
    let peer = PeerId::random();
    let other = PeerId::random();
    let a = PeerIdentity::from_bytes(&peer.to_bytes()).expect("canonical");
    let b = PeerIdentity::from_bytes(&peer.to_bytes()).expect("canonical");
    let c = PeerIdentity::from_bytes(&other.to_bytes()).expect("canonical");
    assert_eq!(a, b);
    assert_eq!(a, a.clone());
    assert_ne!(a, c);
}

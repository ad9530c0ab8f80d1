//! Peer identities, held as the canonical bytes of a libp2p peer id.

use libp2p::identity::PeerId;
use vstd::prelude::*;

verus! {

/// Multihash code of a SHA-256 digest.
pub const SHA256_CODE: u8 = 0x12;

/// Multihash code of an identity ("inline") digest.
pub const IDENTITY_CODE: u8 = 0x00;

/// Longest digest a multihash of a peer id can carry.
pub const MAX_DIGEST_LEN: u8 = 64;

/// Longest digest an identity-coded peer id can carry.
pub const MAX_INLINE_LEN: u8 = 42;

/// The canonical encoding of a peer id: one byte of code, one byte of digest
/// length, then exactly that many digest bytes.
pub open spec fn is_peer_id(bytes: Seq<u8>) -> bool {
    &&& bytes.len() >= 2
    &&& bytes.len() == 2 + bytes[1]
    &&& {
        ||| bytes[0] == SHA256_CODE && bytes[1] <= MAX_DIGEST_LEN
        ||| bytes[0] == IDENTITY_CODE && bytes[1] <= MAX_INLINE_LEN
    }
}

/// The base-58 text, as ASCII bytes, that libp2p prints for the peer id it
/// reads from `bytes`.
pub uninterp spec fn peer_base58(bytes: Seq<u8>) -> Seq<u8>;

/// What libp2p reads from `bytes`: the canonical encoding of the peer id, or
/// nothing where it rejects them.
pub uninterp spec fn libp2p_reading(bytes: Seq<u8>) -> Option<Seq<u8>>;

/// The peer id that `bytes` stand for, in its canonical encoding. A
/// canonical encoding stands for itself. On any other input libp2p decides:
/// it rejects most, but reads some over-long encodings as the peer id they
/// spell.
pub open spec fn parse_peer(bytes: Seq<u8>) -> Option<Seq<u8>> {
    if is_peer_id(bytes) {
        Some(bytes)
    } else {
        match libp2p_reading(bytes) {
            Some(c) => if is_peer_id(c) {
                Some(c)
            } else {
                None
            },
            None => None,
        }
    }
}

/// Calls `PeerId::from_bytes` and, where it accepts, `PeerId::to_bytes`.
///
/// Claimed of libp2p: the outcome depends on the bytes alone; whatever comes
/// back is a canonical encoding; a canonical encoding is accepted and comes
/// back unchanged.
#[verifier::external_body]
fn canonical_peer_bytes(bytes: &Vec<u8>) -> (r: Option<Vec<u8>>)
    ensures
        r is None ==> libp2p_reading(bytes@) is None && !is_peer_id(bytes@),
        r matches Some(c) ==> libp2p_reading(bytes@) == Some(c@) && is_peer_id(c@) && (is_peer_id(
            bytes@,
        ) ==> c@ == bytes@),
{
    match PeerId::from_bytes(bytes) {
        Ok(id) => Some(id.to_bytes()),
        Err(_) => None,
    }
}

/// Calls `PeerId::to_base58` on the peer id that `PeerId::from_bytes` reads
/// from `bytes`, where it reads one.
///
/// Claimed of libp2p: a canonical encoding is read, and the text printed
/// depends on the bytes alone.
#[verifier::external_body]
fn base58_of_peer_bytes(bytes: &Vec<u8>) -> (r: Option<Vec<u8>>)
    ensures
        r is None ==> !is_peer_id(bytes@),
        r matches Some(text) ==> text@ == peer_base58(bytes@),
{
    match PeerId::from_bytes(bytes) {
        Ok(id) => Some(id.to_base58().into_bytes()),
        Err(_) => None,
    }
}

/// The bytes of an optional peer identity.
pub open spec fn peer_view(peer: Option<PeerIdentity>) -> Option<Seq<u8>> {
    match peer {
        Some(p) => Some(p@),
        None => None,
    }
}

/// The identity of a peer.
#[derive(Debug, Eq, Hash, PartialOrd, Ord)]
pub struct PeerIdentity {
    bytes: Vec<u8>,
}

impl View for PeerIdentity {
    type V = Seq<u8>;

    closed spec fn view(&self) -> Seq<u8> {
        self.bytes@
    }
}

impl PeerIdentity {
    /// Every peer identity is a canonical encoding.
    #[verifier::type_invariant]
    pub open spec fn canonical(self) -> bool {
        is_peer_id(self@)
    }

    /// Reads a peer identity from its encoding.
    pub fn from_bytes(bytes: &Vec<u8>) -> (r: Option<PeerIdentity>)
        ensures
            peer_view(r) == parse_peer(bytes@),
    {
        match canonical_peer_bytes(bytes) {
            Some(c) => Some(PeerIdentity { bytes: c }),
            None => None,
        }
    }

    /// The all-zero identity that stands in for an absent publisher.
    pub fn zero() -> (p: PeerIdentity)
        ensures
            p@ == seq![0u8, 1u8, 0u8],
    {
        let mut bytes: Vec<u8> = Vec::new();
        bytes.push(0);
        bytes.push(1);
        bytes.push(0);
        assert(bytes@ =~= seq![0u8, 1u8, 0u8]);
        PeerIdentity { bytes }
    }

    /// The canonical encoding of this identity.
    pub fn as_bytes(&self) -> (b: &Vec<u8>)
        ensures
            b@ == self@,
            is_peer_id(self@),
    {
        proof {
            use_type_invariant(self);
        }
        &self.bytes
    }

    /// The base-58 text of this identity, as ASCII bytes.
    pub fn to_base58(&self) -> (text: Vec<u8>)
        ensures
            text@ == peer_base58(self@),
    {
        proof {
            use_type_invariant(self);
        }
        base58_of_peer_bytes(&self.bytes).unwrap()
    }
}

impl Clone for PeerIdentity {
    fn clone(&self) -> (r: Self)
        ensures
            r@ == self@,
    {
        proof {
            use_type_invariant(self);
        }
        PeerIdentity { bytes: self.bytes.clone() }
    }
}

impl PartialEq for PeerIdentity {
    fn eq(&self, other: &Self) -> (r: bool) {
        let r = self.bytes == other.bytes;
        proof {
            if r {
                assert(self.bytes@ =~= other.bytes@);
            }
        }
        r
    }
}

impl vstd::std_specs::cmp::PartialEqSpecImpl for PeerIdentity {
    open spec fn obeys_eq_spec() -> bool {
        true
    }

    open spec fn eq_spec(&self, other: &Self) -> bool {
        self@ == other@
    }
}

} // verus!

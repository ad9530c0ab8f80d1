//! Message identities and the function that derives them.

use crate::message::{Message, MessageView};
use crate::peer::{peer_base58, PeerIdentity};
use bytes::Bytes;
use core::cmp::Ordering;
use vstd::prelude::*;
use vstd::std_specs::convert::FromSpecImpl;
use vstd::string::StringExecFns;

verus! {

/// The `Bytes` buffer of the bytes crate, carried through as it is.
#[verifier::external_type_specification]
#[verifier::external_body]
pub struct ExBytes(Bytes);

/// The bytes that a `Bytes` buffer holds, in order.
pub uninterp spec fn bytes_content(buffer: Bytes) -> Seq<u8>;

/// Copies a `Bytes` buffer out through its slice (`to_vec`).
///
/// Claimed of the bytes crate: the copy holds what the buffer holds.
#[verifier::external_body]
fn bytes_to_vec(buffer: &Bytes) -> (v: Vec<u8>)
    ensures
        v@ == bytes_content(*buffer),
{
    buffer.to_vec()
}

/// Calls `Bytes::from` on a vector.
///
/// Claimed of the bytes crate: the buffer holds what the vector held.
#[verifier::external_body]
fn bytes_from_vec(v: Vec<u8>) -> (buffer: Bytes)
    ensures
        bytes_content(buffer) == v@,
{
    Bytes::from(v)
}

/// The lower-case hexadecimal digit of a value below sixteen.
pub open spec fn hex_digit(d: u8) -> char {
    if d < 10 {
        ((48 + d) as u8) as char
    } else {
        ((87 + d) as u8) as char
    }
}

/// Two lower-case hexadecimal digits for each byte, high digit first.
pub open spec fn lower_hex(bytes: Seq<u8>) -> Seq<char> {
    Seq::new(
        2 * bytes.len(),
        |i: int|
            hex_digit(
                if i % 2 == 0 {
                    bytes[i / 2] / 16
                } else {
                    bytes[i / 2] % 16
                },
            ),
    )
}

/// Formats with hex_fmt's `HexFmt`, without width or precision.
///
/// Claimed of hex_fmt: with no width and no precision given, the whole
/// slice is printed, two lower-case digits for each byte.
#[verifier::external_body]
fn hex_string(bytes: &Vec<u8>) -> (s: String)
    ensures
        s@ == lower_hex(bytes@),
{
    format!("{}", hex_fmt::HexFmt(bytes))
}

/// How many leading bytes two byte strings have in common.
pub open spec fn common_prefix_len(a: Seq<u8>, b: Seq<u8>) -> int
    decreases a.len(),
{
    if a.len() == 0 || b.len() == 0 || a[0] != b[0] {
        0
    } else {
        1 + common_prefix_len(a.skip(1), b.skip(1))
    }
}

/// Counts the leading bytes that two byte strings have in common.
pub fn common_prefix(a: &Vec<u8>, b: &Vec<u8>) -> (k: usize)
    ensures
        k == common_prefix_len(a@, b@),
        k <= a.len(),
        k <= b.len(),
{
    let mut i: usize = 0;
    proof {
        assert(a@.skip(0) =~= a@);
        assert(b@.skip(0) =~= b@);
    }
    while i < a.len() && i < b.len() && a[i] == b[i]
        invariant
            i <= a.len(),
            i <= b.len(),
            common_prefix_len(a@, b@) == i + common_prefix_len(a@.skip(i as int), b@.skip(i as int)),
        decreases a.len() - i,
    {
        proof {
            assert(a@.skip(i as int).skip(1) =~= a@.skip(i + 1));
            assert(b@.skip(i as int).skip(1) =~= b@.skip(i + 1));
        }
        i += 1;
    }
    i
}

/// How two byte strings compare: by the first byte in which they differ,
/// and a proper prefix before what it is a prefix of.
pub open spec fn lexicographic(a: Seq<u8>, b: Seq<u8>) -> Ordering {
    let k = common_prefix_len(a, b);
    if k < a.len() && k < b.len() {
        if a[k] < b[k] {
            Ordering::Less
        } else {
            Ordering::Greater
        }
    } else if k < b.len() {
        Ordering::Less
    } else if k < a.len() {
        Ordering::Greater
    } else {
        Ordering::Equal
    }
}

/// The identity of a message: an opaque byte string, compared byte by byte.
#[derive(Debug, Eq, Hash, Ord)]
pub struct MessageId {
    bytes: Vec<u8>,
}

impl View for MessageId {
    type V = Seq<u8>;

    closed spec fn view(&self) -> Seq<u8> {
        self.bytes@
    }
}

impl MessageId {
    /// The identity that is the bytes of `value`.
    pub fn new(value: Vec<u8>) -> (id: MessageId)
        ensures
            id@ == value@,
    {
        MessageId { bytes: value }
    }

    /// The identity that is a copy of the bytes of `value`.
    pub fn new_from_slice(value: &[u8]) -> (id: MessageId)
        ensures
            id@ == value@,
    {
        let mut bytes: Vec<u8> = Vec::new();
        let mut i: usize = 0;
        while i < value.len()
            invariant
                i <= value.len(),
                bytes@ == value@.take(i as int),
            decreases value.len() - i,
        {
            bytes.push(value[i]);
            assert(value@.take(i + 1) =~= value@.take(i as int).push(value@[i as int]));
            i += 1;
        }
        assert(value@.take(value.len() as int) =~= value@);
        MessageId { bytes }
    }

    /// The bytes of the identity.
    pub fn into_vec(self) -> (v: Vec<u8>)
        ensures
            v@ == self@,
    {
        self.bytes
    }

    /// The bytes of the identity.
    pub fn as_bytes(&self) -> (b: &Vec<u8>)
        ensures
            b@ == self@,
    {
        &self.bytes
    }

    /// The identity in lower-case hexadecimal.
    pub fn to_string(&self) -> (s: String)
        ensures
            s@ == lower_hex(self@),
    {
        hex_string(&self.bytes)
    }

    /// The identity in lower-case hexadecimal, wrapped in the type's name.
    pub fn debug_string(&self) -> (s: String)
        ensures
            s@ == "MessageId("@ + lower_hex(self@) + ")"@,
    {
        let mut s = String::from_str("MessageId(");
        let hex = hex_string(&self.bytes);
        s.append(hex.as_str());
        s.append(")");
        s
    }
}

impl Clone for MessageId {
    fn clone(&self) -> (r: Self)
        ensures
            r@ == self@,
    {
        MessageId { bytes: self.bytes.clone() }
    }
}

impl PartialEq for MessageId {
    fn eq(&self, other: &Self) -> (r: bool) {
        let r = self.bytes == other.bytes;
        proof {
            if r {
                assert(self.bytes@ =~= other.bytes@);
            }
        }
        r
    }
}

impl vstd::std_specs::cmp::PartialEqSpecImpl for MessageId {
    open spec fn obeys_eq_spec() -> bool {
        true
    }

    open spec fn eq_spec(&self, other: &Self) -> bool {
        self@ == other@
    }
}

impl PartialOrd for MessageId {
    fn partial_cmp(&self, other: &Self) -> (r: Option<Ordering>) {
        let k = common_prefix(&self.bytes, &other.bytes);
        if k < self.bytes.len() && k < other.bytes.len() {
            if self.bytes[k] < other.bytes[k] {
                Some(Ordering::Less)
            } else {
                Some(Ordering::Greater)
            }
        } else if k < other.bytes.len() {
            Some(Ordering::Less)
        } else if k < self.bytes.len() {
            Some(Ordering::Greater)
        } else {
            Some(Ordering::Equal)
        }
    }
}

impl vstd::std_specs::cmp::PartialOrdSpecImpl for MessageId {
    open spec fn obeys_partial_cmp_spec() -> bool {
        true
    }

    open spec fn partial_cmp_spec(&self, other: &Self) -> Option<Ordering> {
        Some(lexicographic(self@, other@))
    }
}

impl From<Vec<u8>> for MessageId {
    fn from(value: Vec<u8>) -> (id: MessageId)
        ensures
            id@ == value@,
    {
        MessageId { bytes: value }
    }
}

// What each conversion returns is stated on the conversion itself, over the
// views; none of them has a value-level specification.
impl FromSpecImpl<Vec<u8>> for MessageId {
    open spec fn obeys_from_spec() -> bool {
        false
    }

    open spec fn from_spec(v: Vec<u8>) -> MessageId {
        arbitrary()
    }
}

impl From<Bytes> for MessageId {
    fn from(value: Bytes) -> (id: MessageId)
        ensures
            id@ == bytes_content(value),
    {
        MessageId { bytes: bytes_to_vec(&value) }
    }
}

impl FromSpecImpl<Bytes> for MessageId {
    open spec fn obeys_from_spec() -> bool {
        false
    }

    open spec fn from_spec(v: Bytes) -> MessageId {
        arbitrary()
    }
}

impl From<MessageId> for Bytes {
    fn from(value: MessageId) -> (buffer: Bytes)
        ensures
            bytes_content(buffer) == value@,
    {
        bytes_from_vec(value.into_vec())
    }
}

impl FromSpecImpl<MessageId> for Bytes {
    open spec fn obeys_from_spec() -> bool {
        false
    }

    open spec fn from_spec(v: MessageId) -> Bytes {
        arbitrary()
    }
}

/// The decimal digits of `n`, as ASCII bytes, without leading zeros.
pub open spec fn decimal(n: nat) -> Seq<u8>
    decreases n,
{
    if n < 10 {
        seq![(48 + n) as u8]
    } else {
        decimal(n / 10).push((48 + n % 10) as u8)
    }
}

/// Writes `n` in decimal.
pub fn decimal_digits(n: u64) -> (digits: Vec<u8>)
    ensures
        digits@ == decimal(n as nat),
{
    let mut low_first: Vec<u8> = Vec::new();
    let mut rest: u64 = n;
    while rest >= 10
        invariant
            decimal(n as nat) == decimal(rest as nat) + low_first@.reverse(),
        decreases rest,
    {
        let digit: u8 = (rest % 10) as u8;
        let ghost before = low_first@;
        low_first.push(48 + digit);
        assert(low_first@.reverse() =~= seq![(48 + digit) as u8] + before.reverse());
        assert(decimal(rest as nat) == decimal((rest / 10) as nat).push((48 + digit) as u8));
        assert(decimal((rest / 10) as nat).push((48 + digit) as u8) + before.reverse()
            =~= decimal((rest / 10) as nat) + low_first@.reverse());
        rest = rest / 10;
    }
    let ghost before = low_first@;
    low_first.push(48 + (rest as u8));
    assert(low_first@.reverse() =~= decimal(rest as nat) + before.reverse());
    let mut digits: Vec<u8> = Vec::new();
    let mut i: usize = low_first.len();
    while i > 0
        invariant
            i <= low_first.len(),
            digits.len() == low_first.len() - i,
            forall|j: int| 0 <= j < digits.len() ==> digits[j] == low_first[low_first.len() - 1 - j],
        decreases i,
    {
        i -= 1;
        digits.push(low_first[i]);
    }
    assert(digits@ =~= low_first@.reverse());
    digits
}

/// The encoding of the all-zero identity that stands in for an absent
/// publisher.
pub open spec fn zero_peer() -> Seq<u8> {
    seq![0u8, 1u8, 0u8]
}

/// The default identity of a message: the base-58 text of its publisher (of
/// the all-zero identity where there is none), followed by its sequence
/// number in decimal (zero where there is none).
pub open spec fn default_message_id(msg: MessageView) -> Seq<u8> {
    let source = match msg.source {
        Some(p) => p,
        None => zero_peer(),
    };
    let number: u64 = match msg.sequence_number {
        Some(n) => n,
        None => 0,
    };
    peer_base58(source) + decimal(number as nat)
}

/// Computes the default identity of a message.
pub fn default_message_id_fn(msg: &Message) -> (id: MessageId)
    ensures
        id@ == default_message_id(msg@),
{
    let mut text = match msg.source() {
        Some(peer) => peer.to_base58(),
        None => PeerIdentity::zero().to_base58(),
    };
    let number: u64 = match msg.sequence_number() {
        Some(n) => n,
        None => 0,
    };
    let mut digits = decimal_digits(number);
    text.append(&mut digits);
    MessageId::new(text)
}

/// The bytes of a message identity, as a mathematical sequence.
pub type IdBytes = Seq<u8>;

/// A way to derive the identity of a message. The identity is a function of
/// the message alone: `spec_message_id` says which, and `message_id`
/// computes it.
pub trait MessageIdFn {
    /// The identity this function gives to a message.
    spec fn spec_message_id(&self, msg: MessageView) -> IdBytes;

    fn message_id(&self, msg: &Message) -> (id: MessageId)
        ensures
            id@ == self.spec_message_id(msg@),
    ;
}

/// The default identity function.
#[derive(Clone, Copy, Debug)]
pub struct DefaultMessageIdFn;

impl MessageIdFn for DefaultMessageIdFn {
    open spec fn spec_message_id(&self, msg: MessageView) -> IdBytes {
        default_message_id(msg)
    }

    fn message_id(&self, msg: &Message) -> (id: MessageId) {
        default_message_id_fn(msg)
    }
}

} // verus!

//! The message format: a length, then that many bytes of JSON.
//!
//! ```text
//! +----------+-------------------+
//! | len: u32 | JSON payload: str |
//! +----------+-------------------+
//! ```
//!
//! The length is in native byte-order.

use crate::request::Request;
use vstd::prelude::*;

verus! {

/// The two byte orders that a machine may have as its native one.
#[derive(Debug, Clone, Copy, PartialEq, Eq, Structural)]
pub enum ByteOrder {
    Little,
    Big,
}

/// The four bytes of `n` in the given order.
pub open spec fn order_bytes(order: ByteOrder, n: u32) -> Seq<u8> {
    let b0 = (n % 0x100) as u8;
    let b1 = (n / 0x100 % 0x100) as u8;
    let b2 = (n / 0x1_0000 % 0x100) as u8;
    let b3 = (n / 0x100_0000) as u8;
    match order {
        ByteOrder::Little => seq![b0, b1, b2, b3],
        ByteOrder::Big => seq![b3, b2, b1, b0],
    }
}

/// The number that the first four bytes of `b` stand for in the given order.
pub open spec fn order_value(order: ByteOrder, b: Seq<u8>) -> nat {
    match order {
        ByteOrder::Little => (b[0] + b[1] * 0x100 + b[2] * 0x1_0000 + b[3] * 0x100_0000) as nat,
        ByteOrder::Big => (b[3] + b[2] * 0x100 + b[1] * 0x1_0000 + b[0] * 0x100_0000) as nat,
    }
}

/// `u32::to_ne_bytes`: the bytes of the number in the byte order of the machine. Which of the two
/// orders that is, is left open.
#[verifier::external_body]
pub(crate) fn to_ne_bytes(n: u32) -> (b: [u8; 4])
    ensures
        b@ == order_bytes(ByteOrder::Little, n) || b@ == order_bytes(ByteOrder::Big, n),
{
    n.to_ne_bytes()
}

/// `order` is the byte order of the machine: what `u32::to_ne_bytes` gives for 1 is the bytes of 1
/// in that order.
pub closed spec fn is_native(order: ByteOrder) -> bool {
    exists|one: [u8; 4]|
        #[trigger] call_ensures(to_ne_bytes, (1u32,), one) && one@ == order_bytes(order, 1)
}

/// The digits of a number to the base 256 make up the number.
pub(crate) proof fn lemma_weights(n: u32)
    ensures
        n / 0x100_0000 < 0x100,
        n == n % 0x100 + (n / 0x100 % 0x100) * 0x100 + (n / 0x1_0000 % 0x100) * 0x1_0000 + (n
            / 0x100_0000) * 0x100_0000,
{
    assert(n / 0x100_0000 < 0x100) by (bit_vector);
    assert(n == n % 0x100 + (n / 0x100 % 0x100) * 0x100 + (n / 0x1_0000 % 0x100) * 0x1_0000 + (n
        / 0x100_0000) * 0x100_0000) by (bit_vector);
}

/// The order that is taken for the machine's is little-endian exactly where the machine puts the 1
/// of the number 1 first.
pub(crate) proof fn law_native_order(order: ByteOrder)
    requires
        is_native(order),
    ensures
        exists|one: [u8; 4]| #[trigger]
            call_ensures(to_ne_bytes, (1u32,), one) && (order is Little <==> one@[0] == 1) && (
            order is Big <==> one@[3] == 1),
{
    let one = choose|one: [u8; 4]| #[trigger]
        call_ensures(to_ne_bytes, (1u32,), one) && one@ == order_bytes(order, 1);
    assert(call_ensures(to_ne_bytes, (1u32,), one));
}

impl ByteOrder {
    /// The byte order of the machine. Which of the two it is, only the machine tells.
    pub fn native() -> (order: ByteOrder)
        ensures
            is_native(order),
    {
        let one = to_ne_bytes(1);
        assert(call_ensures(to_ne_bytes, (1u32,), one));
        ByteOrder::of_one(one)
    }

    /// The byte order in which the given bytes stand for 1, where they do so in either: the one
    /// that the first byte tells.
    pub fn of_one(one: [u8; 4]) -> (order: ByteOrder)
        ensures
            order == ByteOrder::Little <==> one@[0] == 1,
            one@ == order_bytes(ByteOrder::Little, 1) ==> order == ByteOrder::Little,
            one@ == order_bytes(ByteOrder::Big, 1) ==> order == ByteOrder::Big,
    {
        if one[0] == 1 {
            ByteOrder::Little
        } else {
            ByteOrder::Big
        }
    }

    /// The four bytes of `n` in this order.
    pub fn bytes(self, n: u32) -> (b: [u8; 4])
        ensures
            b@ == order_bytes(self, n),
            b@.len() == 4,
            self is Little ==> n == b@[0] + b@[1] * 0x100 + b@[2] * 0x1_0000 + b@[3] * 0x100_0000,
            self is Big ==> n == b@[3] + b@[2] * 0x100 + b@[1] * 0x1_0000 + b@[0] * 0x100_0000,
    {
        let b0: u8 = (n % 0x100) as u8;
        let b1: u8 = (n / 0x100 % 0x100) as u8;
        let b2: u8 = (n / 0x1_0000 % 0x100) as u8;
        let b3: u8 = (n / 0x100_0000) as u8;
        let b = match self {
            ByteOrder::Little => [b0, b1, b2, b3],
            ByteOrder::Big => [b3, b2, b1, b0],
        };
        assert(b@ =~= order_bytes(self, n));
        proof {
            lemma_weights(n);
        }
        b
    }

    /// The number that the four bytes stand for in this order.
    pub fn value(self, b: [u8; 4]) -> (n: u32)
        ensures
            n == order_value(self, b@),
            self is Little ==> n == b@[0] + b@[1] * 0x100 + b@[2] * 0x1_0000 + b@[3] * 0x100_0000,
            self is Big ==> n == b@[3] + b@[2] * 0x100 + b@[1] * 0x1_0000 + b@[0] * 0x100_0000,
    {
        match self {
            ByteOrder::Little => b[0] as u32 + b[1] as u32 * 0x100 + b[2] as u32 * 0x1_0000
                + b[3] as u32 * 0x100_0000,
            ByteOrder::Big => b[3] as u32 + b[2] as u32 * 0x100 + b[1] as u32 * 0x1_0000
                + b[0] as u32 * 0x100_0000,
        }
    }
}

/// The message with the given payload: the number of bytes in the payload, modulo 2 to the 32,
/// then the payload.
pub open spec fn framed(order: ByteOrder, payload: Seq<u8>) -> Seq<u8> {
    order_bytes(order, (payload.len() % 0x1_0000_0000) as u32) + payload
}

/// The low 32 bits of a length, which are what a header holds of it.
fn header_len(len: usize) -> (low: u32)
    ensures
        low == len as nat % 0x1_0000_0000,
{
    let wide: u64 = len as u64;
    assert(wide as u32 == wide % 0x1_0000_0000) by (bit_vector);
    #[verifier::truncate]
    (wide as u32)
}

/// The message for `rq`, ready to be sent, with its length in the given byte order.
pub fn write_msg(order: ByteOrder, rq: &Request) -> (message: Vec<u8>)
    ensures
        message@ == framed(order, rq@.bytes()),
        message@.skip(4) == vstd::utf8::encode_utf8(rq@.text()),
        message@.len() == 4 + vstd::utf8::encode_utf8(rq@.text()).len(),
        order is Little ==> message@[0] + message@[1] * 0x100 + message@[2] * 0x1_0000 + message@[3]
            * 0x100_0000 == (message@.len() - 4) % 0x1_0000_0000,
        order is Big ==> message@[3] + message@[2] * 0x100 + message@[1] * 0x1_0000 + message@[0]
            * 0x100_0000 == (message@.len() - 4) % 0x1_0000_0000,
{
    let len = rq.write_len().0;
    let header = order.bytes(header_len(len));
    let text = rq.to_string();
    let mut message: Vec<u8> = Vec::new();
    message.extend_from_slice(header.as_slice());
    message.extend_from_slice(text.as_str().as_bytes());
    assert(message@ =~= header@ + rq@.bytes());
    assert(message.len() == 4 + rq@.bytes().len());
    assert(message@.skip(4) =~= rq@.bytes());
    message
}

} // verus!

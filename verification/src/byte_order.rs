//! The two orders in which the four bytes of a `u32` can be laid out, and
//! the conversion between a `u32` and its bytes in either of them.

use vstd::prelude::*;

verus! {

/// The order in which the bytes of an integer are stored.
#[derive(Debug, Clone, Copy, PartialEq, Eq, Structural)]
pub enum ByteOrder {
    /// Least significant byte first.
    Little,
    /// Most significant byte first.
    Big,
}

/// The four base-256 digits of `x`, least significant first.
pub open spec fn le_digits(x: u32) -> Seq<u8> {
    seq![
        (x % 256) as u8,
        ((x / 256) % 256) as u8,
        ((x / 65536) % 256) as u8,
        ((x / 16777216) % 256) as u8,
    ]
}

/// The four bytes that hold `x` in the given order.
pub open spec fn u32_bytes(order: ByteOrder, x: u32) -> Seq<u8> {
    match order {
        ByteOrder::Little => le_digits(x),
        ByteOrder::Big => le_digits(x).reverse(),
    }
}

/// The number whose bytes in the given order are the first four of `bytes`.
pub open spec fn u32_value(order: ByteOrder, bytes: Seq<u8>) -> u32
    recommends
        bytes.len() >= 4,
{
    match order {
        ByteOrder::Little => (bytes[0] + 256 * bytes[1] + 65536 * bytes[2] + 16777216
            * bytes[3]) as u32,
        ByteOrder::Big => (bytes[3] + 256 * bytes[2] + 65536 * bytes[1] + 16777216
            * bytes[0]) as u32,
    }
}

/// The byte order in which `bytes` hold the number one, if they hold it:
/// least significant byte first where the one is in the first byte.
pub open spec fn order_of_one(bytes: Seq<u8>) -> ByteOrder {
    if bytes[0] == 1 {
        ByteOrder::Little
    } else {
        ByteOrder::Big
    }
}

/// Reading back the bytes of a number gives the number.
pub proof fn lemma_u32_value_of_bytes(order: ByteOrder, x: u32)
    ensures
        u32_bytes(order, x).len() == 4,
        u32_value(order, u32_bytes(order, x)) == x,
{
}

/// `u32::to_ne_bytes`: the bytes of `x` as the machine holds them in memory.
/// Which order that is depends on the machine, so the contract only says
/// that it is one of the two.
#[verifier::external_body]
fn memory_bytes(x: u32) -> (bytes: [u8; 4])
    ensures
        bytes@ == u32_bytes(ByteOrder::Little, x) || bytes@ == u32_bytes(ByteOrder::Big, x),
{
    x.to_ne_bytes()
}

impl ByteOrder {
    /// The byte order of the machine that runs this code, found by looking
    /// at how it holds the number one. Nothing is known of it beforehand:
    /// `of_one` says which order goes with which bytes.
    pub fn native() -> ByteOrder {
        let probe = memory_bytes(1);
        ByteOrder::of_one(&probe)
    }

    /// The byte order in which `bytes` hold the number one: the order that
    /// has the one in the first byte if it is there, and else the other.
    /// Where `bytes` hold the number one in either order, they are the
    /// bytes of the number one in the order given.
    pub fn of_one(bytes: &[u8; 4]) -> (order: ByteOrder)
        ensures
            order == order_of_one(bytes@),
            bytes@ == u32_bytes(ByteOrder::Little, 1) || bytes@ == u32_bytes(ByteOrder::Big, 1)
                ==> u32_bytes(order, 1) == bytes@,
    {
        if bytes[0] == 1 {
            ByteOrder::Little
        } else {
            ByteOrder::Big
        }
    }

    /// The four bytes of `x` in this order.
    pub fn encode_u32(self, x: u32) -> (bytes: [u8; 4])
        ensures
            bytes@ == u32_bytes(self, x),
    {
        let b0: u8 = (x % 256) as u8;
        let b1: u8 = ((x / 256) % 256) as u8;
        let b2: u8 = ((x / 65536) % 256) as u8;
        let b3: u8 = ((x / 16777216) % 256) as u8;
        let bytes: [u8; 4] = match self {
            ByteOrder::Little => [b0, b1, b2, b3],
            ByteOrder::Big => [b3, b2, b1, b0],
        };
        bytes
    }

    /// The number that `bytes` hold in this order.
    pub fn decode_u32(self, bytes: &[u8; 4]) -> (x: u32)
        ensures
            x == u32_value(self, bytes@),
    {
        let b0: u32 = bytes[0] as u32;
        let b1: u32 = bytes[1] as u32;
        let b2: u32 = bytes[2] as u32;
        let b3: u32 = bytes[3] as u32;
        match self {
            ByteOrder::Little => b0 + 256 * b1 + 65536 * b2 + 16777216 * b3,
            ByteOrder::Big => b3 + 256 * b2 + 65536 * b1 + 16777216 * b0,
        }
    }
}

} // verus!

//! Byte orders of the machine and of the swap area.

use vstd::prelude::*;

verus! {

/// The order in which the bytes of an integer are kept.
#[derive(Clone, Copy, Debug, PartialEq, Eq, Structural)]
pub enum ByteOrder {
    Little,
    Big,
}

/// The bytes of `value`, least significant first.
pub open spec fn le_bytes(value: u32) -> Seq<u8> {
    seq![
        (value % 0x100) as u8,
        (value / 0x100 % 0x100) as u8,
        (value / 0x1_0000 % 0x100) as u8,
        (value / 0x100_0000) as u8,
    ]
}

/// The bytes of `value`, most significant first.
pub open spec fn be_bytes(value: u32) -> Seq<u8> {
    le_bytes(value).reverse()
}

/// The integer whose bytes are those of `value` in reverse.
pub open spec fn swapped(value: u32) -> u32 {
    (value % 0x100 * 0x100_0000 + value / 0x100 % 0x100 * 0x1_0000 + value / 0x1_0000 % 0x100
        * 0x100 + value / 0x100_0000) as u32
}

impl ByteOrder {
    /// The bytes of `value` as a machine of this order keeps them.
    pub open spec fn encode(self, value: u32) -> Seq<u8> {
        match self {
            ByteOrder::Little => le_bytes(value),
            ByteOrder::Big => be_bytes(value),
        }
    }

    /// The integer that a reader of this order finds in the four bytes at `at`.
    pub open spec fn decode(self, bytes: Seq<u8>, at: int) -> int {
        match self {
            ByteOrder::Little => bytes[at] + bytes[at + 1] * 0x100 + bytes[at + 2] * 0x1_0000
                + bytes[at + 3] * 0x100_0000,
            ByteOrder::Big => bytes[at + 3] + bytes[at + 2] * 0x100 + bytes[at + 1] * 0x1_0000
                + bytes[at] * 0x100_0000,
        }
    }

    /// The byte order of the machine that the program runs on. It is one and
    /// the same throughout; which of the two it is stays open.
    pub open spec fn of_machine() -> ByteOrder {
        match vstd::endian::endianness() {
            vstd::endian::Endian::Little => ByteOrder::Little,
            vstd::endian::Endian::Big => ByteOrder::Big,
        }
    }

    /// Finds the byte order of the machine that the program runs on.
    pub(crate) fn host() -> (order: ByteOrder)
        ensures
            order == ByteOrder::of_machine(),
    {
        let probe = to_ne_bytes(1);
        if probe[0] == 1 {
            ByteOrder::Little
        } else {
            ByteOrder::Big
        }
    }

    /// Lays `value` out as a machine of this order keeps it.
    pub fn to_bytes(self, value: u32) -> (bytes: [u8; 4])
        ensures
            bytes@ == self.encode(value),
    {
        let b0 = (value % 0x100) as u8;
        let b1 = (value / 0x100 % 0x100) as u8;
        let b2 = (value / 0x1_0000 % 0x100) as u8;
        let b3 = (value / 0x100_0000) as u8;
        match self {
            ByteOrder::Little => {
                let bytes = [b0, b1, b2, b3];
                assert(bytes@ =~= le_bytes(value));
                bytes
            },
            ByteOrder::Big => {
                let bytes = [b3, b2, b1, b0];
                assert(bytes@ =~= be_bytes(value));
                bytes
            },
        }
    }
}

/// `u32::to_ne_bytes`: the four bytes of `value` in the order of the machine.
#[verifier::external_body]
fn to_ne_bytes(value: u32) -> (bytes: [u8; 4])
    ensures
        bytes@ == ByteOrder::of_machine().encode(value),
{
    value.to_ne_bytes()
}

fn swap(value: u32) -> (r: u32)
    ensures
        r == swapped(value),
{
    value % 0x100 * 0x100_0000 + value / 0x100 % 0x100 * 0x1_0000 + value / 0x1_0000 % 0x100 * 0x100
        + value / 0x100_0000
}

/// The endianness that a user asks the swap area to have.
#[derive(Clone, Copy, Debug, PartialEq, Eq, Structural)]
pub enum Endian {
    Native,
    Little,
    Big,
}

impl Endian {
    /// The byte order that an area of this endianness has when it is set up on
    /// a machine of order `host`.
    pub open spec fn on_disk(self, host: ByteOrder) -> ByteOrder {
        match self {
            Endian::Native => host,
            Endian::Little => ByteOrder::Little,
            Endian::Big => ByteOrder::Big,
        }
    }

    /// What a machine of order `host` has to keep so that its bytes are those
    /// of `value` in this endianness.
    pub open spec fn converted(self, host: ByteOrder, value: u32) -> u32 {
        if self.on_disk(host) == host {
            value
        } else {
            swapped(value)
        }
    }

    /// Converts a native value of a machine of order `host` to this endianness.
    pub fn convert_on(&self, host: ByteOrder, value: u32) -> (r: u32)
        ensures
            r == self.converted(host, value),
    {
        match (self, host) {
            (Endian::Native, _) => value,
            (Endian::Little, ByteOrder::Little) => value,
            (Endian::Big, ByteOrder::Big) => value,
            _ => swap(value),
        }
    }

    /// Converts a native-endian value of this machine to this endianness.
    pub fn convert(&self, value: u32) -> (r: u32)
        ensures
            r == self.converted(ByteOrder::of_machine(), value),
    {
        let host = ByteOrder::host();
        self.convert_on(host, value)
    }
}

/// Reading four bytes in the order in which they were laid out gives the value
/// back.
pub proof fn decode_inverts_encode(order: ByteOrder, value: u32)
    ensures
        order.encode(value).len() == 4,
        order.decode(order.encode(value), 0) == value,
{
}

/// The bytes of a number that is put together from four bytes.
proof fn lemma_bytes_of_sum(b0: int, b1: int, b2: int, b3: int, sum: int)
    requires
        0 <= b0 < 0x100,
        0 <= b1 < 0x100,
        0 <= b2 < 0x100,
        0 <= b3 < 0x100,
        sum == b0 + b1 * 0x100 + b2 * 0x1_0000 + b3 * 0x100_0000,
    ensures
        sum % 0x100 == b0,
        sum / 0x100 % 0x100 == b1,
        sum / 0x1_0000 % 0x100 == b2,
        sum / 0x100_0000 == b3,
{
    assert(sum / 0x100 == b1 + b2 * 0x100 + b3 * 0x1_0000);
    assert(sum / 0x1_0000 == b2 + b3 * 0x100);
}

proof fn lemma_bytes_of_swapped(value: u32)
    ensures
        swapped(value) % 0x100 == value / 0x100_0000,
        swapped(value) / 0x100 % 0x100 == value / 0x1_0000 % 0x100,
        swapped(value) / 0x1_0000 % 0x100 == value / 0x100 % 0x100,
        swapped(value) / 0x100_0000 == value % 0x100,
{
    lemma_bytes_of_sum(
        value as int / 0x100_0000,
        value as int / 0x1_0000 % 0x100,
        value as int / 0x100 % 0x100,
        value as int % 0x100,
        swapped(value) as int,
    );
}

/// Whatever the machine, a converted value that the machine writes out reads
/// back as the value itself in the byte order that was asked for.
pub proof fn converted_values_read_back(endian: Endian, host: ByteOrder, value: u32)
    ensures
        host.encode(endian.converted(host, value)) == endian.on_disk(host).encode(value),
        endian.on_disk(host).decode(host.encode(endian.converted(host, value)), 0) == value,
{
    lemma_bytes_of_swapped(value);
    assert(le_bytes(swapped(value)) =~= be_bytes(value));
    assert(be_bytes(swapped(value)) =~= le_bytes(value));
    decode_inverts_encode(endian.on_disk(host), value);
}

/// Converting twice gives the value back.
pub proof fn conversion_is_its_own_inverse(endian: Endian, host: ByteOrder, value: u32)
    ensures
        endian.converted(host, endian.converted(host, value)) == value,
{
    lemma_bytes_of_swapped(value);
    let low = value as int / 0x100;
    let high = value as int / 0x1_0000;
    assert(value == value % 0x100 + low * 0x100);
    assert(low == low % 0x100 + high * 0x100);
    assert(high == high % 0x100 + value as int / 0x100_0000 * 0x100);
}

} // verus!

//! The value storage of a named field, and how its bytes are read as a
//! number in each of the encodings that the accessors use.

use vstd::prelude::*;

verus! {

/// The order in which a host lays out the bytes of an integer in memory.
#[derive(Clone, Copy, Debug, PartialEq, Eq, Structural)]
pub enum ByteOrder {
    /// Least significant byte first.
    Little,
    /// Most significant byte first.
    Big,
}

/// 256 to the power `n`: the number of values that `n` bytes can hold.
pub open spec fn pow256(n: nat) -> nat
    decreases n,
{
    if n == 0 {
        1
    } else {
        256 * pow256((n - 1) as nat)
    }
}

/// The number that `bytes` spell when the first byte is the least significant.
pub open spec fn unsigned_le(bytes: Seq<u8>) -> nat
    decreases bytes.len(),
{
    if bytes.len() == 0 {
        0
    } else {
        bytes[0] as nat + 256 * unsigned_le(bytes.drop_first())
    }
}

/// The number that `bytes` spell when the first byte is the most significant.
pub open spec fn unsigned_be(bytes: Seq<u8>) -> nat
    decreases bytes.len(),
{
    if bytes.len() == 0 {
        0
    } else {
        256 * unsigned_be(bytes.drop_last()) + bytes.last() as nat
    }
}

/// The number that `bytes` spell on a host with the given byte order.
pub open spec fn unsigned(bytes: Seq<u8>, order: ByteOrder) -> nat {
    match order {
        ByteOrder::Little => unsigned_le(bytes),
        ByteOrder::Big => unsigned_be(bytes),
    }
}

/// The two's complement reading of a 64-bit pattern.
pub open spec fn signed64(word: nat) -> int {
    if word < 0x8000_0000_0000_0000 {
        word as int
    } else {
        word - 0x1_0000_0000_0000_0000
    }
}

/// The 64-bit pattern that stands for `value` in two's complement.
pub open spec fn unsigned64(value: int) -> nat {
    if value >= 0 {
        value as nat
    } else {
        (value + 0x1_0000_0000_0000_0000) as nat
    }
}

/// What the storage `raw` holds when read as an unsigned machine word.
pub open spec fn ulong_of(raw: Seq<u8>, order: ByteOrder) -> nat {
    unsigned(raw.subrange(0, 8), order)
}

/// What the storage `raw` holds when read as a signed machine word.
pub open spec fn long_of(raw: Seq<u8>, order: ByteOrder) -> int {
    signed64(ulong_of(raw, order))
}

/// What the storage `raw` holds when read as an unsigned 32-bit integer.
pub open spec fn u32_of(raw: Seq<u8>, order: ByteOrder) -> nat {
    unsigned(raw.subrange(0, 4), order)
}

/// The first eight powers of 256.
pub proof fn lemma_pow256_values()
    ensures
        pow256(0) == 1,
        pow256(1) == 0x100,
        pow256(2) == 0x1_0000,
        pow256(3) == 0x100_0000,
        pow256(4) == 0x1_0000_0000,
        pow256(5) == 0x100_0000_0000,
        pow256(6) == 0x1_0000_0000_0000,
        pow256(7) == 0x100_0000_0000_0000,
        pow256(8) == 0x1_0000_0000_0000_0000,
{
    reveal_with_fuel(pow256, 9);
}

/// `n` bytes spell a number below 256 to the power `n`, in either order.
pub proof fn lemma_unsigned_bound(bytes: Seq<u8>, order: ByteOrder)
    ensures
        unsigned(bytes, order) < pow256(bytes.len()),
    decreases bytes.len(),
{
    if bytes.len() > 0 {
        lemma_unsigned_bound(bytes.drop_first(), order);
        lemma_unsigned_bound(bytes.drop_last(), order);
    }
}

/// Each reading of a value storage fits the integer type that its accessor
/// returns.
pub proof fn lemma_readings_fit(raw: Seq<u8>, order: ByteOrder)
    requires
        raw.len() >= 8,
    ensures
        ulong_of(raw, order) <= u64::MAX,
        i64::MIN <= long_of(raw, order) <= i64::MAX,
        u32_of(raw, order) <= u32::MAX,
{
    lemma_unsigned_bound(raw.subrange(0, 8), order);
    lemma_unsigned_bound(raw.subrange(0, 4), order);
    lemma_pow256_values();
}

/// The bit pattern of the signed reading is the unsigned reading: both
/// members of the storage share the same bytes.
pub proof fn lemma_long_keeps_bits(raw: Seq<u8>, order: ByteOrder)
    requires
        raw.len() >= 8,
    ensures
        unsigned64(long_of(raw, order)) == ulong_of(raw, order),
{
    lemma_readings_fit(raw, order);
}

/// The value storage of a named statistic: sixteen bytes that the facility
/// fills and that carry no record of which numeric encoding was stored. A
/// caller reads them through the accessor for the encoding it expects.
#[derive(Clone, Copy, Debug)]
pub struct KstatValue {
    /// The bytes as they lie in the host's memory.
    pub raw: [u8; 16],
}

impl View for KstatValue {
    type V = Seq<u8>;

    open spec fn view(&self) -> Seq<u8> {
        self.raw@
    }
}

impl KstatValue {
    /// Reads the leading `n` bytes as an unsigned integer in the given order.
    fn leading(&self, n: usize, order: ByteOrder) -> (r: u64)
        requires
            n <= 8,
        ensures
            r == unsigned(self@.subrange(0, n as int), order),
    {
        let ghost bytes = self@.subrange(0, n as int);
        let mut acc: u64 = 0;
        proof {
            lemma_pow256_values();
        }
        match order {
            ByteOrder::Little => {
                let mut k: usize = n;
                while k > 0
                    invariant
                        k <= n <= 8,
                        bytes == self@.subrange(0, n as int),
                        acc == unsigned_le(bytes.subrange(k as int, n as int)),
                    decreases k,
                {
                    k = k - 1;
                    proof {
                        let tail = bytes.subrange(k as int, n as int);
                        assert(tail.drop_first() =~= bytes.subrange(k + 1, n as int));
                        lemma_unsigned_bound(tail, ByteOrder::Little);
                        lemma_pow256_bounded((n - k) as nat);
                    }
                    acc = self.raw[k] as u64 + 256 * acc;
                }
                assert(bytes.subrange(0, n as int) =~= bytes);
            },
            ByteOrder::Big => {
                let mut k: usize = 0;
                while k < n
                    invariant
                        k <= n <= 8,
                        bytes == self@.subrange(0, n as int),
                        acc == unsigned_be(bytes.subrange(0, k as int)),
                    decreases n - k,
                {
                    proof {
                        let head = bytes.subrange(0, k + 1);
                        assert(head.drop_last() =~= bytes.subrange(0, k as int));
                        lemma_unsigned_bound(head, ByteOrder::Big);
                        lemma_pow256_bounded((k + 1) as nat);
                    }
                    acc = 256 * acc + self.raw[k] as u64;
                    k = k + 1;
                }
                assert(bytes.subrange(0, n as int) =~= bytes);
            },
        }
        acc
    }

    /// Reads the storage as an unsigned machine word.
    pub fn as_ulong(&self, order: ByteOrder) -> (r: u64)
        ensures
            r == ulong_of(self@, order),
    {
        self.leading(8, order)
    }

    /// Reads the storage as a signed machine word.
    pub fn as_long(&self, order: ByteOrder) -> (r: i64)
        ensures
            r == long_of(self@, order),
    {
        let word = self.leading(8, order);
        if word < 0x8000_0000_0000_0000 {
            word as i64
        } else {
            (word - 0x8000_0000_0000_0000) as i64 + i64::MIN
        }
    }

    /// Reads the storage as an unsigned 32-bit integer.
    pub fn as_u32(&self, order: ByteOrder) -> (r: u32)
        ensures
            r == u32_of(self@, order),
    {
        proof {
            lemma_unsigned_bound(self@.subrange(0, 4), order);
            lemma_pow256_values();
        }
        self.leading(4, order) as u32
    }
}

/// The bit pattern of a signed machine word, as an unsigned one.
pub fn long_bits(value: i64) -> (r: u64)
    ensures
        r == unsigned64(value as int),
{
    if value >= 0 {
        value as u64
    } else {
        (value - i64::MIN) as u64 + 0x8000_0000_0000_0000
    }
}

/// Up to eight bytes hold at most what a 64-bit word holds.
proof fn lemma_pow256_bounded(n: nat)
    requires
        n <= 8,
    ensures
        pow256(n) <= 0x1_0000_0000_0000_0000,
{
    reveal_with_fuel(pow256, 9);
}

} // verus!

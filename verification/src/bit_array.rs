use vstd::prelude::*;
use vstd::arithmetic::div_mod::{lemma_div_is_ordered, lemma_div_multiples_vanish};
use vstd::arithmetic::mul::lemma_mul_inequality;
use vstd::pervasive::VecAdditionalExecFns;

verus! {

/// Whether bit `pos` of byte `b` is set, counting `pos == 0` as the most
/// significant bit of the byte.
pub open spec fn spec_byte_bit(b: u8, pos: int) -> bool
    recommends
        0 <= pos < 8,
{
    b & (0x80u8 >> (pos as u8)) != 0
}

/// The number of bytes that hold `bits` bits: `bits / 8`, rounded up.
pub open spec fn spec_bytes_for(bits: nat) -> nat {
    if bits % 8 == 0 {
        bits / 8
    } else {
        bits / 8 + 1
    }
}

/// The bit index that a 64-bit digest selects in an array of `capacity`
/// bits: the digest's position in `[0, u64::MAX]`, scaled linearly onto
/// `[0, capacity - 1]` and rounded down. Digest `0` selects index `0` and
/// digest `u64::MAX` selects index `capacity - 1`, exactly.
pub open spec fn spec_bit_index(digest: u64, capacity: nat) -> int
    recommends
        capacity >= 1,
{
    (digest * (capacity - 1)) / (u64::MAX as int)
}

/// The digest-to-index mapping lands in `[0, capacity)`.
pub proof fn lemma_bit_index_range(digest: u64, capacity: nat)
    requires
        capacity >= 1,
    ensures
        0 <= spec_bit_index(digest, capacity) < capacity,
{
    let c: int = capacity - 1;
    let m: int = u64::MAX as int;
    lemma_mul_inequality(digest as int, m, c);
    lemma_div_is_ordered(digest * c, m * c, m);
    lemma_div_multiples_vanish(c, m);
    assert(m * c == c * m) by (nonlinear_arith);
    assert(digest * c >= 0) by (nonlinear_arith)
        requires
            digest >= 0,
            c >= 0,
    ;
}

/// Boundary exactness of the digest-to-index mapping: digest `0` selects
/// index `0`, and digest `u64::MAX` selects index `capacity - 1`.
pub proof fn lemma_bit_index_boundaries(capacity: nat)
    requires
        capacity >= 1,
    ensures
        spec_bit_index(0, capacity) == 0,
        spec_bit_index(u64::MAX, capacity) == capacity - 1,
{
    let c: int = capacity - 1;
    let m: int = u64::MAX as int;
    lemma_div_multiples_vanish(c, m);
    assert(m * c == c * m) by (nonlinear_arith);
}

/// The smallest multiple of 8 that is at least `size`: the requested
/// capacity in bits, aligned up to a whole byte.
pub fn align_capacity_to_byte(size: usize) -> (r: usize)
    requires
        size <= usize::MAX - 7,
    ensures
        r == 8 * spec_bytes_for(size as nat),
        size <= r < size + 8,
        r % 8 == 0,
{
    if size % 8 == 0 {
        size
    } else {
        (size / 8 + 1) * 8
    }
}

/// A fixed-capacity packed array of bits.
///
/// Bit numbering within a byte is most-significant-bit first: bit `i`
/// lives in byte `i / 8` under the mask `0x80 >> (i % 8)`.
pub struct BitArray {
    array: Vec<u8>,
    size_in_bits: usize,
}

impl BitArray {
    /// The bytes of the backing storage.
    pub closed spec fn spec_bytes(&self) -> Seq<u8> {
        self.array@
    }

    /// The capacity in bits the array was created with.
    pub closed spec fn spec_capacity(&self) -> nat {
        self.size_in_bits as nat
    }

    /// The stored bits, padding bits of the final byte included.
    pub open spec fn spec_bits(&self) -> Seq<bool> {
        Seq::new(
            self.spec_bytes().len() * 8,
            |i: int| spec_byte_bit(self.spec_bytes()[i / 8], i % 8),
        )
    }

    /// The storage holds exactly the capacity, rounded up to whole bytes.
    pub open spec fn wf(&self) -> bool {
        self.spec_bytes().len() == spec_bytes_for(self.spec_capacity())
    }

    /// The capacity never exceeds the number of stored bits.
    pub proof fn lemma_capacity_le_bits(&self)
        requires
            self.wf(),
        ensures
            self.spec_capacity() <= self.spec_bits().len(),
    {
    }

    /// Create an array of `size_in_bits` zero bits, backed by just enough
    /// bytes.
    pub fn new(size_in_bits: usize) -> (r: BitArray)
        ensures
            r.wf(),
            r.spec_capacity() == size_in_bits,
            forall|i: int| 0 <= i < r.spec_bits().len() ==> !r.spec_bits()[i],
    {
        let size_in_bytes: usize = if size_in_bits % 8 == 0 {
            size_in_bits / 8
        } else {
            size_in_bits / 8 + 1
        };
        let mut array: Vec<u8> = Vec::new();
        while array.len() < size_in_bytes
            invariant
                array@.len() <= size_in_bytes,
                forall|i: int| 0 <= i < array@.len() ==> array@[i] == 0u8,
            decreases size_in_bytes - array@.len(),
        {
            array.push(0u8);
        }
        let r = BitArray { array, size_in_bits };
        proof {
            assert(forall|p: u8| p < 8 ==> (0u8 & (0x80u8 >> p)) == 0u8) by (bit_vector);
            assert forall|i: int| 0 <= i < r.spec_bits().len() implies !r.spec_bits()[i] by {
                assert(r.spec_bytes()[i / 8] == 0u8);
            }
        }
        r
    }

    /// The byte at index `i` of the backing storage.
    pub fn byte_at(&self, i: usize) -> (r: u8)
        requires
            i < self.spec_bytes().len(),
        ensures
            r == self.spec_bytes()[i as int],
    {
        self.array[i]
    }

    /// Set bit `i` to 1 by OR-ing `0x80 >> (i % 8)` into byte `i / 8`.
    pub fn set_bit(&mut self, i: usize)
        requires
            i < old(self).spec_bits().len(),
        ensures
            final(self).spec_capacity() == old(self).spec_capacity(),
            final(self).spec_bytes() == old(self).spec_bytes().update(
                i as int / 8,
                old(self).spec_bytes()[i as int / 8] | (0x80u8 >> ((i % 8) as u8)),
            ),
            final(self).spec_bits() == old(self).spec_bits().update(i as int, true),
    {
        let byte_index: usize = i / 8;
        let mask: u8 = 0x80u8 >> ((i % 8) as u8);
        let updated: u8 = self.array[byte_index] | mask;
        self.array.set(byte_index, updated);
        proof {
            let prev = old(self).spec_bits();
            let cur = self.spec_bits();
            assert forall|j: int| 0 <= j < cur.len() implies cur[j] == prev.update(
                i as int,
                true,
            )[j] by {
                let b = old(self).spec_bytes()[j / 8];
                let p: u8 = (i % 8) as u8;
                let q: u8 = (j % 8) as u8;
                if j == i {
                    lemma_or_mask_bits(b, p, q);
                } else if j / 8 == i as int / 8 {
                    assert(p != q);
                    lemma_or_mask_bits(b, p, q);
                }
            }
            assert(cur =~= prev.update(i as int, true));
        }
    }

    /// Whether bit `i` is 1.
    pub fn get_bit(&self, i: usize) -> (r: bool)
        requires
            i < self.spec_bits().len(),
        ensures
            r == self.spec_bits()[i as int],
    {
        self.array[i / 8] & (0x80u8 >> ((i % 8) as u8)) != 0u8
    }

    /// The bit index a digest selects: `(digest * (capacity - 1)) / u64::MAX`,
    /// computed exactly in 128-bit arithmetic.
    pub fn bit_index_from_u64(&self, digest: u64) -> (r: usize)
        requires
            self.spec_capacity() >= 1,
        ensures
            r == spec_bit_index(digest, self.spec_capacity()),
            r < self.spec_capacity(),
    {
        proof {
            lemma_bit_index_range(digest, self.spec_capacity());
            lemma_mul_inequality(digest as int, u64::MAX as int, (self.size_in_bits - 1) as int);
            lemma_mul_inequality(
                (self.size_in_bits - 1) as int,
                u64::MAX as int,
                u64::MAX as int,
            );
        }
        let scaled: u128 = (digest as u128) * ((self.size_in_bits - 1) as u128);
        (scaled / (u64::MAX as u128)) as usize
    }

    /// Set to 1 the bit that `digest` selects.
    pub fn set_bit_from_u64(&mut self, digest: u64)
        requires
            old(self).wf(),
            old(self).spec_capacity() >= 1,
        ensures
            final(self).wf(),
            final(self).spec_capacity() == old(self).spec_capacity(),
            final(self).spec_bits() == old(self).spec_bits().update(
                spec_bit_index(digest, old(self).spec_capacity()),
                true,
            ),
    {
        proof {
            lemma_bit_index_range(digest, self.spec_capacity());
        }
        let index: usize = self.bit_index_from_u64(digest);
        self.set_bit(index);
    }

    /// Whether the bit that `digest` selects is 1.
    pub fn get_bit_from_u64(&self, digest: u64) -> (r: bool)
        requires
            self.wf(),
            self.spec_capacity() >= 1,
        ensures
            r == self.spec_bits()[spec_bit_index(digest, self.spec_capacity())],
    {
        proof {
            lemma_bit_index_range(digest, self.spec_capacity());
        }
        let index: usize = self.bit_index_from_u64(digest);
        self.get_bit(index)
    }
}

/// OR-ing the mask of bit `p` into a byte sets bit `p` and leaves every
/// other bit as it was; doing it twice gives the same byte as doing it
/// once.
pub proof fn lemma_or_mask_bits(b: u8, p: u8, q: u8)
    by (bit_vector)
    requires
        p < 8,
        q < 8,
    ensures
        (b | (0x80u8 >> p)) & (0x80u8 >> p) != 0,
        p != q ==> ((b | (0x80u8 >> p)) & (0x80u8 >> q)) == (b & (0x80u8 >> q)),
        (b | (0x80u8 >> p)) | (0x80u8 >> p) == b | (0x80u8 >> p),
{
}

} // verus!

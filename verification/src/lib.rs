use vstd::prelude::*;

pub mod bit_array;
pub mod hashing;

use bit_array::{lemma_bit_index_range, spec_bit_index, BitArray};
use hashing::{digest_for_round, spec_digest, Hashable};

verus! {

/// The bit index that hash round `round` probes, in a filter of `capacity`
/// bits, for a value whose byte strings are `feeds`.
pub open spec fn spec_probe(capacity: nat, round: u64, feeds: Seq<Seq<u8>>) -> int {
    spec_bit_index(spec_digest(round, feeds), capacity)
}

/// The bits of a filter after inserting a value whose byte strings are
/// `feeds`: every bit that one of the `k` hash rounds probes is set, and
/// no other bit changes.
pub open spec fn spec_insert_bits(
    bits: Seq<bool>,
    capacity: nat,
    k: nat,
    feeds: Seq<Seq<u8>>,
) -> Seq<bool> {
    Seq::new(
        bits.len(),
        |j: int|
            bits[j] || exists|r: u64|
                #![trigger spec_probe(capacity, r, feeds)]
                r < k && spec_probe(capacity, r, feeds) == j,
    )
}

/// Whether every bit that the `k` hash rounds probe for a value whose byte
/// strings are `feeds` is set: the answer of a membership query.
pub open spec fn spec_query(bits: Seq<bool>, capacity: nat, k: nat, feeds: Seq<Seq<u8>>) -> bool {
    forall|r: u64|
        #![trigger spec_probe(capacity, r, feeds)]
        r < k ==> bits[spec_probe(capacity, r, feeds)]
}

/// A Bloom filter.
///
/// A Bloom filter is a probabilistic data structure that can be used to
/// represent a set. When testing for membership the Bloom filter will
/// either tell you that "the element is definitely not in the set" or "the
/// element is maybe in the set". The advantage of the Bloom filter over
/// set representations with a deterministic membership test is that it can
/// often be much smaller in size. The size of the Bloom filter is for
/// example independent of both the size of the inserted elements and the
/// number of elements inserted. At the same time both insertions and
/// membership tests have constant time complexity. Elements can not be
/// removed from a Bloom filter.
///
/// The probability of false positives can be reduced, at the cost of
/// increasing the size of the Bloom filter and slowing down insertions and
/// membership tests, by raising the number of hash functions.
pub struct BloomFilter {
    bit_array: BitArray,
    num_hash_functions: usize,
}

impl BloomFilter {
    /// The bits of the owned bit array.
    pub closed spec fn spec_bits(&self) -> Seq<bool> {
        self.bit_array.spec_bits()
    }

    /// The capacity in bits of the owned bit array.
    pub closed spec fn spec_capacity(&self) -> nat {
        self.bit_array.spec_capacity()
    }

    /// The number of hash functions the filter drives per value.
    pub closed spec fn spec_num_hash_functions(&self) -> nat {
        self.num_hash_functions as nat
    }

    /// The owned bit array is byte-aligned storage for the capacity.
    pub closed spec fn wf(&self) -> bool {
        self.bit_array.wf()
    }

    /// A well-formed filter stores at least `capacity` bits.
    pub proof fn lemma_capacity_le_bits(&self)
        requires
            self.wf(),
        ensures
            self.spec_capacity() <= self.spec_bits().len(),
    {
        self.bit_array.lemma_capacity_le_bits();
    }

    /// Construct a Bloom filter, giving explicitly the size in bits of the
    /// underlying bit array and the number of different hash functions to
    /// use. All bits start at zero.
    pub fn new(size: usize, num_hash_functions: usize) -> (r: BloomFilter)
        ensures
            r.wf(),
            r.spec_capacity() == size,
            r.spec_num_hash_functions() == num_hash_functions,
            forall|j: int| 0 <= j < r.spec_bits().len() ==> !r.spec_bits()[j],
    {
        BloomFilter { bit_array: BitArray::new(size), num_hash_functions }
    }

    /// Insert an element into the Bloom filter: for each hash round, set
    /// the bit that the round's digest selects.
    pub fn insert<T: Hashable>(&mut self, value: T)
        requires
            old(self).wf(),
            old(self).spec_capacity() >= 1,
        ensures
            final(self).wf(),
            final(self).spec_capacity() == old(self).spec_capacity(),
            final(self).spec_num_hash_functions() == old(self).spec_num_hash_functions(),
            final(self).spec_bits() == spec_insert_bits(
                old(self).spec_bits(),
                old(self).spec_capacity(),
                old(self).spec_num_hash_functions(),
                value.feeds(),
            ),
    {
        let ghost prior = self.bit_array.spec_bits();
        let ghost capacity = self.bit_array.spec_capacity();
        let ghost feeds = value.feeds();
        let mut i: usize = 0;
        while i < self.num_hash_functions
            invariant
                i <= self.num_hash_functions,
                self.num_hash_functions == old(self).spec_num_hash_functions(),
                prior == old(self).spec_bits(),
                capacity == old(self).spec_capacity(),
                self.bit_array.wf(),
                self.bit_array.spec_capacity() == capacity,
                capacity >= 1,
                value.feeds() == feeds,
                self.bit_array.spec_bits() == spec_insert_bits(prior, capacity, i as nat, feeds),
            decreases self.num_hash_functions - i,
        {
            let ghost before = self.bit_array.spec_bits();
            let digest: u64 = digest_for_round(i as u64, &value);
            self.bit_array.set_bit_from_u64(digest);
            proof {
                let probed = spec_probe(capacity, i as u64, feeds);
                lemma_bit_index_range(spec_digest(i as u64, feeds), capacity);
                assert forall|j: int| 0 <= j < prior.len() implies before.update(probed, true)[j]
                    == spec_insert_bits(prior, capacity, (i + 1) as nat, feeds)[j] by {
                    if j != probed {
                        if exists|r: u64|
                            #![trigger spec_probe(capacity, r, feeds)]
                            r < i + 1 && spec_probe(capacity, r, feeds) == j {
                            let r = choose|r: u64|
                                #![trigger spec_probe(capacity, r, feeds)]
                                r < i + 1 && spec_probe(capacity, r, feeds) == j;
                            assert(r < i && spec_probe(capacity, r, feeds) == j);
                        }
                    }
                }
                assert(self.bit_array.spec_bits() =~= spec_insert_bits(
                    prior,
                    capacity,
                    (i + 1) as nat,
                    feeds,
                ));
            }
            i = i + 1;
        }
    }

    /// Query for the given value in the Bloom filter: true exactly when
    /// every bit that the hash rounds probe for the value is set.
    ///
    /// If this returns `false` the value is guaranteed to never have been
    /// inserted. When it returns `true` the value has either been
    /// inserted, or the bits that would have been set by inserting the
    /// element have by chance been set by other insertions. The latter
    /// case is called a false positive.
    pub fn maybe_contains<T: Hashable>(&self, value: T) -> (r: bool)
        requires
            self.wf(),
            self.spec_capacity() >= 1,
        ensures
            r == spec_query(
                self.spec_bits(),
                self.spec_capacity(),
                self.spec_num_hash_functions(),
                value.feeds(),
            ),
    {
        let ghost capacity = self.bit_array.spec_capacity();
        let ghost feeds = value.feeds();
        let mut i: usize = 0;
        while i < self.num_hash_functions
            invariant
                i <= self.num_hash_functions,
                self.bit_array.wf(),
                self.bit_array.spec_capacity() == capacity,
                capacity >= 1,
                value.feeds() == feeds,
                forall|r: u64|
                    #![trigger spec_probe(capacity, r, feeds)]
                    r < i ==> self.bit_array.spec_bits()[spec_probe(capacity, r, feeds)],
            decreases self.num_hash_functions - i,
        {
            let digest: u64 = digest_for_round(i as u64, &value);
            if !self.bit_array.get_bit_from_u64(digest) {
                proof {
                    assert(!self.bit_array.spec_bits()[spec_probe(capacity, i as u64, feeds)]);
                }
                return false;
            }
            i = i + 1;
        }
        true
    }
}

/// No false negatives: immediately after inserting a value, a query for
/// the same value is true, whatever the bits held before.
pub proof fn lemma_no_false_negatives(bits: Seq<bool>, capacity: nat, k: nat, feeds: Seq<Seq<u8>>)
    requires
        capacity >= 1,
        bits.len() >= capacity,
    ensures
        spec_query(spec_insert_bits(bits, capacity, k, feeds), capacity, k, feeds),
{
    let inserted = spec_insert_bits(bits, capacity, k, feeds);
    assert forall|r: u64|
        #![trigger spec_probe(capacity, r, feeds)]
        r < k implies inserted[spec_probe(capacity, r, feeds)] by {
        lemma_bit_index_range(spec_digest(r, feeds), capacity);
    }
}

/// Insertion only sets bits: it never clears one, and never changes the
/// number of bits.
pub proof fn lemma_insert_grows(bits: Seq<bool>, capacity: nat, k: nat, feeds: Seq<Seq<u8>>)
    ensures
        spec_insert_bits(bits, capacity, k, feeds).len() == bits.len(),
        forall|j: int|
            0 <= j < bits.len() && bits[j] ==> #[trigger] spec_insert_bits(
                bits,
                capacity,
                k,
                feeds,
            )[j],
{
}

/// Monotonicity of queries: a query true of some bits stays true of any
/// pointwise-larger bits. With `lemma_insert_grows` this gives that once
/// `maybe_contains` answers true, it answers true after any number of
/// further insertions.
pub proof fn lemma_query_monotonic(
    bits1: Seq<bool>,
    bits2: Seq<bool>,
    capacity: nat,
    k: nat,
    feeds: Seq<Seq<u8>>,
)
    requires
        capacity >= 1,
        bits1.len() >= capacity,
        bits1.len() == bits2.len(),
        forall|j: int| 0 <= j < bits1.len() && bits1[j] ==> bits2[j],
        spec_query(bits1, capacity, k, feeds),
    ensures
        spec_query(bits2, capacity, k, feeds),
{
    assert forall|r: u64|
        #![trigger spec_probe(capacity, r, feeds)]
        r < k implies bits2[spec_probe(capacity, r, feeds)] by {
        lemma_bit_index_range(spec_digest(r, feeds), capacity);
        assert(bits1[spec_probe(capacity, r, feeds)]);
    }
}

/// Monotonicity across an insertion: a query that is true stays true after
/// inserting any further value.
pub proof fn lemma_query_stays_true_after_insert(
    bits: Seq<bool>,
    capacity: nat,
    k: nat,
    query_feeds: Seq<Seq<u8>>,
    inserted_feeds: Seq<Seq<u8>>,
)
    requires
        capacity >= 1,
        bits.len() >= capacity,
        spec_query(bits, capacity, k, query_feeds),
    ensures
        spec_query(
            spec_insert_bits(bits, capacity, k, inserted_feeds),
            capacity,
            k,
            query_feeds,
        ),
{
    lemma_insert_grows(bits, capacity, k, inserted_feeds);
    lemma_query_monotonic(
        bits,
        spec_insert_bits(bits, capacity, k, inserted_feeds),
        capacity,
        k,
        query_feeds,
    );
}

/// Determinism: the bits after an insertion and the answer of a query are
/// functions of the prior bits, the filter parameters, and the value's
/// byte strings alone; filters in equal states fed equal values stay in
/// equal states and answer alike.
pub proof fn lemma_deterministic(
    bits1: Seq<bool>,
    bits2: Seq<bool>,
    capacity: nat,
    k: nat,
    feeds: Seq<Seq<u8>>,
)
    requires
        bits1 == bits2,
    ensures
        spec_insert_bits(bits1, capacity, k, feeds) == spec_insert_bits(bits2, capacity, k, feeds),
        spec_query(bits1, capacity, k, feeds) == spec_query(bits2, capacity, k, feeds),
{
}

} // verus!

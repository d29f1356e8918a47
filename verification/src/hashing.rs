use vstd::prelude::*;
use vstd::bytes::{spec_u32_to_le_bytes, spec_u64_to_le_bytes, u32_to_le_bytes, u64_to_le_bytes};
use vstd::std_specs::hash::DefaultHasherAdditionalSpecFns;
use vstd::string::StringSliceAdditionalSpecFns;
use std::collections::hash_map::DefaultHasher;
use std::hash::Hasher;

verus! {

/// A value the filter can hash.
///
/// A value is hashed by writing a fixed sequence of byte strings, its
/// `feeds()`, into a hasher; the digest the hasher then produces is a
/// function of those byte strings alone, so equal feeds always give equal
/// digests.
pub trait Hashable {
    /// The byte strings the value writes into a hasher.
    spec fn feeds(&self) -> Seq<Seq<u8>>;

    /// Write the value's byte strings into `hasher`, in order.
    fn write_to(&self, hasher: &mut DefaultHasher)
        ensures
            final(hasher)@ == old(hasher)@ + self.feeds(),
    ;
}

impl Hashable for u64 {
    open spec fn feeds(&self) -> Seq<Seq<u8>> {
        seq![spec_u64_to_le_bytes(*self)]
    }

    fn write_to(&self, hasher: &mut DefaultHasher) {
        let bytes = u64_to_le_bytes(*self);
        hasher.write(bytes.as_slice());
        proof {
            assert(hasher@ =~= old(hasher)@ + self.feeds());
        }
    }
}

impl Hashable for i32 {
    open spec fn feeds(&self) -> Seq<Seq<u8>> {
        seq![spec_u32_to_le_bytes(*self as u32)]
    }

    fn write_to(&self, hasher: &mut DefaultHasher) {
        let bytes = u32_to_le_bytes(#[verifier::truncate] (*self as u32));
        hasher.write(bytes.as_slice());
        proof {
            assert(hasher@ =~= old(hasher)@ + self.feeds());
        }
    }
}

impl Hashable for &str {
    open spec fn feeds(&self) -> Seq<Seq<u8>> {
        seq![self.spec_bytes(), seq![0xffu8]]
    }

    fn write_to(&self, hasher: &mut DefaultHasher) {
        hasher.write(self.as_bytes());
        let mut terminator: Vec<u8> = Vec::new();
        terminator.push(0xffu8);
        hasher.write(terminator.as_slice());
        proof {
            assert(terminator@ =~= seq![0xffu8]);
            assert(hasher@ =~= old(hasher)@ + self.feeds());
        }
    }
}

/// The digest of the hash round `round` for a value whose byte strings are
/// `feeds`: what the hasher returns after being fed the round index and
/// then the value.
pub open spec fn spec_digest(round: u64, feeds: Seq<Seq<u8>>) -> u64 {
    DefaultHasher::spec_finish(seq![spec_u64_to_le_bytes(round)] + feeds)
}

/// One simulated hash function: salt a fresh hasher with the round index,
/// feed the value, and take the 64-bit digest.
pub fn digest_for_round<T: Hashable>(round: u64, value: &T) -> (r: u64)
    ensures
        r == spec_digest(round, value.feeds()),
{
    let mut hasher = DefaultHasher::new();
    let salt = u64_to_le_bytes(round);
    hasher.write(salt.as_slice());
    value.write_to(&mut hasher);
    proof {
        assert(hasher@ =~= seq![spec_u64_to_le_bytes(round)] + value.feeds());
    }
    hasher.finish()
}

} // verus!

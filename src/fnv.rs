use vstd::prelude::*;

use crate::constants::{
    constants_for, fnv_prime, limb_count, modulus, offset_basis, prime_limbs, width_bits,
    FnvError, Width,
};
use crate::wide::{
    lemma_base_pow_positive, lemma_prefix_value_bound, limbs_value, mul_wrapping,
    xor_byte, xor_low_byte,
};

verus! {

/// The three members of the FNV family; they differ in their seed and in the order of the
/// two operations applied to each byte.
#[derive(Clone, Copy, Debug, PartialEq, Eq, Structural)]
pub enum Variant {
    /// Seed zero; multiply, then XOR.
    Fnv0,
    /// Seed the offset basis; multiply, then XOR.
    Fnv1,
    /// Seed the offset basis; XOR, then multiply.
    Fnv1a,
}

/// The accumulator before any byte is folded in.
pub open spec fn seed(v: Variant, w: Width) -> nat {
    match v {
        Variant::Fnv0 => 0,
        _ => offset_basis(w),
    }
}

/// Folds one byte into the accumulator `acc`, all arithmetic modulo `modulus(w)`.
pub open spec fn fnv_step(v: Variant, w: Width, acc: nat, byte: u8) -> nat {
    match v {
        Variant::Fnv1a => (xor_low_byte(acc, byte) * fnv_prime(w)) % modulus(w),
        _ => xor_low_byte((acc * fnv_prime(w)) % modulus(w), byte),
    }
}

/// The FNV hash of `bytes` under variant `v` at width `w`.
pub open spec fn fnv_hash(v: Variant, w: Width, bytes: Seq<u8>) -> nat
    decreases bytes.len(),
{
    if bytes.len() == 0 {
        seed(v, w)
    } else {
        fnv_step(v, w, fnv_hash(v, w, bytes.drop_last()), bytes.last())
    }
}

/// The final accumulator of a hash: an unsigned integer of a fixed width.
pub struct Digest {
    width: Width,
    limbs: Vec<u32>,
}

impl Digest {
    /// The width of the digest.
    pub closed spec fn spec_width(&self) -> Width {
        self.width
    }

    /// The limbs of the digest, least significant first.
    pub closed spec fn spec_limbs(&self) -> Seq<u32> {
        self.limbs@
    }

    /// The unsigned integer that the digest stands for.
    pub open spec fn value(&self) -> nat {
        limbs_value(self.spec_limbs())
    }

    /// The digest holds exactly as many limbs as its width asks for.
    pub open spec fn wf(&self) -> bool {
        self.spec_limbs().len() == limb_count(self.spec_width())
    }

    /// The width of the digest.
    pub fn width(&self) -> (r: Width)
        ensures
            r == self.spec_width(),
    {
        self.width
    }

    /// The limbs of the digest, least significant first.
    pub fn limbs(&self) -> (r: &Vec<u32>)
        ensures
            r@ == self.spec_limbs(),
    {
        &self.limbs
    }
}

/// Hashes `input` with FNV variant `variant` at width `width`.
pub fn hash(variant: Variant, width: Width, input: &[u8]) -> (d: Digest)
    ensures
        d.wf(),
        d.spec_width() == width,
        d.value() == fnv_hash(variant, width, input@),
        d.value() < modulus(width),
        input@.len() == 0 ==> d.value() == seed(variant, width),
{
    let (prime, basis) = constants_for(width);
    let n = width.limbs();
    let mut acc: Vec<u32> = match variant {
        Variant::Fnv0 => {
            let mut z: Vec<u32> = Vec::new();
            let mut k: usize = 0;
            while k < n
                invariant
                    k <= n,
                    z.len() == k,
                    forall|m: int| 0 <= m < k ==> z[m] == 0,
                decreases n - k,
            {
                z.push(0);
                k += 1;
            }
            proof {
                crate::wide::lemma_prefix_value_zero(z@, n as nat);
            }
            z
        },
        _ => basis,
    };
    assert(input@.take(0) =~= Seq::<u8>::empty());
    let mut i: usize = 0;
    while i < input.len()
        invariant
            i <= input.len(),
            n == limb_count(width),
            acc.len() == n,
            prime@ == prime_limbs(width),
            prime.len() == n,
            limbs_value(acc@) == fnv_hash(variant, width, input@.take(i as int)),
        decreases input.len() - i,
    {
        let byte = input[i];
        match variant {
            Variant::Fnv1a => {
                xor_byte(&mut acc, byte);
                acc = mul_wrapping(&acc, &prime);
            },
            _ => {
                acc = mul_wrapping(&acc, &prime);
                xor_byte(&mut acc, byte);
            },
        }
        assert(input@.take(i + 1).drop_last() =~= input@.take(i as int));
        i += 1;
    }
    assert(input@.take(input.len() as int) =~= input@);
    proof {
        lemma_prefix_value_bound(acc@, n as nat);
    }
    Digest { width, limbs: acc }
}

/// Hashing the empty byte sequence gives the seed: zero for FNV-0, the offset basis for
/// FNV-1 and FNV-1a.
pub proof fn lemma_empty_input_gives_seed(v: Variant, w: Width)
    ensures
        fnv_hash(v, w, Seq::empty()) == seed(v, w),
        v == Variant::Fnv0 ==> fnv_hash(v, w, Seq::empty()) == 0,
        v != Variant::Fnv0 ==> fnv_hash(v, w, Seq::empty()) == offset_basis(w),
{
}

/// The hash is a function of the variant, the width and the bytes alone: equal arguments
/// give equal digests.
pub proof fn lemma_hash_deterministic(v: Variant, w: Width, a: Seq<u8>, b: Seq<u8>)
    requires
        a == b,
    ensures
        fnv_hash(v, w, a) == fnv_hash(v, w, b),
{
}

/// The modulus of a width is two to the power of its number of bits.
pub proof fn lemma_modulus_is_pow2(w: Width)
    ensures
        modulus(w) == vstd::arithmetic::power2::pow2(width_bits(w)),
{
    crate::wide::lemma_base_pow_is_pow2(limb_count(w));
    assert(32 * limb_count(w) == width_bits(w));
}

/// Every hash lies below two to the power of its width: the arithmetic never escapes the
/// accumulator.
pub proof fn lemma_hash_below_width(v: Variant, w: Width, bytes: Seq<u8>)
    ensures
        fnv_hash(v, w, bytes) < vstd::arithmetic::power2::pow2(width_bits(w)),
    decreases bytes.len(),
{
    lemma_modulus_is_pow2(w);
    lemma_base_pow_positive(limb_count(w));
    crate::wide::lemma_base_pow_multiple_of_256(limb_count(w));
    if bytes.len() == 0 {
        lemma_prefix_value_bound(crate::constants::offset_basis_limbs(w), limb_count(w));
    } else {
        let acc = fnv_hash(v, w, bytes.drop_last());
        lemma_hash_below_width(v, w, bytes.drop_last());
        match v {
            Variant::Fnv1a => {},
            _ => {
                crate::wide::lemma_xor_low_byte_bound(
                    (acc * fnv_prime(w)) % modulus(w),
                    bytes.last(),
                    modulus(w),
                );
            },
        }
    }
}

} // verus!

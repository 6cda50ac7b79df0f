use vstd::prelude::*;

use crate::constants::{width_of_bits, FnvError, Width};
use crate::fnv::{fnv_hash, hash, Digest, Variant};
use vstd::string::StringSliceAdditionalSpecFns;

verus! {

/// The bytes of `fnv0`.
pub const NAME_FNV0: [u8; 4] = [0x66, 0x6E, 0x76, 0x30];

/// The bytes of `fnv1`.
pub const NAME_FNV1: [u8; 4] = [0x66, 0x6E, 0x76, 0x31];

/// The bytes of `fnv1a`.
pub const NAME_FNV1A: [u8; 5] = [0x66, 0x6E, 0x76, 0x31, 0x61];

/// The name of a variant, as bytes.
pub open spec fn variant_name(v: Variant) -> Seq<u8> {
    match v {
        Variant::Fnv0 => NAME_FNV0@,
        Variant::Fnv1 => NAME_FNV1@,
        Variant::Fnv1a => NAME_FNV1A@,
    }
}

/// The variant that a name stands for, if any.
pub open spec fn variant_of_name(name: Seq<u8>) -> Option<Variant> {
    if name == variant_name(Variant::Fnv0) {
        Some(Variant::Fnv0)
    } else if name == variant_name(Variant::Fnv1) {
        Some(Variant::Fnv1)
    } else if name == variant_name(Variant::Fnv1a) {
        Some(Variant::Fnv1a)
    } else {
        None
    }
}

/// Number of (variant, width) combinations on offer.
pub const HASHER_COUNT: usize = 18;

/// The combination at `index` in the list that orders widths from narrow to wide and, within
/// one width, the variants as FNV-0, FNV-1, FNV-1a.
pub open spec fn hasher_of_index(index: nat) -> Option<(Variant, Width)> {
    if index >= 18 {
        None
    } else {
        let v = if index % 3 == 0 {
            Variant::Fnv0
        } else if index % 3 == 1 {
            Variant::Fnv1
        } else {
            Variant::Fnv1a
        };
        let w = if index / 3 == 0 {
            Width::W32
        } else if index / 3 == 1 {
            Width::W64
        } else if index / 3 == 2 {
            Width::W128
        } else if index / 3 == 3 {
            Width::W256
        } else if index / 3 == 4 {
            Width::W512
        } else {
            Width::W1024
        };
        Some((v, w))
    }
}

/// Whether two byte slices hold the same bytes.
fn bytes_equal(a: &[u8], b: &[u8]) -> (r: bool)
    ensures
        r == (a@ == b@),
{
    if a.len() != b.len() {
        return false;
    }
    let mut i: usize = 0;
    while i < a.len()
        invariant
            i <= a.len(),
            a.len() == b.len(),
            forall|k: int| 0 <= k < i ==> a@[k] == b@[k],
        decreases a.len() - i,
    {
        if a[i] != b[i] {
            return false;
        }
        i += 1;
    }
    assert(a@ =~= b@);
    true
}

impl Variant {
    /// The variant named `fnv0`, `fnv1` or `fnv1a`.
    pub fn from_name(name: &str) -> (r: Result<Variant, FnvError>)
        ensures
            variant_of_name(name.spec_bytes()) is Some ==> r == Ok::<Variant, FnvError>(
                variant_of_name(name.spec_bytes())->0,
            ),
            variant_of_name(name.spec_bytes()) is None ==> r == Err::<Variant, FnvError>(
                FnvError::UnsupportedVariant,
            ),
    {
        let b = name.as_bytes();
        if bytes_equal(b, NAME_FNV0.as_slice()) {
            Ok(Variant::Fnv0)
        } else if bytes_equal(b, NAME_FNV1.as_slice()) {
            Ok(Variant::Fnv1)
        } else if bytes_equal(b, NAME_FNV1A.as_slice()) {
            Ok(Variant::Fnv1a)
        } else {
            Err(FnvError::UnsupportedVariant)
        }
    }
}

/// Hashes `input` with the variant named `variant` at a width of `bits` bits. An unknown
/// name is reported before an unsupported width; nothing is folded on either error.
pub fn hash_named(variant: &str, bits: u32, input: &[u8]) -> (r: Result<Digest, FnvError>)
    ensures
        variant_of_name(variant.spec_bytes()) is None ==> r == Err::<Digest, FnvError>(
            FnvError::UnsupportedVariant,
        ),
        variant_of_name(variant.spec_bytes()) is Some && width_of_bits(bits) is None ==> r
            == Err::<Digest, FnvError>(FnvError::UnsupportedWidth),
        variant_of_name(variant.spec_bytes()) is Some && width_of_bits(bits) is Some ==> r is Ok
            && r->Ok_0.wf() && r->Ok_0.spec_width() == width_of_bits(bits)->0 && r->Ok_0.value()
            == fnv_hash(variant_of_name(variant.spec_bytes())->0, width_of_bits(bits)->0, input@),
{
    let v = match Variant::from_name(variant) {
        Ok(v) => v,
        Err(e) => return Err(e),
    };
    let w = match Width::from_bits(bits) {
        Ok(w) => w,
        Err(e) => return Err(e),
    };
    Ok(hash(v, w, input))
}

/// The (variant, width) combination at `index`, in the order that `hasher_of_index` gives.
pub fn hasher_at(index: usize) -> (r: Option<(Variant, Width)>)
    ensures
        r == hasher_of_index(index as nat),
{
    if index >= HASHER_COUNT {
        return None;
    }
    let v = if index % 3 == 0 {
        Variant::Fnv0
    } else if index % 3 == 1 {
        Variant::Fnv1
    } else {
        Variant::Fnv1a
    };
    let w = if index / 3 == 0 {
        Width::W32
    } else if index / 3 == 1 {
        Width::W64
    } else if index / 3 == 2 {
        Width::W128
    } else if index / 3 == 3 {
        Width::W256
    } else if index / 3 == 4 {
        Width::W512
    } else {
        Width::W1024
    };
    Some((v, w))
}

} // verus!

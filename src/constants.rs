use vstd::prelude::*;

use crate::wide::{base_pow, limbs_value};

verus! {

/// An accumulator width for which FNV defines a prime and an offset basis.
#[derive(Clone, Copy, Debug, PartialEq, Eq, Structural)]
pub enum Width {
    W32,
    W64,
    W128,
    W256,
    W512,
    W1024,
}

/// Why a hash cannot be set up.
#[derive(Clone, Copy, Debug, PartialEq, Eq, Structural)]
pub enum FnvError {
    /// No prime and offset basis are defined for the requested number of bits.
    UnsupportedWidth,
    /// The requested name is not one of `fnv0`, `fnv1`, `fnv1a`.
    UnsupportedVariant,
}

/// The number of bits of a width.
pub open spec fn width_bits(w: Width) -> nat {
    match w {
        Width::W32 => 32,
        Width::W64 => 64,
        Width::W128 => 128,
        Width::W256 => 256,
        Width::W512 => 512,
        Width::W1024 => 1024,
    }
}

/// The number of 32-bit limbs of a width.
pub open spec fn limb_count(w: Width) -> nat {
    width_bits(w) / 32
}

/// Two to the power of the width: every digest is below it.
pub open spec fn modulus(w: Width) -> nat {
    base_pow(limb_count(w))
}

/// Whether `bits` names a supported width, and which one.
pub open spec fn width_of_bits(bits: u32) -> Option<Width> {
    if bits == 32 {
        Some(Width::W32)
    } else if bits == 64 {
        Some(Width::W64)
    } else if bits == 128 {
        Some(Width::W128)
    } else if bits == 256 {
        Some(Width::W256)
    } else if bits == 512 {
        Some(Width::W512)
    } else if bits == 1024 {
        Some(Width::W1024)
    } else {
        None
    }
}

/// The FNV prime for 32 bits, 2^24 + 2^8 + 0x93, least significant limb first.
pub const PRIME_32: [u32; 1] = [
    0x01000193,
];

/// The FNV offset basis for 32 bits, least significant limb first.
pub const OFFSET_BASIS_32: [u32; 1] = [
    0x811C9DC5,
];

/// The FNV prime for 64 bits, 2^40 + 2^8 + 0xB3, least significant limb first.
pub const PRIME_64: [u32; 2] = [
    0x000001B3, 0x00000100,
];

/// The FNV offset basis for 64 bits, least significant limb first.
pub const OFFSET_BASIS_64: [u32; 2] = [
    0x84222325, 0xCBF29CE4,
];

/// The FNV prime for 128 bits, 2^88 + 2^8 + 0x3B, least significant limb first.
pub const PRIME_128: [u32; 4] = [
    0x0000013B, 0, 0x01000000, 0,
];

/// The FNV offset basis for 128 bits, least significant limb first.
pub const OFFSET_BASIS_128: [u32; 4] = [
    0x6295C58D, 0x62B82175, 0x07BB0142, 0x6C62272E,
];

/// The FNV prime for 256 bits, 2^168 + 2^8 + 0x63, least significant limb first.
pub const PRIME_256: [u32; 8] = [
    0x00000163, 0, 0, 0, 0, 0x00000100, 0, 0,
];

/// The FNV offset basis for 256 bits, least significant limb first.
pub const OFFSET_BASIS_256: [u32; 8] = [
    0xCAEE0535, 0x1023B4C8, 0x47B6BBB3, 0xC8B15368, 0xC4E576CC, 0x2D98C384, 0xAAC55036,
    0xDD268DBC,
];

/// The FNV prime for 512 bits, 2^344 + 2^8 + 0x57, least significant limb first.
pub const PRIME_512: [u32; 16] = [
    0x00000157, 0, 0, 0, 0, 0, 0, 0, 0, 0, 0x01000000, 0, 0, 0, 0, 0,
];

/// The FNV offset basis for 512 bits, least significant limb first.
pub const OFFSET_BASIS_512: [u32; 16] = [
    0x4AFE9FD9, 0xAC982AAC, 0x5F56E34B, 0x18203641, 0x42DBE7CE, 0x2EA79BC9, 0x34C192F6,
    0xE948F68A, 0x00000D21, 0, 0xC9000000, 0xAC87D059, 0x309990AC, 0xDCA1E50F, 0x171F4416,
    0xB86DB0B1,
];

/// The FNV prime for 1024 bits, 2^680 + 2^8 + 0x8D, least significant limb first.
pub const PRIME_1024: [u32; 32] = [
    0x0000018D, 0, 0, 0, 0, 0, 0, 0, 0, 0, 0, 0, 0, 0, 0, 0, 0, 0, 0, 0, 0, 0x00000100, 0, 0, 0,
    0, 0, 0, 0, 0, 0, 0,
];

/// The FNV offset basis for 1024 bits, least significant limb first.
pub const OFFSET_BASIS_1024: [u32; 32] = [
    0x71EE90B3, 0xAFF4B16C, 0xC6A93B21, 0x6BDE8CC9, 0xC005AE55, 0x555F256C, 0x2734510A,
    0xEB6E7380, 0x0004C6D7, 0, 0, 0, 0, 0, 0, 0, 0, 0, 0, 0, 0, 0x9A21D900, 0xDA3674DA,
    0x6C3BF34E, 0x23FDADA1, 0x4B29FC42, 0x591028B7, 0x32E56D5A, 0x758ECC4D, 0x005F7A76, 0, 0,
];

/// The limbs of the FNV prime of a width.
pub open spec fn prime_limbs(w: Width) -> Seq<u32> {
    match w {
        Width::W32 => PRIME_32@,
        Width::W64 => PRIME_64@,
        Width::W128 => PRIME_128@,
        Width::W256 => PRIME_256@,
        Width::W512 => PRIME_512@,
        Width::W1024 => PRIME_1024@,
    }
}

/// The limbs of the FNV offset basis of a width.
pub open spec fn offset_basis_limbs(w: Width) -> Seq<u32> {
    match w {
        Width::W32 => OFFSET_BASIS_32@,
        Width::W64 => OFFSET_BASIS_64@,
        Width::W128 => OFFSET_BASIS_128@,
        Width::W256 => OFFSET_BASIS_256@,
        Width::W512 => OFFSET_BASIS_512@,
        Width::W1024 => OFFSET_BASIS_1024@,
    }
}

/// The FNV prime of a width.
pub open spec fn fnv_prime(w: Width) -> nat {
    limbs_value(prime_limbs(w))
}

/// The FNV offset basis of a width.
pub open spec fn offset_basis(w: Width) -> nat {
    limbs_value(offset_basis_limbs(w))
}

impl Width {
    /// The width with the given number of bits.
    pub fn from_bits(bits: u32) -> (r: Result<Width, FnvError>)
        ensures
            width_of_bits(bits) is Some ==> r == Ok::<Width, FnvError>(width_of_bits(bits)->0),
            width_of_bits(bits) is None ==> r == Err::<Width, FnvError>(FnvError::UnsupportedWidth),
    {
        match bits {
            32 => Ok(Width::W32),
            64 => Ok(Width::W64),
            128 => Ok(Width::W128),
            256 => Ok(Width::W256),
            512 => Ok(Width::W512),
            1024 => Ok(Width::W1024),
            _ => Err(FnvError::UnsupportedWidth),
        }
    }

    /// The number of bits of this width.
    pub fn bits(&self) -> (r: u32)
        ensures
            r as nat == width_bits(*self),
    {
        match self {
            Width::W32 => 32,
            Width::W64 => 64,
            Width::W128 => 128,
            Width::W256 => 256,
            Width::W512 => 512,
            Width::W1024 => 1024,
        }
    }

    /// The number of 32-bit limbs of this width.
    pub fn limbs(&self) -> (r: usize)
        ensures
            r as nat == limb_count(*self),
            r >= 1,
    {
        match self {
            Width::W32 => 1,
            Width::W64 => 2,
            Width::W128 => 4,
            Width::W256 => 8,
            Width::W512 => 16,
            Width::W1024 => 32,
        }
    }
}

/// The FNV prime and offset basis of a width, as limbs, least significant first.
pub fn constants_for(w: Width) -> (r: (Vec<u32>, Vec<u32>))
    ensures
        r.0@ == prime_limbs(w),
        r.1@ == offset_basis_limbs(w),
        r.0.len() == limb_count(w),
        r.1.len() == limb_count(w),
{
    let (p, o): (&[u32], &[u32]) = match w {
        Width::W32 => (PRIME_32.as_slice(), OFFSET_BASIS_32.as_slice()),
        Width::W64 => (PRIME_64.as_slice(), OFFSET_BASIS_64.as_slice()),
        Width::W128 => (PRIME_128.as_slice(), OFFSET_BASIS_128.as_slice()),
        Width::W256 => (PRIME_256.as_slice(), OFFSET_BASIS_256.as_slice()),
        Width::W512 => (PRIME_512.as_slice(), OFFSET_BASIS_512.as_slice()),
        Width::W1024 => (PRIME_1024.as_slice(), OFFSET_BASIS_1024.as_slice()),
    };
    (vstd::slice::slice_to_vec(p), vstd::slice::slice_to_vec(o))
}

} // verus!

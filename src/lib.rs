//! The FNV family of hash functions (FNV-0, FNV-1, FNV-1a) at widths from 32 to 1024 bits,
//! over wide integers held as 32-bit limbs, with contracts proved by Verus.

use vstd::prelude::*;

pub mod constants;
pub mod fnv;
pub mod hex;
pub mod select;
pub mod state;
pub mod wide;

verus! {

} // verus!

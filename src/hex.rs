use vstd::prelude::*;

use crate::constants::{limb_count, width_bits, Width};
use crate::fnv::Digest;
use crate::wide::{lemma_limbs_of_value, to_limbs};

verus! {

/// The upper-case hexadecimal digit for `d`, which is below 16.
pub open spec fn hex_digit(d: u32) -> char {
    if d < 10 {
        (0x30 + d) as u8 as char
    } else {
        (0x41 + d - 10) as u8 as char
    }
}

/// The eight hexadecimal digits of one limb, most significant first.
pub open spec fn limb_hex(x: u32) -> Seq<char> {
    Seq::new(8, |i: int| hex_digit((x >> (4 * (7 - i)) as u32) & 0xF))
}

/// The hexadecimal digits of a limb sequence, most significant limb first, with no digit
/// dropped: eight digits per limb.
pub open spec fn limbs_hex(s: Seq<u32>) -> Seq<char>
    decreases s.len(),
{
    if s.len() == 0 {
        Seq::empty()
    } else {
        limb_hex(s.last()) + limbs_hex(s.drop_last())
    }
}

/// The canonical rendering of a `w`-bit value: upper-case hexadecimal, most significant digit
/// first, `width_bits(w) / 4` digits with leading zeros kept.
pub open spec fn digest_hex(v: nat, w: Width) -> Seq<char> {
    limbs_hex(to_limbs(v, limb_count(w)))
}

/// Relies on String::push: the character is appended at the end.
#[verifier::external_body]
pub(crate) fn push_char(s: &mut String, c: char)
    ensures
        final(s)@ == old(s)@.push(c),
{
    s.push(c)
}

fn digit_char(d: u32) -> (c: char)
    requires
        d < 16,
    ensures
        c == hex_digit(d),
{
    if d < 10 {
        (0x30 + d) as u8 as char
    } else {
        (0x41 + d - 10) as u8 as char
    }
}

/// Appends the eight hexadecimal digits of `x` to `out`.
fn push_limb_hex(out: &mut String, x: u32)
    ensures
        final(out)@ == old(out)@ + limb_hex(x),
{
    let mut k: u32 = 0;
    while k < 8
        invariant
            k <= 8,
            out@ == old(out)@ + limb_hex(x).take(k as int),
        decreases 8 - k,
    {
        let y = x >> (4 * (7 - k));
        let d = y & 0xF;
        assert(d < 16) by (bit_vector)
            requires
                d == y & 0xF,
        ;
        let c = digit_char(d);
        push_char(out, c);
        assert(limb_hex(x).take(k + 1) =~= limb_hex(x).take(k as int).push(c));
        k += 1;
    }
    assert(limb_hex(x).take(8) =~= limb_hex(x));
}

/// Renders limbs as upper-case hexadecimal, most significant digit first, eight digits per
/// limb.
pub fn limbs_to_hex(limbs: &Vec<u32>) -> (r: String)
    ensures
        r@ == limbs_hex(limbs@),
        r@.len() == 8 * limbs.len(),
{
    let mut out = String::new();
    let mut k: usize = limbs.len();
    proof {
        assert(limbs@.take(k as int) =~= limbs@);
    }
    while k > 0
        invariant
            k <= limbs.len(),
            out@ + limbs_hex(limbs@.take(k as int)) == limbs_hex(limbs@),
            out@.len() == 8 * (limbs.len() - k),
        decreases k,
    {
        let ghost pre = out@;
        push_limb_hex(&mut out, limbs[k - 1]);
        proof {
            let t = limbs@.take(k as int);
            assert(t.drop_last() =~= limbs@.take(k - 1));
            assert(t.last() == limbs[k - 1]);
            assert(pre + limbs_hex(t) == limbs_hex(limbs@));
            assert(limbs_hex(t) == limb_hex(limbs[k - 1]) + limbs_hex(limbs@.take(k - 1)));
            assert(out@ + limbs_hex(limbs@.take(k - 1)) =~= pre + limbs_hex(t));
        }
        k -= 1;
    }
    proof {
        assert(limbs@.take(0) =~= Seq::<u32>::empty());
        assert(out@ + Seq::<char>::empty() =~= out@);
    }
    out
}

impl Digest {
    /// The digest as upper-case hexadecimal, one digit per four bits, leading zeros kept.
    pub fn to_hex(&self) -> (r: String)
        requires
            self.wf(),
        ensures
            r@ == digest_hex(self.value(), self.spec_width()),
            r@.len() == width_bits(self.spec_width()) / 4,
    {
        proof {
            lemma_limbs_of_value(self.spec_limbs());
        }
        limbs_to_hex(self.limbs())
    }
}

} // verus!

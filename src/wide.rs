use vstd::prelude::*;

verus! {

/// The radix of one limb: a limb holds 32 bits.
pub open spec fn limb_base() -> nat {
    0x1_0000_0000
}

/// `limb_base()` raised to the power `k`.
pub open spec fn base_pow(k: nat) -> nat
    decreases k,
{
    if k == 0 {
        1
    } else {
        limb_base() * base_pow((k - 1) as nat)
    }
}

/// The unsigned integer that the lowest `n` limbs of `s` stand for, least significant first.
pub open spec fn prefix_value(s: Seq<u32>, n: nat) -> nat
    decreases n,
{
    if n == 0 {
        0
    } else {
        prefix_value(s, (n - 1) as nat) + s[n - 1] as nat * base_pow((n - 1) as nat)
    }
}

/// The unsigned integer that a sequence of limbs stands for, least significant limb first.
pub open spec fn limbs_value(s: Seq<u32>) -> nat {
    prefix_value(s, s.len())
}

/// The product of two limbs plus two more limbs fits in two limbs.
proof fn lemma_limb_product_fits(x: u32, y: u32, z: u32, c: u64)
    requires
        c < 0x1_0000_0000,
    ensures
        x as nat * y as nat + z as nat + c as nat <= 0xFFFF_FFFF_FFFF_FFFF,
{
    assert(x as nat * y as nat <= 0xFFFF_FFFF * 0xFFFF_FFFF) by (nonlinear_arith)
        requires
            x <= 0xFFFF_FFFF,
            y <= 0xFFFF_FFFF,
    ;
}

/// Powers of the limb base multiply by adding exponents.
pub proof fn lemma_base_pow_add(a: nat, b: nat)
    ensures
        base_pow(a + b) == base_pow(a) * base_pow(b),
    decreases a,
{
    if a > 0 {
        let a1 = (a - 1) as nat;
        lemma_base_pow_add(a1, b);
        assert(base_pow(a) == limb_base() * base_pow(a1));
        assert(base_pow(a1 + b + 1) == limb_base() * base_pow(a1 + b));
        assert(a + b == a1 + b + 1);
        let (x, y, z, w, v) = (base_pow(a + b), base_pow(a1 + b), base_pow(a1), base_pow(b), base_pow(a));
        assert(x == v * w) by (nonlinear_arith)
            requires
                x == limb_base() * y,
                y == z * w,
                v == limb_base() * z,
        ;
    } else {
        let (x, z) = (base_pow(a + b), base_pow(b));
        assert(a + b == b);
        assert(base_pow(a) == 1);
        assert(x == 1 * z) by (nonlinear_arith)
            requires
                x == z,
        ;
    }
}

/// Powers of the limb base are positive.
pub proof fn lemma_base_pow_positive(k: nat)
    ensures
        base_pow(k) > 0,
    decreases k,
{
    if k > 0 {
        lemma_base_pow_positive((k - 1) as nat);
        assert(limb_base() * base_pow((k - 1) as nat) > 0) by (nonlinear_arith)
            requires
                base_pow((k - 1) as nat) > 0,
        ;
    }
}

/// The value of the lowest `n` limbs is below `base_pow(n)`.
pub proof fn lemma_prefix_value_bound(s: Seq<u32>, n: nat)
    requires
        n <= s.len(),
    ensures
        prefix_value(s, n) < base_pow(n),
    decreases n,
{
    if n > 0 {
        let k = (n - 1) as nat;
        lemma_prefix_value_bound(s, k);
        let p = base_pow(k);
        let x = s[k as int] as nat;
        assert(prefix_value(s, k) + x * p < limb_base() * p) by (nonlinear_arith)
            requires
                prefix_value(s, k) < p,
                x < limb_base(),
        ;
    }
}

/// Limbs at or above position `n` do not affect the value of the lowest `n` limbs.
pub proof fn lemma_prefix_value_frame(s: Seq<u32>, t: Seq<u32>, n: nat)
    requires
        n <= s.len(),
        n <= t.len(),
        forall|i: int| 0 <= i < n ==> s[i] == t[i],
    ensures
        prefix_value(s, n) == prefix_value(t, n),
    decreases n,
{
    if n > 0 {
        lemma_prefix_value_frame(s, t, (n - 1) as nat);
    }
}

/// The whole value splits at position `m` into the low part and a multiple of `base_pow(m)`.
pub proof fn lemma_prefix_value_split(s: Seq<u32>, m: nat, n: nat)
    requires
        m <= n <= s.len(),
    ensures
        exists|q: nat| prefix_value(s, n) == prefix_value(s, m) + #[trigger] (base_pow(m) * q),
    decreases n,
{
    if n == m {
        assert(prefix_value(s, n) == prefix_value(s, m) + base_pow(m) * 0);
    } else {
        let k = (n - 1) as nat;
        lemma_prefix_value_split(s, m, k);
        let q = choose|q: nat| prefix_value(s, k) == prefix_value(s, m) + #[trigger] (base_pow(m) * q);
        lemma_base_pow_add(m, (k - m) as nat);
        let x = s[k as int] as nat;
        let q2 = q + x * base_pow((k - m) as nat);
        assert(base_pow(m) * q + x * (base_pow(m) * base_pow((k - m) as nat)) == base_pow(m) * q2)
            by (nonlinear_arith)
            requires
                q2 == q + x * base_pow((k - m) as nat),
        ;
        assert(prefix_value(s, n) == prefix_value(s, m) + base_pow(m) * q2);
    }
}

/// One step of multiply-accumulate: a limb sum split into its low limb and its carry.
proof fn lemma_mul_step(
    low: nat,
    low0: nat,
    acc: nat,
    rk: nat,
    ai: nat,
    bj: nat,
    c: nat,
    t: nat,
    pk: nat,
    pj: nat,
    pi: nat,
)
    requires
        pk == pj * pi,
        low + c * pk == low0 + bj * acc * pj,
        t == rk + ai * bj + c,
    ensures
        low + (t % limb_base()) * pk + (t / limb_base()) * (limb_base() * pk) == (low0 + rk * pk)
            + bj * (acc + ai * pi) * pj,
{
    let b = limb_base();
    let lo = t % b;
    let hi = t / b;
    assert(t == hi * b + lo);
    assert(lo * pk + hi * (b * pk) == (hi * b + lo) * pk) by (nonlinear_arith);
    assert(t * pk == rk * pk + ai * bj * pk + c * pk) by (nonlinear_arith)
        requires
            t == rk + ai * bj + c,
    ;
    assert(ai * bj * pk == bj * (ai * pi) * pj) by (nonlinear_arith)
        requires
            pk == pj * pi,
    ;
    assert(bj * (acc + ai * pi) * pj == bj * acc * pj + bj * (ai * pi) * pj) by (nonlinear_arith);
}

/// Multiplies two wide integers of `n` limbs, keeping the lowest `n` limbs of the product,
/// which is the product modulo `base_pow(n)`.
pub fn mul_wrapping(a: &Vec<u32>, b: &Vec<u32>) -> (r: Vec<u32>)
    requires
        a.len() == b.len(),
    ensures
        r.len() == a.len(),
        limbs_value(r@) == (limbs_value(a@) * limbs_value(b@)) % base_pow(a.len() as nat),
{
    let n = a.len();
    let mut r: Vec<u32> = Vec::new();
    let mut z: usize = 0;
    while z < n
        invariant
            z <= n,
            r.len() == z,
            forall|i: int| 0 <= i < z ==> r[i] == 0,
        decreases n - z,
    {
        r.push(0);
        z += 1;
    }
    proof {
        assert(prefix_value(r@, n as nat) == 0) by {
            lemma_prefix_value_zero(r@, n as nat);
        }
        lemma_base_pow_positive(n as nat);
    }
    let ghost modulus = base_pow(n as nat);
    let ghost va = limbs_value(a@);
    proof {
        assert(prefix_value(b@, 0) == 0);
        assert(va * prefix_value(b@, 0) == 0);
        vstd::arithmetic::div_mod::lemma_small_mod(0, modulus);
    }
    let mut j: usize = 0;
    while j < n
        invariant
            n == a.len(),
            n == b.len(),
            j <= n,
            r.len() == n,
            modulus == base_pow(n as nat),
            modulus > 0,
            va == limbs_value(a@),
            limbs_value(r@) == (va * prefix_value(b@, j as nat)) % modulus,
        decreases n - j,
    {
        let ghost r0 = r@;
        let bj = b[j];
        let mut carry: u64 = 0;
        let mut i: usize = 0;
        proof {
            let z = prefix_value(a@, 0);
            assert(z == 0);
            assert(bj as nat * z * base_pow(j as nat) == 0) by (nonlinear_arith)
                requires
                    z == 0,
            ;
        }
        while i + j < n
            invariant
                r0.len() == n,
                n == a.len(),
                n == b.len(),
                j < n,
                i + j <= n,
                r.len() == n,
                bj == b[j as int],
                carry < 0x1_0000_0000,
                forall|m: int| i + j <= m < n ==> r[m] == r0[m],
                prefix_value(r@, (i + j) as nat) + carry as nat * base_pow((i + j) as nat)
                    == prefix_value(r0, (i + j) as nat) + bj as nat * prefix_value(a@, i as nat)
                    * base_pow(j as nat),
            decreases n - j - i,
        {
            let k = i + j;
            proof {
                lemma_limb_product_fits(a[i as int], bj, r[k as int], carry);
            }
            let t: u64 = a[i] as u64 * bj as u64 + r[k] as u64 + carry;
            let ghost before = r@;
            r.set(k, (t % 0x1_0000_0000) as u32);
            carry = t / 0x1_0000_0000;
            proof {
                lemma_base_pow_add(j as nat, i as nat);
                lemma_prefix_value_frame(r@, before, k as nat);
                lemma_mul_step(
                    prefix_value(before, k as nat),
                    prefix_value(r0, k as nat),
                    prefix_value(a@, i as nat),
                    r0[k as int] as nat,
                    a[i as int] as nat,
                    bj as nat,
                    (t - a[i as int] as nat * bj as nat - r0[k as int] as nat) as nat,
                    t as nat,
                    base_pow(k as nat),
                    base_pow(j as nat),
                    base_pow(i as nat),
                );
                assert(base_pow((k + 1) as nat) == limb_base() * base_pow(k as nat));
            }
            i += 1;
        }
        proof {
            assert(i == n - j);
            assert(carry as nat * base_pow(n as nat) == modulus * carry);
            let vr = limbs_value(r@);
            let vr0 = limbs_value(r0);
            let low = prefix_value(a@, (n - j) as nat);
            let pj = base_pow(j as nat);
            lemma_prefix_value_bound(r@, n as nat);
            lemma_prefix_value_split(a@, (n - j) as nat, n as nat);
            let q = choose|q: nat| va == low + #[trigger] (base_pow((n - j) as nat) * q);
            lemma_base_pow_add(j as nat, (n - j) as nat);
            let x = va * prefix_value(b@, j as nat);
            let y = bj as nat * low * pj;
            let w = va * prefix_value(b@, (j + 1) as nat);
            assert(w == x + va * (bj as nat * pj)) by (nonlinear_arith)
                requires
                    w == va * prefix_value(b@, (j + 1) as nat),
                    x == va * prefix_value(b@, j as nat),
                    prefix_value(b@, (j + 1) as nat) == prefix_value(b@, j as nat) + bj as nat
                        * pj,
            ;
            assert(va * (bj as nat * pj) == y + modulus * (bj as nat * q)) by (nonlinear_arith)
                requires
                    va == low + base_pow((n - j) as nat) * q,
                    modulus == pj * base_pow((n - j) as nat),
                    y == bj as nat * low * pj,
            ;
            // vr0 == x % modulus, and vr + carry * modulus == vr0 + y
            vstd::arithmetic::div_mod::lemma_fundamental_div_mod(x as int, modulus as int);
            vstd::arithmetic::div_mod::lemma_mod_multiples_vanish(
                (x / modulus + bj as nat * q) as int,
                (vr0 + y) as int,
                modulus as int,
            );
            vstd::arithmetic::div_mod::lemma_mod_multiples_vanish(
                carry as int,
                vr as int,
                modulus as int,
            );
            vstd::arithmetic::div_mod::lemma_small_mod(vr, modulus);
            assert(vr0 == x % modulus);
            let d = x / modulus;
            let e = bj as nat * q;
            assert(w == modulus * (d + e) + (vr0 + y)) by (nonlinear_arith)
                requires
                    w == x + va * (bj as nat * pj),
                    va * (bj as nat * pj) == y + modulus * e,
                    x == modulus * d + vr0,
            ;
            assert(vr0 + y == modulus * carry + vr);
        }
        j += 1;
    }
    r
}

/// A sequence of zero limbs has value zero.
pub proof fn lemma_prefix_value_zero(s: Seq<u32>, n: nat)
    requires
        n <= s.len(),
        forall|i: int| 0 <= i < n ==> s[i] == 0,
    ensures
        prefix_value(s, n) == 0,
    decreases n,
{
    if n > 0 {
        lemma_prefix_value_zero(s, (n - 1) as nat);
    }
}

/// XOR of a byte into the lowest eight bits of `v`; the higher bits are kept.
pub open spec fn xor_low_byte(v: nat, byte: u8) -> nat {
    (v / 256) * 256 + (((v % 256) as u8) ^ byte) as nat
}

/// Two limb sequences that agree above the lowest limb differ in value by their lowest limbs.
pub proof fn lemma_prefix_value_low_limb(s: Seq<u32>, t: Seq<u32>, n: nat)
    requires
        1 <= n <= s.len(),
        n <= t.len(),
        forall|i: int| 1 <= i < n ==> s[i] == t[i],
    ensures
        prefix_value(s, n) + t[0] as nat == prefix_value(t, n) + s[0] as nat,
    decreases n,
{
    if n == 1 {
        assert(prefix_value(s, 0) == 0 && prefix_value(t, 0) == 0);
        assert(base_pow(0) == 1);
    } else {
        lemma_prefix_value_low_limb(s, t, (n - 1) as nat);
    }
}

/// XORs `byte` into the lowest eight bits of a wide integer.
pub fn xor_byte(x: &mut Vec<u32>, byte: u8)
    requires
        old(x).len() > 0,
    ensures
        final(x).len() == old(x).len(),
        limbs_value(final(x)@) == xor_low_byte(limbs_value(old(x)@), byte),
{
    let x0 = x[0];
    let y0 = x0 ^ (byte as u32);
    x.set(0, y0);
    proof {
        let s = old(x)@;
        let n = s.len();
        let v = limbs_value(s);
        assert(y0 == (x0 / 256) * 256 + (((x0 % 256) as u8) ^ byte) as u32) by (bit_vector)
            requires
                y0 == x0 ^ (byte as u32),
        ;
        lemma_prefix_value_low_limb(s, x@, n);
        lemma_prefix_value_split(s, 1, n);
        let q = choose|q: nat| v == prefix_value(s, 1) + #[trigger] (base_pow(1) * q);
        assert(prefix_value(s, 1) == x0) by {
            assert(s[0] == x0);
            assert(prefix_value(s, 1) == prefix_value(s, 0) + s[0] as nat * base_pow(0));
            assert(prefix_value(s, 0) == 0);
            assert(base_pow(0) == 1);
            let (p, b, c) = (prefix_value(s, 1), s[0] as nat, base_pow(0));
            assert(p == x0) by (nonlinear_arith)
                requires
                    p == 0 + b * c,
                    c == 1,
                    b == x0,
            ;
        }
        assert(base_pow(1) == limb_base()) by {
            assert(base_pow(0) == 1);
        }
        let h = 0x100_0000 * q;
        assert(v == 256 * h + x0);
        vstd::arithmetic::div_mod::lemma_mod_multiples_vanish(h as int, x0 as int, 256);
        vstd::arithmetic::div_mod::lemma_fundamental_div_mod(v as int, 256);
        vstd::arithmetic::div_mod::lemma_fundamental_div_mod(x0 as int, 256);
    }
}

/// The `n` limbs that represent `v` modulo `base_pow(n)`, least significant first.
pub open spec fn to_limbs(v: nat, n: nat) -> Seq<u32> {
    Seq::new(n, |i: int| ((v / base_pow(i as nat)) % limb_base()) as u32)
}

/// Each limb can be read back from the value: limb `k` is digit `k` in base `limb_base()`.
pub proof fn lemma_limb_of_value(s: Seq<u32>, k: nat)
    requires
        k < s.len(),
    ensures
        s[k as int] as nat == (limbs_value(s) / base_pow(k)) % limb_base(),
{
    let b = limb_base();
    let v = limbs_value(s);
    let x = s[k as int] as nat;
    let pk = base_pow(k);
    lemma_prefix_value_split(s, k + 1, s.len());
    let q = choose|q: nat| v == prefix_value(s, k + 1) + #[trigger] (base_pow(k + 1) * q);
    assert(base_pow(k + 1) == b * pk);
    assert(prefix_value(s, k + 1) == prefix_value(s, k) + x * pk);
    lemma_prefix_value_bound(s, k);
    lemma_base_pow_positive(k);
    let low = prefix_value(s, k);
    let big = base_pow(k + 1);
    assert(v == (x + b * q) * pk + low) by (nonlinear_arith)
        requires
            v == low + x * pk + big * q,
            big == b * pk,
    ;
    vstd::arithmetic::div_mod::lemma_fundamental_div_mod_converse(
        v as int,
        pk as int,
        (x + b * q) as int,
        low as int,
    );
    vstd::arithmetic::div_mod::lemma_fundamental_div_mod_converse(
        (x + b * q) as int,
        b as int,
        q as int,
        x as int,
    );
}

/// A limb sequence is the representation of its own value.
pub proof fn lemma_limbs_of_value(s: Seq<u32>)
    ensures
        s == to_limbs(limbs_value(s), s.len()),
{
    assert forall|k: int| 0 <= k < s.len() implies s[k] == to_limbs(limbs_value(s), s.len())[k] by {
        lemma_limb_of_value(s, k as nat);
    }
    assert(s =~= to_limbs(limbs_value(s), s.len()));
}

/// `base_pow(k)` is two to the power `32 * k`.
pub proof fn lemma_base_pow_is_pow2(k: nat)
    ensures
        base_pow(k) == vstd::arithmetic::power2::pow2(32 * k),
    decreases k,
{
    if k == 0 {
        vstd::arithmetic::power2::lemma2_to64();
    } else {
        let k1 = (k - 1) as nat;
        lemma_base_pow_is_pow2(k1);
        vstd::arithmetic::power2::lemma2_to64();
        vstd::arithmetic::power2::lemma_pow2_adds(32, 32 * k1);
        assert(32 * k == 32 + 32 * k1);
    }
}

/// XOR of a byte into the low bits keeps a value below any multiple of 256 that it was below.
pub proof fn lemma_xor_low_byte_bound(v: nat, byte: u8, m: nat)
    requires
        v < m,
        m % 256 == 0,
    ensures
        xor_low_byte(v, byte) < m,
{
    let low = (((v % 256) as u8) ^ byte) as nat;
    assert(low < 256);
    let h = v / 256;
    let mh = m / 256;
    vstd::arithmetic::div_mod::lemma_fundamental_div_mod(v as int, 256);
    vstd::arithmetic::div_mod::lemma_fundamental_div_mod(m as int, 256);
    assert(h < mh) by (nonlinear_arith)
        requires
            v == 256 * h + v % 256,
            m == 256 * mh,
            v < m,
            v % 256 >= 0,
    ;
    assert(h * 256 + low < m) by (nonlinear_arith)
        requires
            h < mh,
            m == 256 * mh,
            low < 256,
    ;
}

/// Powers of the limb base above the zeroth are multiples of 256.
pub proof fn lemma_base_pow_multiple_of_256(k: nat)
    requires
        k >= 1,
    ensures
        base_pow(k) % 256 == 0,
{
    let p = base_pow((k - 1) as nat);
    assert(base_pow(k) == 256 * (0x100_0000 * p));
    vstd::arithmetic::div_mod::lemma_mod_multiples_vanish((0x100_0000 * p) as int, 0, 256);
}

} // verus!

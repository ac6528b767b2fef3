use vstd::prelude::*;

verus! {

/// Two to the power `k`.
pub open spec fn p2(k: nat) -> int
    decreases k,
{
    if k == 0 {
        1
    } else {
        2 * p2((k - 1) as nat)
    }
}

/// Powers of two are positive.
pub proof fn lemma_p2_pos(k: nat)
    ensures
        p2(k) >= 1,
    decreases k,
{
    if k > 0 {
        lemma_p2_pos((k - 1) as nat);
    }
}

/// Powers of two multiply by adding exponents.
pub proof fn lemma_p2_mul(a: nat, b: nat)
    ensures
        p2(a) * p2(b) == p2(a + b),
    decreases a,
{
    if a == 0 {
    } else {
        lemma_p2_mul((a - 1) as nat, b);
        assert(p2(a) * p2(b) == 2 * (p2((a - 1) as nat) * p2(b))) by (nonlinear_arith)
            requires
                p2(a) == 2 * p2((a - 1) as nat),
        ;
    }
}

/// Powers of two grow with the exponent.
pub proof fn lemma_p2_le(a: nat, b: nat)
    requires
        a <= b,
    ensures
        p2(a) <= p2(b),
    decreases b,
{
    if a < b {
        lemma_p2_le(a, (b - 1) as nat);
        lemma_p2_pos((b - 1) as nat);
    }
}

/// The value of the 64th power of two, by unfolding.
pub proof fn lemma_p2_64()
    ensures
        p2(23) == 0x80_0000,
        p2(24) == 0x100_0000,
        p2(52) == 0x10_0000_0000_0000,
        p2(53) == 0x20_0000_0000_0000,
        p2(63) == 0x8000_0000_0000_0000,
        p2(64) == 0x1_0000_0000_0000_0000,
{
    reveal_with_fuel(p2, 65);
}

/// Compute a power of two below 2^64.
pub fn pow2_u64(k: u32) -> (r: u64)
    requires
        k < 64,
    ensures
        r as int == p2(k as nat),
{
    let mut i: u32 = 0;
    let mut r: u64 = 1;
    while i < k
        invariant
            0 <= i <= k,
            k < 64,
            r as int == p2(i as nat),
        decreases k - i,
    {
        proof {
            lemma_p2_le((i + 1) as nat, 63);
            lemma_p2_64();
        }
        r = r * 2;
        i = i + 1;
    }
    r
}

/// The index of the most significant set bit of `m` (0 for 0 and 1).
pub open spec fn spec_msb(m: nat) -> nat
    decreases m,
{
    if m <= 1 {
        0
    } else {
        1 + spec_msb((m / 2) as nat)
    }
}

/// `m` lies between its top power of two and the next.
pub proof fn lemma_msb_bounds(m: nat)
    requires
        m >= 1,
    ensures
        p2(spec_msb(m)) <= m < p2(spec_msb(m) + 1),
    decreases m,
{
    if m > 1 {
        lemma_msb_bounds((m / 2) as nat);
    }
}

/// A 64-bit value's most significant bit index is below 64.
pub proof fn lemma_msb_max(m: nat)
    requires
        1 <= m < 0x1_0000_0000_0000_0000,
    ensures
        spec_msb(m) <= 63,
{
    lemma_msb_bounds(m);
    lemma_p2_64();
    if spec_msb(m) > 63 {
        lemma_p2_le(64, spec_msb(m));
    }
}

/// Compute the most-significant-bit index of a positive value.
pub fn msb_u64(m: u64) -> (r: u32)
    requires
        m >= 1,
    ensures
        r as nat == spec_msb(m as nat),
        r < 64,
{
    let mut v: u64 = m;
    let mut r: u32 = 0;
    while v > 1
        invariant
            m >= 1,
            v >= 1,
            spec_msb(m as nat) == r + spec_msb(v as nat),
        decreases v,
    {
        proof {
            lemma_msb_max(m as nat);
        }
        v = v / 2;
        r = r + 1;
    }
    proof {
        lemma_msb_max(m as nat);
    }
    r
}

/// Round `m / p2(s)` to nearest, ties to even.
pub open spec fn spec_round_even(m: nat, s: nat) -> int {
    if s == 0 {
        m as int
    } else {
        let q = m as int / p2(s);
        let rem = m as int % p2(s);
        let half = p2((s - 1) as nat);
        if rem > half || (rem == half && q % 2 == 1) {
            q + 1
        } else {
            q
        }
    }
}

/// The IEEE binary32 encoding of a signed 64-bit integer value, rounded
/// to nearest with ties to even. The exponent of any 64-bit integer is at
/// most 64, far below the infinity threshold, so the result is always
/// finite.
pub open spec fn spec_f32_bits_of_i64(v: i64) -> u32 {
    if v == 0 {
        0
    } else {
        let sign: int = if v < 0 {
            0x8000_0000
        } else {
            0
        };
        let m = (if v < 0 {
            -(v as int)
        } else {
            v as int
        }) as nat;
        let e = spec_msb(m);
        if e <= 23 {
            (sign + (e + 127) * 0x80_0000 + (m - p2(e)) * p2((23 - e) as nat)) as u32
        } else {
            let q = spec_round_even(m, (e - 23) as nat);
            if q == p2(24) {
                (sign + (e + 128) * 0x80_0000) as u32
            } else {
                (sign + (e + 127) * 0x80_0000 + (q - p2(23))) as u32
            }
        }
    }
}

/// The IEEE binary64 encoding of a signed 64-bit integer value, rounded
/// to nearest with ties to even.
pub open spec fn spec_f64_bits_of_i64(v: i64) -> u64 {
    if v == 0 {
        0
    } else {
        let sign: int = if v < 0 {
            0x8000_0000_0000_0000
        } else {
            0
        };
        let m = (if v < 0 {
            -(v as int)
        } else {
            v as int
        }) as nat;
        let e = spec_msb(m);
        if e <= 52 {
            (sign + (e + 1023) * 0x10_0000_0000_0000 + (m - p2(e)) * p2((52 - e) as nat)) as u64
        } else {
            let q = spec_round_even(m, (e - 52) as nat);
            if q == p2(53) {
                (sign + (e + 1024) * 0x10_0000_0000_0000) as u64
            } else {
                (sign + (e + 1023) * 0x10_0000_0000_0000 + (q - p2(52))) as u64
            }
        }
    }
}

/// The magnitude of a nonzero signed value, as an unsigned 64-bit value.
fn abs_u64(v: i64) -> (r: u64)
    requires
        v != 0,
    ensures
        r as int == if v < 0 {
            -(v as int)
        } else {
            v as int
        },
        r >= 1,
{
    if v < 0 {
        if v == i64::MIN {
            0x8000_0000_0000_0000u64
        } else {
            (-v) as u64
        }
    } else {
        v as u64
    }
}

/// A product of two values below matching powers of two stays below the
/// product power.
proof fn lemma_frac_bound(x: int, scale: int, a: nat, b: nat)
    requires
        0 <= x < p2(a),
        scale == p2(b),
    ensures
        0 <= x * scale <= p2(a + b) - scale,
{
    lemma_p2_pos(b);
    lemma_p2_mul(a, b);
    assert(x * scale <= (p2(a) - 1) * scale) by (nonlinear_arith)
        requires
            x <= p2(a) - 1,
            scale >= 1,
    ;
    assert((p2(a) - 1) * scale == p2(a) * scale - scale) by (nonlinear_arith);
    assert(x * scale >= 0) by (nonlinear_arith)
        requires
            x >= 0,
            scale >= 1,
    ;
}

/// Dividing a value by `p2(e - f)` when `p2(e) <= m < p2(e + 1)` lands
/// the quotient in the normalized significand range.
proof fn lemma_div_bounds(m: nat, e: nat, f: nat)
    requires
        f < e,
        p2(e) <= m < p2(e + 1),
    ensures
        p2(f) <= m as int / p2((e - f) as nat) < p2(f + 1),
{
    let d = p2((e - f) as nat);
    lemma_p2_pos((e - f) as nat);
    lemma_p2_mul(f, (e - f) as nat);
    lemma_p2_mul((f + 1) as nat, (e - f) as nat);
    assert(p2(f) * d == p2(e));
    assert(p2(f + 1) * d == p2(e + 1));
    assert(m as int / d >= p2(f)) by (nonlinear_arith)
        requires
            d >= 1,
            p2(f) * d <= m as int,
    ;
    assert(m as int / d < p2(f + 1)) by (nonlinear_arith)
        requires
            d >= 1,
            (m as int) < p2((f + 1) as nat) * d,
    ;
}

/// Compute the binary32 encoding of an integer value.
#[verifier::rlimit(50)]
pub fn f32_bits_of_i64(v: i64) -> (r: u32)
    ensures
        r == spec_f32_bits_of_i64(v),
{
    if v == 0 {
        return 0;
    }
    let sign: u32 = if v < 0 {
        0x8000_0000
    } else {
        0
    };
    let m: u64 = abs_u64(v);
    let e = msb_u64(m);
    proof {
        lemma_msb_bounds(m as nat);
        lemma_p2_64();
    }
    if e <= 23 {
        let low = pow2_u64(e);
        let scale = pow2_u64(23 - e);
        proof {
            lemma_p2_le(e as nat, 23);
            lemma_frac_bound(m - low, scale as int, e as nat, (23 - e) as nat);
            lemma_p2_mul(e as nat, (23 - e) as nat);
            lemma_p2_le((e as nat) + ((23 - e) as nat), 23);
        }
        let frac = (m - low) * scale;
        sign + (e + 127) * 0x80_0000 + (frac as u32)
    } else {
        let s = e - 23;
        let div = pow2_u64(s);
        let half = pow2_u64(s - 1);
        proof {
            lemma_p2_pos(s as nat);
            lemma_div_bounds(m as nat, e as nat, 23);
        }
        let q = m / div;
        let rem = m % div;
        let q2: u64 = if rem > half || (rem == half && q % 2 == 1) {
            q + 1
        } else {
            q
        };
        proof {
            assert(q2 as int == spec_round_even(m as nat, s as nat));
        }
        if q2 == 0x100_0000 {
            sign + (e + 128) * 0x80_0000
        } else {
            sign + (e + 127) * 0x80_0000 + ((q2 - 0x80_0000) as u32)
        }
    }
}

/// Compute the binary64 encoding of an integer value.
#[verifier::rlimit(50)]
pub fn f64_bits_of_i64(v: i64) -> (r: u64)
    ensures
        r == spec_f64_bits_of_i64(v),
{
    if v == 0 {
        return 0;
    }
    let sign: u64 = if v < 0 {
        0x8000_0000_0000_0000
    } else {
        0
    };
    let m: u64 = abs_u64(v);
    let e = msb_u64(m);
    proof {
        lemma_msb_bounds(m as nat);
        lemma_p2_64();
    }
    if e <= 52 {
        let low = pow2_u64(e);
        let scale = pow2_u64(52 - e);
        proof {
            lemma_p2_le(e as nat, 52);
            lemma_frac_bound(m - low, scale as int, e as nat, (52 - e) as nat);
            lemma_p2_mul(e as nat, (52 - e) as nat);
            lemma_p2_le((e as nat) + ((52 - e) as nat), 52);
        }
        let frac = (m - low) * scale;
        sign + ((e + 1023) as u64) * 0x10_0000_0000_0000 + frac
    } else {
        let s = e - 52;
        let div = pow2_u64(s);
        let half = pow2_u64(s - 1);
        proof {
            lemma_p2_pos(s as nat);
            lemma_div_bounds(m as nat, e as nat, 52);
        }
        let q = m / div;
        let rem = m % div;
        let q2: u64 = if rem > half || (rem == half && q % 2 == 1) {
            q + 1
        } else {
            q
        };
        proof {
            assert(q2 as int == spec_round_even(m as nat, s as nat));
        }
        if q2 == 0x20_0000_0000_0000 {
            sign + ((e + 1024) as u64) * 0x10_0000_0000_0000
        } else {
            sign + ((e + 1023) as u64) * 0x10_0000_0000_0000 + (q2 - 0x10_0000_0000_0000)
        }
    }
}

} // verus!

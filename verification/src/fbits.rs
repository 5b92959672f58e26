//! Construction of IEEE-754 single-precision bit patterns by pure integer
//! arithmetic.
//!
//! The document format stores real numbers both as decimal text (in the JSON
//! chunk) and as fixed-point integers (normalized accessor components).  This
//! crate never holds a floating-point value; it holds the 32-bit pattern that
//! encodes one.  The central definition is [`ratio_bits`]: the bit pattern of
//! the value `(num / den) * 2^e2`, rounded to nearest with ties to even,
//! with two documented edge rules: magnitudes below the smallest normal
//! number flush to zero, and magnitudes that round past the largest finite
//! number become the infinity pattern.

use vstd::prelude::*;
use vstd::arithmetic::power2::{
    pow2, lemma_pow2_unfold, lemma_pow2_adds, lemma_pow2_strictly_increases, lemma_pow2_pos,
    lemma2_to64, lemma2_to64_rest,
};
use vstd::arithmetic::div_mod::lemma_fundamental_div_mod_converse;

verus! {

/// Bit pattern of positive or negative zero.
pub open spec fn f32_zero(sign: bool) -> u32 {
    if sign {
        0x8000_0000u32
    } else {
        0u32
    }
}

/// Bit pattern of positive or negative infinity.
pub open spec fn f32_inf(sign: bool) -> u32 {
    if sign {
        0xFF80_0000u32
    } else {
        0x7F80_0000u32
    }
}

/// Bit pattern of positive or negative one.
pub open spec fn f32_one(sign: bool) -> u32 {
    if sign {
        0xBF80_0000u32
    } else {
        0x3F80_0000u32
    }
}

/// Packs a sign, an unbiased exponent `e` and a mantissa `m` (with its hidden
/// leading bit, so `2^23 <= m < 2^24`) into the standard bit layout.
pub open spec fn f32_pack(sign: bool, e: int, m: int) -> u32
    recommends
        -126 <= e <= 127,
        0x80_0000 <= m < 0x100_0000,
{
    (((if sign {
        0x8000_0000int
    } else {
        0int
    }) + (e + 127) * 0x80_0000) + (m - 0x80_0000)) as u32
}

/// The unique `e` with `2^e <= num/den < 2^(e+1)`, for positive `num`, `den`.
pub open spec fn ratio_exp(num: int, den: int) -> int
    decreases
            (if num < den {
                1int
            } else {
                0int
            }),
            (if num < den {
                den - num
            } else {
                num - den
            }),
        when 1 <= num && 1 <= den
{
    if num < den {
        ratio_exp(2 * num, den) - 1
    } else if num >= 2 * den {
        ratio_exp(num, 2 * den) + 1
    } else {
        0
    }
}

/// Numerator after scaling the ratio by `2^-ratio_exp`, so that the scaled
/// ratio lies in `[1, 2)`.
pub open spec fn scaled_num(num: int, den: int) -> int {
    let e = ratio_exp(num, den);
    if e <= 0 {
        num * pow2((-e) as nat)
    } else {
        num
    }
}

/// Denominator after the same scaling.
pub open spec fn scaled_den(num: int, den: int) -> int {
    let e = ratio_exp(num, den);
    if e <= 0 {
        den
    } else {
        den * pow2(e as nat)
    }
}

/// After scaling, the ratio lies in `[1, 2)`; the exponent is nonnegative
/// exactly when the ratio is at least one.
pub proof fn lemma_scaled(num: int, den: int)
    requires
        1 <= num,
        1 <= den,
    ensures
        scaled_den(num, den) <= scaled_num(num, den) < 2 * scaled_den(num, den),
        scaled_den(num, den) >= 1,
        num < den ==> ratio_exp(num, den) < 0,
        num >= den ==> ratio_exp(num, den) >= 0,
    decreases
            (if num < den {
                1int
            } else {
                0int
            }),
            (if num < den {
                den - num
            } else {
                num - den
            }),
{
    lemma2_to64();
    if num < den {
        lemma_scaled(2 * num, den);
        let e = ratio_exp(num, den);
        let e1 = ratio_exp(2 * num, den);
        assert(e == e1 - 1);
        if 2 * num < den {
            assert(e1 < 0);
        } else {
            assert(2 * num < 2 * den);
            assert(e1 == 0);
        }
        assert(e1 <= 0);
        assert(e < 0);
        lemma_pow2_unfold((-e) as nat);
        assert(pow2((-e) as nat) == 2 * pow2(((-e) - 1) as nat));
        assert((-e) - 1 == -e1);
        assert(num * pow2((-e) as nat) == (2 * num) * pow2((-e1) as nat)) by (nonlinear_arith)
            requires
                pow2((-e) as nat) == 2 * pow2((-e1) as nat),
        ;
        assert(scaled_num(num, den) == num * pow2((-e) as nat));
        assert(scaled_num(2 * num, den) == (2 * num) * pow2((-e1) as nat));
        assert(scaled_den(num, den) == den);
        assert(scaled_den(2 * num, den) == den);
    } else if num >= 2 * den {
        lemma_scaled(num, 2 * den);
        let e = ratio_exp(num, den);
        let e1 = ratio_exp(num, 2 * den);
        assert(e == e1 + 1);
        assert(e1 >= 0);
        assert(e >= 1);
        lemma_pow2_unfold(e as nat);
        assert(pow2(e as nat) == 2 * pow2(e1 as nat));
        assert(den * pow2(e as nat) == (2 * den) * pow2(e1 as nat)) by (nonlinear_arith)
            requires
                pow2(e as nat) == 2 * pow2(e1 as nat),
        ;
        assert(scaled_den(num, den) == den * pow2(e as nat));
        if e1 <= 0 {
            assert(e1 == 0);
            assert(scaled_den(num, 2 * den) == 2 * den);
            assert(scaled_num(num, 2 * den) == num * pow2(0));
            assert(num * pow2(0) == num) by (nonlinear_arith)
                requires
                    pow2(0nat) == 1,
            ;
        } else {
            assert(scaled_den(num, 2 * den) == (2 * den) * pow2(e1 as nat));
            assert(scaled_num(num, 2 * den) == num);
        }
        assert(scaled_num(num, den) == num);
    } else {
        let e = ratio_exp(num, den);
        assert(e == 0);
        assert(scaled_num(num, den) == num * pow2(0));
        assert(num * pow2(0) == num) by (nonlinear_arith)
            requires
                pow2(0nat) == 1,
        ;
        assert(scaled_den(num, den) == den);
    }
}

/// Bounds on the exponent that follow from bounds on the inputs.
pub proof fn lemma_ratio_exp_bounds(num: int, den: int)
    requires
        1 <= num <= pow2(123),
        1 <= den <= pow2(110),
    ensures
        -111 <= ratio_exp(num, den) <= 123,
{
    lemma_scaled(num, den);
    let e = ratio_exp(num, den);
    if e <= 0 {
        assert(num * pow2((-e) as nat) < 2 * den);
        lemma_pow2_pos((-e) as nat);
        assert(pow2((-e) as nat) <= num * pow2((-e) as nat)) by (nonlinear_arith)
            requires
                1 <= num,
                pow2((-e) as nat) > 0,
        ;
        lemma_pow2_unfold(111nat);
        assert(pow2(111) == 2 * pow2(110));
        if -e > 111 {
            lemma_pow2_strictly_increases(111nat, (-e) as nat);
            assert(false);
        }
    } else {
        assert(den * pow2(e as nat) <= num);
        lemma_pow2_pos(e as nat);
        assert(pow2(e as nat) <= den * pow2(e as nat)) by (nonlinear_arith)
            requires
                1 <= den,
                pow2(e as nat) > 0,
        ;
        if e > 123 {
            lemma_pow2_strictly_increases(123nat, e as nat);
            assert(false);
        }
    }
}

/// The bit pattern of `(num / den) * 2^e2`, rounded to nearest, ties to even.
/// Magnitudes below `2^-126` give the (signed) zero pattern; magnitudes that
/// round past the largest finite value give the (signed) infinity pattern.
pub open spec fn ratio_bits(sign: bool, num: int, den: int, e2: int) -> u32
    recommends
        0 <= num,
        1 <= den,
{
    if num == 0 {
        f32_zero(sign)
    } else {
        let e = ratio_exp(num, den);
        let sn = scaled_num(num, den);
        let sd = scaled_den(num, den);
        let ee = e + e2;
        if ee > 127 {
            f32_inf(sign)
        } else if ee < -126 {
            f32_zero(sign)
        } else {
            let m0 = (sn * 0x80_0000) / sd;
            let rem = (sn * 0x80_0000) % sd;
            let m = if 2 * rem > sd || (2 * rem == sd && m0 % 2 == 1) {
                m0 + 1
            } else {
                m0
            };
            if m == 0x100_0000 {
                if ee == 127 {
                    f32_inf(sign)
                } else {
                    f32_pack(sign, ee + 1, 0x80_0000)
                }
            } else {
                f32_pack(sign, ee, m)
            }
        }
    }
}

/// The rounded mantissa is correct to half a unit: for a scaled ratio, the
/// mantissa `m` chosen by [`ratio_bits`] satisfies `|m - num*2^23/den| <=
/// 1/2`, stated over integers as `|2*(m*den - num*2^23)| <= den`.
pub proof fn lemma_rounded_mantissa_error(num: int, den: int)
    requires
        1 <= den <= num < 2 * den,
    ensures
        ({
            let m0 = (num * 0x80_0000) / den;
            let rem = (num * 0x80_0000) % den;
            let m = if 2 * rem > den || (2 * rem == den && m0 % 2 == 1) {
                m0 + 1
            } else {
                m0
            };
            -den <= 2 * (m * den - num * 0x80_0000) <= den
        }),
{
    let t = num * 0x80_0000;
    let m0 = t / den;
    let rem = t % den;
    vstd::arithmetic::div_mod::lemma_fundamental_div_mod(t, den);
    assert(t == den * m0 + rem);
    assert(den * m0 == m0 * den) by (nonlinear_arith);
    if 2 * rem > den || (2 * rem == den && m0 % 2 == 1) {
        assert((m0 + 1) * den == m0 * den + den) by (nonlinear_arith);
    }
}

/// Doubles `num` until it reaches `den`; returns the scaled numerator and the
/// number of doublings.  Callable only when the ratio is below one.
fn scale_up(num: u128, den: u128) -> (r: (u128, u32))
    requires
        1 <= num < den,
        den as int <= pow2(110),
    ensures
        ratio_exp(num as int, den as int) == -(r.1 as int),
        r.0 as int == scaled_num(num as int, den as int),
        den <= r.0 < 2 * (den as int),
    decreases den - num,
{
    proof {
        lemma2_to64();
        lemma2_to64_rest();
        lemma_pow2_adds(64nat, 46nat);
        assert(pow2(110) == 0x4000000000000000000000000000);
    }
    let n2: u128 = 2 * num;
    if n2 >= den {
        proof {
            lemma2_to64();
            assert(ratio_exp(n2 as int, den as int) == 0);
            assert(ratio_exp(num as int, den as int) == -1);
            assert(num as int * pow2(1) == n2 as int) by (nonlinear_arith)
                requires
                    n2 == 2 * num,
                    pow2(1nat) == 2,
            ;
        }
        (n2, 1)
    } else {
        let (sn, k) = scale_up(n2, den);
        proof {
            lemma2_to64();
            let e1 = ratio_exp(n2 as int, den as int);
            assert(e1 == -(k as int));
            assert(ratio_exp(num as int, den as int) == e1 - 1);
            // k + 1 cannot overflow: pow2(k) is below 2 * den <= 2^111
            lemma_pow2_pos(k as nat);
            assert(pow2(k as nat) <= n2 as int * pow2(k as nat)) by (nonlinear_arith)
                requires
                    1 <= n2,
                    pow2(k as nat) > 0,
            ;
            assert(n2 as int * pow2(k as nat) == sn as int);
            assert(sn < 2 * den);
            lemma_pow2_unfold(111nat);
            if k > 111 {
                lemma_pow2_strictly_increases(111nat, k as nat);
                assert(false);
            }
            assert(k <= 111);
            // the scaled numerator agrees one step down
            lemma_pow2_unfold((k + 1) as nat);
            assert(num as int * pow2((k + 1) as nat) == n2 as int * pow2(k as nat))
                by (nonlinear_arith)
                requires
                    n2 == 2 * num,
                    pow2((k + 1) as nat) == 2 * pow2(k as nat),
            ;
        }
        (sn, k + 1)
    }
}

/// Doubles `den` until twice it passes `num`; returns the scaled denominator
/// and the number of doublings.  Callable only when the ratio is at least one.
fn scale_den(num: u128, den: u128) -> (r: (u128, u32))
    requires
        1 <= den <= num,
        num as int <= pow2(123),
    ensures
        ratio_exp(num as int, den as int) == r.1 as int,
        r.0 as int == scaled_den(num as int, den as int),
        r.0 <= num < 2 * (r.0 as int),
    decreases num - den,
{
    proof {
        lemma2_to64();
        lemma2_to64_rest();
        lemma_pow2_adds(64nat, 59nat);
        assert(pow2(123) == 0x8000000000000000000000000000000);
    }
    let d2: u128 = 2 * den;
    if num < d2 {
        proof {
            lemma2_to64();
            assert(ratio_exp(num as int, den as int) == 0);
        }
        (den, 0)
    } else {
        let (sd, k) = scale_den(num, d2);
        proof {
            lemma2_to64();
            let e1 = ratio_exp(num as int, d2 as int);
            assert(e1 == k as int);
            assert(ratio_exp(num as int, den as int) == e1 + 1);
            // k + 1 cannot overflow: pow2(k) is at most num <= 2^123
            lemma_pow2_pos(k as nat);
            if k == 0 {
                assert(pow2(0nat) == 1);
                assert(scaled_den(num as int, d2 as int) == d2);
            } else {
                assert(scaled_den(num as int, d2 as int) == d2 as int * pow2(k as nat));
            }
            assert(pow2(k as nat) <= d2 as int * pow2(k as nat)) by (nonlinear_arith)
                requires
                    1 <= d2,
                    pow2(k as nat) > 0,
            ;
            assert(d2 as int * pow2(k as nat) == sd as int || (k == 0 && sd == d2)) by {
                if k == 0 {
                    assert(sd == d2);
                } else {
                    assert(sd as int == d2 as int * pow2(k as nat));
                }
            }
            assert(sd <= num);
            if k > 123 {
                lemma_pow2_strictly_increases(123nat, k as nat);
                assert(pow2(k as nat) > pow2(123));
                assert(d2 as int * pow2(k as nat) >= pow2(k as nat));
                if sd as int == d2 as int * pow2(k as nat) {
                    assert(false);
                }
                assert(false);
            }
            // the scaled denominator agrees one step down
            lemma_pow2_unfold((k + 1) as nat);
            assert(den as int * pow2((k + 1) as nat) == d2 as int * pow2(k as nat))
                by (nonlinear_arith)
                requires
                    d2 == 2 * den,
                    pow2((k + 1) as nat) == 2 * pow2(k as nat),
            ;
            if k == 0 {
                assert(d2 as int * pow2(0nat) == d2) by (nonlinear_arith)
                    requires
                        pow2(0nat) == 1,
                ;
            }
        }
        (sd, k + 1)
    }
}

/// Extracts the 24-bit mantissa of `num / den` in `[1, 2)` by long division;
/// returns the mantissa (with its hidden bit) and the remainder.
fn mant_bits(num: u128, den: u128) -> (r: (u32, u128))
    requires
        1 <= den <= num,
        num < 2 * (den as int),
        den < 0x8000_0000_0000_0000_0000_0000_0000_0000u128,  // 2^127
    ensures
        r.0 as int == (num as int * 0x80_0000) / (den as int),
        r.1 as int == (num as int * 0x80_0000) % (den as int),
        0x80_0000 <= r.0 < 0x100_0000,
        r.1 < den,
{
    let mut q: u32 = 1;
    let mut rem: u128 = num - den;
    let mut i: usize = 0;
    proof {
        lemma2_to64();
        assert(num as int * pow2(0) == num) by (nonlinear_arith)
            requires
                pow2(0nat) == 1,
        ;
    }
    while i < 23
        invariant
            0 <= i <= 23,
            num as int * pow2(i as nat) == q as int * den as int + rem as int,
            rem < den,
            pow2(i as nat) <= q as int,
            (q as int) < pow2((i + 1) as nat),
            1 <= den <= num,
            num < 2 * (den as int),
            den < 0x8000_0000_0000_0000_0000_0000_0000_0000u128,
        decreases 23 - i,
    {
        proof {
            lemma2_to64();
            lemma_pow2_unfold((i + 1) as nat);
            lemma_pow2_unfold((i + 2) as nat);
            assert(num as int * pow2((i + 1) as nat) == 2 * (q as int * den as int) + 2 * (
            rem as int)) by (nonlinear_arith)
                requires
                    pow2((i + 1) as nat) == 2 * pow2(i as nat),
                    num as int * pow2(i as nat) == q as int * den as int + rem as int,
            ;
            if i + 1 < 23 {
                lemma_pow2_strictly_increases((i + 1) as nat, 23nat);
            }
            assert((q as int) < pow2(23));
            assert(pow2(23) == 0x80_0000);
        }
        let rem2: u128 = 2 * rem;
        if rem2 >= den {
            proof {
                assert((2 * (q as int) + 1) * den as int == 2 * (q as int * den as int)
                    + den as int) by (nonlinear_arith);
            }
            q = 2 * q + 1;
            rem = rem2 - den;
        } else {
            proof {
                assert((2 * (q as int)) * den as int == 2 * (q as int * den as int))
                    by (nonlinear_arith);
            }
            q = 2 * q;
            rem = rem2;
        }
        i = i + 1;
    }
    proof {
        lemma2_to64();
        assert(pow2(23) == 0x80_0000 && pow2(24) == 0x100_0000);
        lemma_fundamental_div_mod_converse(
            num as int * 0x80_0000,
            den as int,
            q as int,
            rem as int,
        );
    }
    (q, rem)
}

/// The bit pattern of `(num / den) * 2^e2`, rounded to nearest, ties to even:
/// the executable form of [`ratio_bits`].
pub fn ratio_to_bits(sign: bool, num: u128, den: u128, e2: i64) -> (r: u32)
    requires
        1 <= den <= 0x4000000000000000000000000000u128,  // 2^110
        num <= 0x8000000000000000000000000000000u128,  // 2^123
        -1200 <= e2 <= 1200,
    ensures
        r == ratio_bits(sign, num as int, den as int, e2 as int),
{
    if num == 0 {
        return if sign {
            0x8000_0000u32
        } else {
            0u32
        };
    }
    proof {
        lemma2_to64();
        lemma2_to64_rest();
        lemma_pow2_adds(64nat, 46nat);
        lemma_pow2_adds(64nat, 59nat);
        assert(pow2(110) == 0x4000000000000000000000000000);
        assert(pow2(123) == 0x8000000000000000000000000000000);
        lemma_ratio_exp_bounds(num as int, den as int);
        lemma_scaled(num as int, den as int);
    }
    let (sn, sd, e): (u128, u128, i64) = if num < den {
        let (sn0, k) = scale_up(num, den);
        (sn0, den, -(k as i64))
    } else {
        let (sd0, k) = scale_den(num, den);
        proof {
            lemma2_to64();
            if k == 0 {
                assert(num as int * pow2(0) == num) by (nonlinear_arith)
                    requires
                        pow2(0nat) == 1,
                ;
            }
            assert(num as int == scaled_num(num as int, den as int));
        }
        (num, sd0, k as i64)
    };
    let ee: i64 = e + e2;
    if ee > 127 {
        if sign {
            0xFF80_0000u32
        } else {
            0x7F80_0000u32
        }
    } else if ee < -126 {
        if sign {
            0x8000_0000u32
        } else {
            0u32
        }
    } else {
        let (m0, rem) = mant_bits(sn, sd);
        let rem2: u128 = 2 * rem;
        let round_up: bool = rem2 > sd || (rem2 == sd && m0 % 2 == 1);
        let m1: u32 = if round_up {
            m0 + 1
        } else {
            m0
        };
        let (m2, ef): (u32, i64) = if m1 == 0x100_0000 {
            (0x80_0000, ee + 1)
        } else {
            (m1, ee)
        };
        proof {
            // align the machine values with the specification's components
            let ni = num as int;
            let di = den as int;
            assert(e as int == ratio_exp(ni, di));
            assert(sn as int == scaled_num(ni, di));
            assert(sd as int == scaled_den(ni, di));
            assert(ee as int == ratio_exp(ni, di) + e2 as int);
            assert(m0 as int == (scaled_num(ni, di) * 0x80_0000) / scaled_den(ni, di));
            assert(rem as int == (scaled_num(ni, di) * 0x80_0000) % scaled_den(ni, di));
        }
        if ef > 127 {
            if sign {
                0xFF80_0000u32
            } else {
                0x7F80_0000u32
            }
        } else {
            let base: u32 = if sign {
                0x8000_0000u32
            } else {
                0u32
            };
            proof {
                assert(0x80_0000 <= m2 < 0x100_0000);
                assert(-126 <= ef <= 127);
                assert(base + ((ef + 127) as u32) * 0x80_0000 + (m2 - 0x80_0000) == f32_pack(
                    sign,
                    ef as int,
                    m2 as int,
                ));
            }
            base + ((ef + 127) as u32) * 0x80_0000 + (m2 - 0x80_0000)
        }
    }
}

/// Powers of five, the odd part of powers of ten.
pub open spec fn pow5(n: nat) -> int
    decreases n,
{
    if n == 0 {
        1
    } else {
        5 * pow5((n - 1) as nat)
    }
}

pub proof fn lemma_pow5_pos(n: nat)
    ensures
        pow5(n) >= 1,
    decreases n,
{
    if n > 0 {
        lemma_pow5_pos((n - 1) as nat);
    }
}

pub proof fn lemma_pow5_increases(a: nat, b: nat)
    requires
        a <= b,
    ensures
        pow5(a) <= pow5(b),
    decreases b,
{
    if a < b {
        lemma_pow5_increases(a, (b - 1) as nat);
        lemma_pow5_pos((b - 1) as nat);
    }
}

/// Five cubed is below two to the seventh, so `5^(3k) <= 2^(7k)`.
pub proof fn lemma_pow5_3_pow2_7(k: nat)
    ensures
        pow5(3 * k) <= pow2(7 * k),
    decreases k,
{
    if k == 0 {
        lemma2_to64();
    } else {
        lemma_pow5_3_pow2_7((k - 1) as nat);
        let a = pow5((3 * k - 3) as nat);
        let b = pow2((7 * k - 7) as nat);
        assert(pow5((3 * k - 1) as nat) == 5 * pow5((3 * k - 2) as nat));
        assert(pow5((3 * k - 2) as nat) == 5 * pow5((3 * k - 3) as nat));
        assert(pow5(3 * k) == 125 * a);
        lemma_pow2_adds(7nat, (7 * k - 7) as nat);
        lemma2_to64();
        assert(pow2(7 * k) == 128 * b);
        lemma_pow5_pos((3 * k - 3) as nat);
        lemma_pow2_pos((7 * k - 7) as nat);
        assert(125 * a <= 128 * b) by (nonlinear_arith)
            requires
                a <= b,
                a >= 1,
        ;
    }
}

/// The two power-of-five bounds the decimal converter relies on.
pub proof fn lemma_pow5_bounds()
    ensures
        pow5(38) < pow2(89),
        pow5(47) < pow2(110),
        pow5(38) < 0x20000000000000000000000,  // 2^89
        pow5(47) < 0x4000000000000000000000000000,  // 2^110
{
    lemma_pow5_3_pow2_7(12nat);
    lemma_pow5_3_pow2_7(15nat);
    lemma2_to64();
    lemma2_to64_rest();
    assert(pow5(37) == 5 * pow5(36));
    assert(pow5(38) == 5 * pow5(37));
    assert(pow5(38) == 25 * pow5(36));
    assert(pow5(46) == 5 * pow5(45));
    assert(pow5(47) == 5 * pow5(46));
    assert(pow5(47) == 25 * pow5(45));
    lemma_pow2_adds(84nat, 5nat);
    lemma_pow2_adds(105nat, 5nat);
    lemma_pow5_pos(36nat);
    lemma_pow5_pos(45nat);
    lemma_pow2_pos(84nat);
    lemma_pow2_pos(105nat);
    assert(25 * pow5(36) < 32 * pow2(84)) by (nonlinear_arith)
        requires
            pow5(36) <= pow2(84),
            pow5(36) >= 1,
    ;
    assert(25 * pow5(45) < 32 * pow2(105)) by (nonlinear_arith)
        requires
            pow5(45) <= pow2(105),
            pow5(45) >= 1,
    ;
    assert(pow2(89) == 32 * pow2(84));
    assert(pow2(110) == 32 * pow2(105));
    lemma_pow2_adds(64nat, 25nat);
    lemma_pow2_adds(64nat, 46nat);
    assert(pow2(89) == 0x20000000000000000000000);
    assert(pow2(110) == 0x4000000000000000000000000000);
}

/// Power of five as a machine integer.
pub fn pow5_u128(k: u32) -> (r: u128)
    requires
        k <= 47,
    ensures
        r as int == pow5(k as nat),
        1 <= r,
{
    let mut acc: u128 = 1;
    let mut i: u32 = 0;
    while i < k
        invariant
            i <= k <= 47,
            acc as int == pow5(i as nat),
            1 <= acc,
        decreases k - i,
    {
        proof {
            lemma_pow5_bounds();
            lemma_pow5_increases((i + 1) as nat, 47nat);
            assert(pow5((i + 1) as nat) == 5 * pow5(i as nat));
        }
        acc = acc * 5;
        i = i + 1;
    }
    acc
}

/// The bit pattern of the decimal value `d * 10^e10`, rounded to nearest with
/// ties to even, for a mantissa of at most ten decimal digits.  Magnitudes
/// that cannot reach the normal range give the (signed) zero pattern, and
/// magnitudes past the largest finite value give the (signed) infinity
/// pattern, in line with [`ratio_bits`].
pub open spec fn decimal_bits(sign: bool, d: int, e10: int) -> u32
    recommends
        0 <= d < 10_000_000_000,
{
    if d == 0 {
        f32_zero(sign)
    } else if e10 <= -48 {
        f32_zero(sign)
    } else if e10 >= 39 {
        f32_inf(sign)
    } else if e10 >= 0 {
        ratio_bits(sign, d * pow5(e10 as nat), 1, e10)
    } else {
        ratio_bits(sign, d, pow5((-e10) as nat), e10)
    }
}

/// Executable form of [`decimal_bits`].
pub fn decimal_to_bits(sign: bool, d: u64, e10: i64) -> (r: u32)
    requires
        d < 10_000_000_000,
        -1000 <= e10 <= 1000,
    ensures
        r == decimal_bits(sign, d as int, e10 as int),
{
    if d == 0 || e10 <= -48 {
        if sign {
            0x8000_0000u32
        } else {
            0u32
        }
    } else if e10 >= 39 {
        if sign {
            0xFF80_0000u32
        } else {
            0x7F80_0000u32
        }
    } else if e10 >= 0 {
        let p = pow5_u128(e10 as u32);
        proof {
            lemma_pow5_bounds();
            lemma_pow5_increases(e10 as nat, 38nat);
            assert((d as int) * (p as int) < 0x8000000000000000000000000000000)
                by (nonlinear_arith)
                requires
                    (d as int) < 0x400000000,
                    0 <= (p as int) < 0x20000000000000000000000,
            ;
        }
        let num = (d as u128) * p;
        ratio_to_bits(sign, num, 1, e10)
    } else {
        let p = pow5_u128((-e10) as u32);
        proof {
            lemma_pow5_bounds();
            lemma_pow5_increases((-e10) as nat, 47nat);
        }
        ratio_to_bits(sign, d as u128, p, e10)
    }
}

/// The bit pattern of `v / den` for an unsigned normalized component,
/// `0 <= v <= den`.
pub open spec fn unorm_bits(v: int, den: int) -> u32 {
    ratio_bits(false, v, den, 0)
}

/// Executable form of [`unorm_bits`].
pub fn unorm_to_bits(v: u32, den: u32) -> (r: u32)
    requires
        1 <= den,
    ensures
        r == unorm_bits(v as int, den as int),
{
    ratio_to_bits(false, v as u128, den as u128, 0)
}

/// The bit pattern of `max(v / den, -1)` for a signed normalized component:
/// the quotient clamps at minus one, which the asymmetric two's-complement
/// range would otherwise pass.
pub open spec fn snorm_bits(v: int, den: int) -> u32 {
    if v >= 0 {
        if v >= den {
            f32_one(false)
        } else {
            ratio_bits(false, v, den, 0)
        }
    } else {
        if -v >= den {
            f32_one(true)
        } else {
            ratio_bits(true, -v, den, 0)
        }
    }
}

/// Executable form of [`snorm_bits`].
pub fn snorm_to_bits(v: i32, den: u32) -> (r: u32)
    requires
        1 <= den,
        -0x10000 <= v <= 0x10000,
    ensures
        r == snorm_bits(v as int, den as int),
{
    if v >= 0 {
        if v as u32 >= den {
            0x3F80_0000u32
        } else {
            ratio_to_bits(false, v as u128, den as u128, 0)
        }
    } else {
        let mag: u32 = (-(v as i64)) as u32;
        if mag >= den {
            0xBF80_0000u32
        } else {
            ratio_to_bits(true, mag as u128, den as u128, 0)
        }
    }
}

/// The bit pattern of a small nonnegative integer widened to floating point;
/// exact for values below `2^24`.
pub open spec fn uint_bits(v: int) -> u32 {
    ratio_bits(false, v, 1, 0)
}

/// Executable form of [`uint_bits`].
pub fn uint_to_bits(v: u32) -> (r: u32)
    ensures
        r == uint_bits(v as int),
{
    ratio_to_bits(false, v as u128, 1, 0)
}

} // verus!

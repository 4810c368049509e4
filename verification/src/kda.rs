//! The KDA ratio shown for a game: `(kills + assists) / deaths` with two decimals.
//!
//! The text is the one the ratio computed in double precision prints with two
//! decimals: the quotient is rounded to the nearest double, and that double is
//! rounded to hundredths, halves to even. The computation here is exact integer
//! arithmetic: away from a half-way point in hundredths the nearest double lies
//! on the same side as the exact quotient (the quotients of 32-bit integers are
//! far coarser than a double's precision), and at a half-way point the side is
//! that of the nearest double.
use vstd::prelude::*;

use vstd::arithmetic::power2::{lemma2_to64, lemma2_to64_rest, lemma_pow2_unfold, pow2};

use crate::text::{
    concat2, concat3, decimal_pad2, nat_to_decimal, owned, u64_to_decimal, u64_to_decimal_pad2,
};

verus! {

/// The first `j` from `j0` with `a * 2^j >= 2^52 * b`: scaled by `2^j`, the
/// quotient `a / b` has the 53 integer bits of a double's significand.
pub open spec fn first_scale(a: nat, b: nat, j: nat) -> nat
    decreases 128 - j,
{
    if j >= 128 || a * pow2(j) >= pow2(52) * b {
        j
    } else {
        first_scale(a, b, j + 1)
    }
}

/// The quotient `a / b` (both positive) in hundredths, rounded as the nearest
/// double prints with two decimals.
pub open spec fn hundredths(a: nat, b: nat) -> nat {
    let q = (100 * a) / b;
    let r = (100 * a) % b;
    if 2 * r < b {
        q
    } else if 2 * r > b {
        q + 1
    } else {
        let j = first_scale(a, b, 0);
        let rj = (a * pow2(j)) % b;
        if rj == 0 {
            if q % 2 == 0 {
                q
            } else {
                q + 1
            }
        } else if 2 * rj > b {
            q + 1
        } else {
            q
        }
    }
}

/// The ratio text of `sum / deaths` (deaths not zero): a sign when the ratio
/// is negative (also for a zero sum over negative deaths, a negative zero),
/// the whole part, a point and two decimals.
pub open spec fn ratio_text(sum: int, deaths: int) -> Seq<char> {
    let a = if sum < 0 {
        -sum
    } else {
        sum
    };
    let b = if deaths < 0 {
        -deaths
    } else {
        deaths
    };
    let neg = (sum < 0 && deaths > 0) || (sum > 0 && deaths < 0) || (sum == 0 && deaths < 0);
    let n = hundredths(a as nat, b as nat);
    (if neg {
        "-"@
    } else {
        Seq::empty()
    }) + nat_to_decimal(n / 100) + "."@ + decimal_pad2(n % 100)
}

/// The KDA shown: `Perfect` without deaths, else the ratio text.
pub open spec fn spec_kda_text(kills: i32, deaths: i32, assists: i32) -> Seq<char> {
    if deaths == 0 {
        "Perfect"@
    } else {
        ratio_text(kills + assists, deaths as int)
    }
}

/// The ratio in hundredths for positive `a < 2^33`, `b < 2^32`.
fn hundredths_exec(a: u64, b: u64) -> (r: u64)
    requires
        0 < a < 0x2_0000_0000,
        0 < b < 0x1_0000_0000,
    ensures
        r == hundredths(a as nat, b as nat),
{
    let q = (100 * a) / b;
    let rem = (100 * a) % b;
    if 2 * rem < b {
        q
    } else if 2 * rem > b {
        assert(q <= 100 * a);
        q + 1
    } else {
        let aa = a as u128;
        let bb = b as u128;
        let mut j: u32 = 0;
        let mut scaled: u128 = aa;
        proof {
            lemma2_to64();
            lemma2_to64_rest();
        }
        while j < 128 && scaled < bb * 0x10_0000_0000_0000
            invariant
                j <= 128,
                scaled == aa * pow2(j as nat),
                scaled < bb * 0x20_0000_0000_0000,
                first_scale(a as nat, b as nat, 0) == first_scale(a as nat, b as nat, j as nat),
                bb == b,
                aa == a,
                0 < b < 0x1_0000_0000,
                0 < a < 0x2_0000_0000,
                pow2(52) == 0x10_0000_0000_0000,
            decreases 128 - j,
        {
            assert(pow2(52) * b == bb * 0x10_0000_0000_0000);
            proof {
                lemma_pow2_unfold((j + 1) as nat);
                assert(aa * pow2((j + 1) as nat) == 2 * (aa * pow2(j as nat))) by (nonlinear_arith)
                    requires
                        pow2((j + 1) as nat) == 2 * pow2(j as nat),
                ;
            }
            scaled = scaled * 2;
            j = j + 1;
        }
        assert(first_scale(a as nat, b as nat, j as nat) == j);
        let rj = scaled % bb;
        if rj == 0 {
            if q % 2 == 0 {
                q
            } else {
                assert(q <= 100 * a);
                q + 1
            }
        } else if 2 * rj > bb {
            assert(q <= 100 * a);
            q + 1
        } else {
            q
        }
    }
}

/// The ratio text of `sum / deaths`.
pub fn ratio_text_exec(sum: i64, deaths: i64) -> (r: String)
    requires
        deaths != 0,
        -0x1_0000_0000 <= sum <= 0x1_0000_0000,
        -0x8000_0000 <= deaths <= 0x8000_0000,
    ensures
        r@ == ratio_text(sum as int, deaths as int),
{
    let a: u64 = if sum < 0 {
        (-sum) as u64
    } else {
        sum as u64
    };
    let b: u64 = if deaths < 0 {
        (-deaths) as u64
    } else {
        deaths as u64
    };
    let neg = (sum < 0 && deaths > 0) || (sum > 0 && deaths < 0) || (sum == 0 && deaths < 0);
    let n: u64 = if a == 0 {
        assert(hundredths(0, b as nat) == 0) by (nonlinear_arith)
            requires
                b > 0,
        {
            assert((100 * 0nat) / (b as nat) == 0);
            assert((100 * 0nat) % (b as nat) == 0);
        }
        0
    } else {
        hundredths_exec(a, b)
    };
    let whole = u64_to_decimal(n / 100);
    let frac = u64_to_decimal_pad2(n % 100);
    let body = concat3(whole.as_str(), ".", frac.as_str());
    if neg {
        concat2("-", body.as_str())
    } else {
        proof {
            reveal_strlit("");
            assert(Seq::<char>::empty() + body@ =~= body@);
        }
        body
    }
}

/// The KDA of a game: `Perfect` without deaths, else the ratio
/// `(kills + assists) / deaths` with two decimals.
pub fn kda_text(kills: i32, deaths: i32, assists: i32) -> (r: String)
    ensures
        r@ == spec_kda_text(kills, deaths, assists),
{
    if deaths == 0 {
        owned("Perfect")
    } else {
        ratio_text_exec(kills as i64 + assists as i64, deaths as i64)
    }
}

} // verus!

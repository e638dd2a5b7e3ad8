use vstd::prelude::*;
use vstd::arithmetic::div_mod::{lemma_fundamental_div_mod, lemma_fundamental_div_mod_converse};

verus! {

proof fn lemma_cross(a: int, b: int, c: int, d: int, q1: int, r1: int, q2: int, r2: int)
    requires
        b > 0,
        d > 0,
        a == q1 * b + r1,
        c == q2 * d + r2,
        0 <= r1 < b,
        0 <= r2 < d,
    ensures
        q1 > q2 ==> a * d > c * b,
        q1 < q2 ==> a * d < c * b,
        q1 == q2 ==> (a * d >= c * b <==> r1 * d >= r2 * b),
{
    assert(a * d == q1 * (b * d) + r1 * d) by (nonlinear_arith)
        requires a == q1 * b + r1;
    assert(c * b == q2 * (b * d) + r2 * b) by (nonlinear_arith)
        requires c == q2 * d + r2;
    assert(r1 * d < b * d) by (nonlinear_arith)
        requires 0 <= r1 < b, d > 0;
    assert(r2 * b < b * d) by (nonlinear_arith)
        requires 0 <= r2 < d, b > 0;
    assert(0 <= r1 * d) by (nonlinear_arith)
        requires 0 <= r1, d > 0;
    assert(0 <= r2 * b) by (nonlinear_arith)
        requires 0 <= r2, b > 0;
    if q1 > q2 {
        assert(q1 * (b * d) >= (q2 + 1) * (b * d)) by (nonlinear_arith)
            requires q1 >= q2 + 1, b * d > 0;
        assert((q2 + 1) * (b * d) == q2 * (b * d) + b * d) by (nonlinear_arith);
    } else if q1 < q2 {
        assert(q2 * (b * d) >= (q1 + 1) * (b * d)) by (nonlinear_arith)
            requires q2 >= q1 + 1, b * d > 0;
        assert((q1 + 1) * (b * d) == q1 * (b * d) + b * d) by (nonlinear_arith);
    }
}

/// Whether `a / b >= c / d` as exact fractions, without any overflow.
pub fn ratio_ge(a: u128, b: u128, c: u128, d: u128) -> (r: bool)
    requires
        b > 0,
        d > 0,
    ensures
        r == (a * d >= c * b),
    decreases b + d,
{
    let q1 = a / b;
    let r1 = a % b;
    let q2 = c / d;
    let r2 = c % d;
    proof {
        lemma_fundamental_div_mod(a as int, b as int);
        lemma_fundamental_div_mod(c as int, d as int);
        assert(a == q1 * b + r1 && c == q2 * d + r2) by (nonlinear_arith)
            requires a == b * (a / b) + a % b, c == d * (c / d) + c % d, q1 == a / b, r1 == a % b,
                q2 == c / d, r2 == c % d;
        lemma_cross(a as int, b as int, c as int, d as int, q1 as int, r1 as int, q2 as int, r2 as int);
    }
    if q1 != q2 {
        assert((q1 > q2) == (a * d >= c * b));
        q1 > q2
    } else if r2 == 0 {
        proof {
            assert(0 <= r1 * d) by (nonlinear_arith)
                requires 0 <= r1, d > 0;
            assert(r2 * b == 0) by (nonlinear_arith)
                requires r2 == 0;
            assert(a * d >= c * b);
        }
        true
    } else if r1 == 0 {
        proof {
            assert(r2 * b > 0) by (nonlinear_arith)
                requires r2 > 0, b > 0;
            assert(r1 * d == 0) by (nonlinear_arith)
                requires r1 == 0;
            assert(!(a * d >= c * b));
        }
        false
    } else {
        let r = ratio_ge(d, r2, b, r1);
        proof {
            assert(d * r1 == r1 * d && b * r2 == r2 * b) by (nonlinear_arith);
            assert(r == (a * d >= c * b));
        }
        r
    }
}

/// `50 * a / b + 50 * c / d`, rounded half up.
pub open spec fn half_sum_rounded(a: int, b: int, c: int, d: int) -> int {
    (100 * a * d + 100 * c * b + b * d) / (2 * b * d)
}

/// Computes `half_sum_rounded` for two ratios `a / b` and `c / d` that lie in
/// `[0, 1]`.
pub fn rounded_half_sum(a: u128, b: u128, c: u64, d: u64) -> (r: u64)
    requires
        0 < b,
        a <= b,
        0 < d,
        c <= d,
    ensures
        r == half_sum_rounded(a as int, b as int, c as int, d as int),
        r <= 100,
{
    let f: u128 = 2 * (d as u128);
    let t: u128 = 100 * (c as u128) + (d as u128);
    let whole: u128 = t / f;
    let rest: u128 = t % f;
    let ghost bi = b as int;
    let ghost di = d as int;
    let ghost m = 2 * bi * di;
    let ghost big = 100 * (a as int) * di + bi * (rest as int);
    proof {
        lemma_fundamental_div_mod(t as int, f as int);
        assert(t == whole * f + rest) by (nonlinear_arith)
            requires t == f * (t / f) + t % f, whole == t / f, rest == t % f;
        assert(whole <= 50) by (nonlinear_arith)
            requires t == whole * f + rest, rest >= 0, f == 2 * di, t <= 101 * di, di > 0;
        assert(m > 0) by (nonlinear_arith)
            requires bi > 0, di > 0, m == 2 * bi * di;
        assert(big < 51 * m) by (nonlinear_arith)
            requires big == 100 * (a as int) * di + bi * (rest as int), a <= bi, rest < 2 * di,
                bi > 0, di > 0, m == 2 * bi * di;
        assert(big >= 0) by (nonlinear_arith)
            requires big == 100 * (a as int) * di + bi * (rest as int), a >= 0, rest >= 0,
                bi > 0, di > 0;
    }
    let mut k: u128 = 1;
    loop
        invariant
            1 <= k <= 51,
            (k - 1) * m <= big,
            big < 51 * m,
            m > 0,
            f == 2 * di,
            rest < f,
            f <= 0x2_0000_0000_0000_0000,
            a <= b,
            0 < b,
            0 < d,
            bi == b,
            di == d,
            m == 2 * bi * di,
            big == 100 * (a as int) * di + bi * (rest as int),
        ensures
            (k - 1) * m <= big < k * m,
            1 <= k <= 51,
        decreases 51 - k,
    {
        proof {
            assert(f <= k * f <= 51 * 0x2_0000_0000_0000_0000) by (nonlinear_arith)
                requires 1 <= k <= 51, 0 < f <= 0x2_0000_0000_0000_0000;
        }
        let ok = ratio_ge(a, b, k * f - rest, 50 * f);
        proof {
            assert((a * (50 * f) >= (k * f - rest) * b) <==> (k * m <= big)) by (nonlinear_arith)
                requires f == 2 * di, m == 2 * bi * di, bi == b,
                    big == 100 * (a as int) * di + bi * (rest as int);
        }
        if !ok {
            break;
        }
        proof {
            if k >= 51 {
                assert(k * m >= 51 * m) by (nonlinear_arith)
                    requires k >= 51, m > 0;
            }
        }
        k = k + 1;
    }
    let r = (whole as u64) + ((k - 1) as u64);
    proof {
        let n = 100 * (a as int) * di + 100 * (c as int) * bi + bi * di;
        assert(n == (whole + (k - 1)) * m + (big - (k - 1) * m)) by (nonlinear_arith)
            requires n == 100 * (a as int) * di + 100 * (c as int) * bi + bi * di,
                t == 100 * (c as int) + di, t == whole * f + rest, f == 2 * di, m == 2 * bi * di,
                big == 100 * (a as int) * di + bi * (rest as int);
        assert(big - (k - 1) * m < m) by (nonlinear_arith)
            requires big < k * m;
        lemma_fundamental_div_mod_converse(n, m, whole + (k - 1), big - (k - 1) * m);
        assert(k - 1 <= 50) by (nonlinear_arith)
            requires (k - 1) * m <= big, big < 51 * m, m > 0;
    }
    r
}

} // verus!

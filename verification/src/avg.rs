//! Summary statistics of a sample sequence: population size, truncated mean,
//! and truncated Bessel-corrected sample standard deviation, all in exact
//! integer arithmetic.

use vstd::arithmetic::div_mod::lemma_fundamental_div_mod;
use vstd::arithmetic::div_mod::lemma_mod_bound;
use vstd::prelude::*;

verus! {

/// Per-category summary statistics.
#[derive(Copy, Clone, Debug, PartialEq, Eq, Structural)]
pub struct Avg {
    pub mean: u16,
    pub sd: u16,
    pub pop: usize,
}

/// The sum of a sample sequence.
pub open spec fn sum_seq(s: Seq<u16>) -> int
    decreases s.len(),
{
    if s.len() == 0 {
        0
    } else {
        sum_seq(s.drop_last()) + s.last()
    }
}

/// The truncated mean: the integer quotient of sum and length, and 0 for an
/// empty sequence.
pub open spec fn mean_spec(s: Seq<u16>) -> int {
    if s.len() == 0 {
        0
    } else {
        sum_seq(s) / (s.len() as int)
    }
}

/// The sum of squared deviations from an integer centre `m`.
pub open spec fn sq_dev_sum(s: Seq<u16>, m: int) -> int
    decreases s.len(),
{
    if s.len() == 0 {
        0
    } else {
        sq_dev_sum(s.drop_last(), m) + (s.last() - m) * (s.last() - m)
    }
}

/// The sum of deviations from an integer centre `m`.
pub open spec fn lin_dev_sum(s: Seq<u16>, m: int) -> int
    decreases s.len(),
{
    if s.len() == 0 {
        0
    } else {
        lin_dev_sum(s.drop_last(), m) + (s.last() - m)
    }
}

/// `n²` times the sum of squared deviations from the exact rational mean
/// `total / n`: the sum over the samples `x` of `(n·x - total)²`.
pub open spec fn dev_sq_total(s: Seq<u16>, n: int, total: int) -> int
    decreases s.len(),
{
    if s.len() == 0 {
        0
    } else {
        dev_sq_total(s.drop_last(), n, total) + (n * s.last() - total) * (n * s.last() - total)
    }
}

/// `sd` is the sample standard deviation truncated to an integer: the exact
/// Bessel-corrected variance `dev_sq_total / (n²(n-1))` lies in
/// `[sd², (sd+1)²)`; a value too large for `u16` saturates at `u16::MAX`.
pub open spec fn sd_squeeze(s: Seq<u16>, sd: int) -> bool {
    let n = s.len() as int;
    let d = dev_sq_total(s, n, sum_seq(s));
    &&& sd * sd * n * n * (n - 1) <= d
    &&& (sd == u16::MAX || d < (sd + 1) * (sd + 1) * n * n * (n - 1))
}

/// What `Avg::new` computes from a sample sequence: the exact population
/// size and truncated mean, and, for two or more samples, the truncated
/// sample standard deviation; fewer than two samples have no spread.
pub open spec fn avg_matches(a: Avg, s: Seq<u16>) -> bool {
    &&& a.pop == s.len()
    &&& a.mean == mean_spec(s)
    &&& if s.len() < 2 {
        a.sd == 0
    } else {
        sd_squeeze(s, a.sd as int)
    }
}

/// The sum of a sample sequence is at most 0xFFFF per sample.
pub proof fn lemma_sum_bounds(s: Seq<u16>)
    ensures
        0 <= sum_seq(s) <= s.len() * 0xFFFF,
    decreases s.len(),
{
    if s.len() > 0 {
        lemma_sum_bounds(s.drop_last());
        assert(s.len() * 0xFFFF == (s.len() - 1) * 0xFFFF + 0xFFFF) by (nonlinear_arith);
    }
}

/// The sum of deviations from `m` is the sum less `m` per sample.
pub proof fn lemma_lin_dev(s: Seq<u16>, m: int)
    ensures
        lin_dev_sum(s, m) == sum_seq(s) - s.len() * m,
    decreases s.len(),
{
    if s.len() > 0 {
        lemma_lin_dev(s.drop_last(), m);
        assert(s.len() * m == (s.len() - 1) * m + m) by (nonlinear_arith);
    }
}

/// Squared deviations are never negative.
pub proof fn lemma_dev_sq_nonneg(s: Seq<u16>, n: int, total: int)
    ensures
        dev_sq_total(s, n, total) >= 0,
    decreases s.len(),
{
    if s.len() > 0 {
        lemma_dev_sq_nonneg(s.drop_last(), n, total);
        let a = n * s.last() - total;
        assert(a * a >= 0) by (nonlinear_arith);
    }
}

/// Expands `(n·x - total)²` with `total == n·m + r` over a whole sequence:
/// the deviations from the exact mean in terms of those from the truncated
/// mean `m` and the division remainder `r`.
pub proof fn lemma_dev_decompose(s: Seq<u16>, n: int, total: int, m: int, r: int)
    requires
        total == n * m + r,
    ensures
        dev_sq_total(s, n, total) == n * n * sq_dev_sum(s, m) - 2 * n * r * lin_dev_sum(s, m)
            + s.len() * (r * r),
    decreases s.len(),
{
    if s.len() == 0 {
    } else {
        lemma_dev_decompose(s.drop_last(), n, total, m, r);
        let x = s.last() as int;
        assert((n * x - total) * (n * x - total) == n * n * ((x - m) * (x - m)) - 2 * n * r * (x
            - m) + r * r) by (nonlinear_arith)
            requires
                total == n * m + r,
        ;
        assert(n * n * sq_dev_sum(s, m) == n * n * sq_dev_sum(s.drop_last(), m) + n * n * ((x - m)
            * (x - m))) by (nonlinear_arith)
            requires
                sq_dev_sum(s, m) == sq_dev_sum(s.drop_last(), m) + (x - m) * (x - m),
        ;
        assert(2 * n * r * lin_dev_sum(s, m) == 2 * n * r * lin_dev_sum(s.drop_last(), m) + 2 * n
            * r * (x - m)) by (nonlinear_arith)
            requires
                lin_dev_sum(s, m) == lin_dev_sum(s.drop_last(), m) + (x - m),
        ;
        assert(s.len() * (r * r) == (s.len() - 1) * (r * r) + r * r) by (nonlinear_arith);
    }
}

/// Rounding a non-negative quotient up: `(x + n - 1) / n` multiplied back by
/// `n` lands in `[x, x + n - 1]`.
pub proof fn lemma_ceil_div(x: int, n: int)
    requires
        x >= 0,
        n >= 1,
    ensures
        x <= ((x + n - 1) / n) * n <= x + n - 1,
{
    lemma_fundamental_div_mod(x + n - 1, n);
    assert(((x + n - 1) / n) * n == n * ((x + n - 1) / n)) by (nonlinear_arith);
    assert(((x + n - 1) / n) * n == (x + n - 1) - (x + n - 1) % n);
}

/// The executable test `k²(n-1) + ceil(r²/n) <= S` decides the mathematical
/// squeeze test `k²·n²·(n-1) <= D` where `D == n²·S - n·r²`.
pub proof fn lemma_pred_iff(k: int, n: int, s_dev: int, r: int, ceil_r: int, d: int)
    requires
        n >= 2,
        0 <= r < n,
        s_dev >= 0,
        k >= 0,
        d == n * n * s_dev - n * (r * r),
        ceil_r == (r * r + n - 1) / n,
    ensures
        (k * k * (n - 1) + ceil_r <= s_dev) <==> (k * k * n * n * (n - 1) <= d),
{
    let t = k * k * (n - 1);
    lemma_ceil_div(r * r, n);
    assert(r * r >= 0) by (nonlinear_arith);
    // the squeeze test is `t·n + r² <= S·n`
    assert((k * k * n * n * (n - 1) <= d) <==> (t * n + r * r <= s_dev * n)) by (nonlinear_arith)
        requires
            d == n * n * s_dev - n * (r * r),
            t == k * k * (n - 1),
            n >= 2,
    ;
    if t * n + r * r <= s_dev * n {
        // t + ceil_r > s_dev would push t·n past S·n
        if t + ceil_r > s_dev {
            assert(t * n >= (s_dev + 1 - ceil_r) * n) by (nonlinear_arith)
                requires
                    t >= s_dev + 1 - ceil_r,
                    n >= 2,
            ;
            assert((s_dev + 1 - ceil_r) * n == s_dev * n + n - ceil_r * n) by (nonlinear_arith);
            assert(false);
        }
    }
    if t + ceil_r <= s_dev {
        assert(t * n <= (s_dev - ceil_r) * n) by (nonlinear_arith)
            requires
                t <= s_dev - ceil_r,
                n >= 2,
        ;
        assert((s_dev - ceil_r) * n == s_dev * n - ceil_r * n) by (nonlinear_arith);
    }
}

impl Avg {
    /// Statistics of a sample list. An empty list yields all zeroes; a
    /// single sample has its value as mean and no spread; otherwise the mean
    /// is the truncated arithmetic mean and the spread is the truncated
    /// Bessel-corrected sample standard deviation.
    pub fn new(data: Vec<u16>) -> (r: Self)
        ensures
            avg_matches(r, data@),
    {
        let ghost gs = data@;
        let n = data.len();
        if n == 0 {
            return Avg { mean: 0, sd: 0, pop: 0 };
        }
        let ghost gn = n as int;
        let nn = n as u128;

        // the sum of the samples
        let mut sum: u128 = 0;
        let mut i: usize = 0;
        while i < n
            invariant
                i <= n,
                n == gs.len(),
                gs == data@,
                sum == sum_seq(gs.take(i as int)),
                sum <= (i as int) * 0xFFFF,
            decreases n - i,
        {
            proof {
                assert(gs.take(i + 1).drop_last() =~= gs.take(i as int));
                assert((i + 1) * 0xFFFF == (i as int) * 0xFFFF + 0xFFFF) by (nonlinear_arith);
                assert((i as int) * 0xFFFF <= 0xFFFF_FFFF_FFFF_FFFFu128 * 0xFFFF)
                    by (nonlinear_arith)
                    requires
                        0 <= i <= 0xFFFF_FFFF_FFFF_FFFFu128,
                ;
            }
            sum = sum + data[i] as u128;
            i += 1;
        }
        proof {
            assert(gs.take(n as int) =~= gs);
        }
        let ghost gsum = sum_seq(gs);

        // the truncated mean
        proof {
            lemma_sum_bounds(gs);
            lemma_fundamental_div_mod(gsum, gn);
            lemma_mod_bound(gsum, gn);
            assert(gsum / gn <= 0xFFFF) by (nonlinear_arith)
                requires
                    gsum == gn * (gsum / gn) + gsum % gn,
                    0 <= gsum % gn,
                    gsum <= gn * 0xFFFF,
                    gn >= 1,
            ;
        }
        let mean = (sum / nn) as u16;
        if n == 1 {
            return Avg { mean, sd: 0, pop: n };
        }
        let rem = sum % nn;
        let ghost gm = mean as int;
        let ghost gr = rem as int;

        // the sum of squared deviations from the truncated mean
        let mut sdev: u128 = 0;
        let mut j: usize = 0;
        while j < n
            invariant
                j <= n,
                n == gs.len(),
                gs == data@,
                mean as int == gm,
                sdev == sq_dev_sum(gs.take(j as int), gm),
                sdev <= (j as int) * 0xFFFE_0001,
            decreases n - j,
        {
            let x = data[j];
            let diff: u16 = if x >= mean {
                x - mean
            } else {
                mean - x
            };
            let d128 = diff as u128;
            proof {
                assert(gs.take(j + 1).drop_last() =~= gs.take(j as int));
                assert((gs[j as int] - gm) * (gs[j as int] - gm) == d128 * d128)
                    by (nonlinear_arith)
                    requires
                        d128 == if gs[j as int] >= gm {
                            gs[j as int] - gm
                        } else {
                            gm - gs[j as int]
                        },
                ;
                assert(d128 * d128 <= 0xFFFE_0001) by (nonlinear_arith)
                    requires
                        0 <= d128 <= 0xFFFF,
                ;
                assert((j + 1) * 0xFFFE_0001 == (j as int) * 0xFFFE_0001 + 0xFFFE_0001)
                    by (nonlinear_arith);
                assert((j as int) * 0xFFFE_0001 <= 0xFFFF_FFFF_FFFF_FFFFu128 * 0xFFFE_0001)
                    by (nonlinear_arith)
                    requires
                        0 <= j <= 0xFFFF_FFFF_FFFF_FFFFu128,
                ;
            }
            sdev = sdev + d128 * d128;
            j += 1;
        }
        proof {
            assert(gs.take(n as int) =~= gs);
        }
        let ghost g_sdev = sq_dev_sum(gs, gm);

        // the exact variance numerator, in terms of the loop's quantities
        let ghost gd = dev_sq_total(gs, gn, gsum);
        proof {
            lemma_mod_bound(gsum, gn);
            lemma_fundamental_div_mod(gsum, gn);
            lemma_lin_dev(gs, gm);
            lemma_dev_decompose(gs, gn, gsum, gm, gr);
            assert(lin_dev_sum(gs, gm) == gr);
            assert(gd == gn * gn * g_sdev - gn * (gr * gr)) by (nonlinear_arith)
                requires
                    gd == gn * gn * g_sdev - 2 * gn * gr * gr + gn * (gr * gr),
            ;
            lemma_dev_sq_nonneg(gs, gn, gsum);
        }

        // ceil(rem² / n), bounded by n - 1
        proof {
            assert(gr * gr <= (gn - 1) * (gn - 1)) by (nonlinear_arith)
                requires
                    0 <= gr <= gn - 1,
            ;
            assert((gn - 1) * (gn - 1) + (gn - 1) <= 0xFFFF_FFFF_FFFF_FFFEu128
                * 0xFFFF_FFFF_FFFF_FFFEu128 + 0xFFFF_FFFF_FFFF_FFFEu128) by (nonlinear_arith)
                requires
                    0 <= gn - 1 <= 0xFFFF_FFFF_FFFF_FFFEu128,
            ;
        }
        let ceil_r = (rem * rem + (nn - 1)) / nn;
        let ghost gceil = ceil_r as int;
        proof {
            lemma_ceil_div(gr * gr, gn);
            assert(gr * gr + gn - 1 <= gn * (gn - 1)) by (nonlinear_arith)
                requires
                    0 <= gr <= gn - 1,
                    gn >= 2,
            ;
            assert(gceil <= gn - 1) by (nonlinear_arith)
                requires
                    gceil * gn <= gr * gr + gn - 1,
                    gr * gr + gn - 1 <= gn * (gn - 1),
                    gn >= 2,
            ;
        }

        // binary search for the truncated standard deviation
        let nm1 = nn - 1;
        proof {
            lemma_pred_iff(0, gn, g_sdev, gr, gceil, gd);
            assert(0 * 0 * gn * gn * (gn - 1) == 0) by (nonlinear_arith);
            assert(0 * 0 * (gn - 1) + gceil <= g_sdev);
        }
        let mut lo: u128 = 0;
        let mut hi: u128 = 65536;
        while hi - lo > 1
            invariant
                0 <= lo < hi <= 65536,
                2 <= gn <= 0xFFFF_FFFF_FFFF_FFFFu128,
                nn == gn,
                nm1 == gn - 1,
                sdev == g_sdev,
                ceil_r == gceil,
                0 <= gceil <= gn - 1,
                lo * lo * (gn - 1) + gceil <= g_sdev,
                hi == 65536 || !(hi * hi * (gn - 1) + gceil <= g_sdev),
            decreases hi - lo,
        {
            let mid = lo + (hi - lo) / 2;
            proof {
                assert(mid * mid <= 0xFFFE_0001) by (nonlinear_arith)
                    requires
                        0 <= mid <= 0xFFFF,
                ;
                assert(mid * mid * nm1 <= 0xFFFE_0001u128 * 0xFFFF_FFFF_FFFF_FFFFu128)
                    by (nonlinear_arith)
                    requires
                        0 <= mid * mid <= 0xFFFE_0001,
                        0 <= nm1 <= 0xFFFF_FFFF_FFFF_FFFFu128,
                ;
            }
            let t = mid * mid * nm1;
            if t + ceil_r <= sdev {
                lo = mid;
            } else {
                hi = mid;
            }
        }
        proof {
            lemma_pred_iff(lo as int, gn, g_sdev, gr, gceil, gd);
            lemma_pred_iff(lo as int + 1, gn, g_sdev, gr, gceil, gd);
            assert(lo <= 0xFFFF);
        }
        let sd = lo as u16;
        Avg { mean, sd, pop: n }
    }

    /// The derived typing-speed metric: `60000 / mean * 2 / 5`, each division
    /// truncating, evaluated left to right.
    pub fn wpm(&self) -> (r: u16)
        requires
            self.mean >= 2,
        ensures
            r == 60000int / (self.mean as int) * 2 / 5,
    {
        let q = 60000 / self.mean;
        proof {
            lemma_fundamental_div_mod(60000int, self.mean as int);
            lemma_mod_bound(60000int, self.mean as int);
            assert(q <= 30000) by (nonlinear_arith)
                requires
                    (self.mean as int) * q <= 60000,
                    self.mean >= 2,
                    q >= 0,
            ;
        }
        q * 2 / 5
    }
}

} // verus!

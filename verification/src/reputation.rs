//! The bounded reputation score of a source.
//!
//! The score is the clamped floor of
//! `verified/total * 50 + min(confidence_sum/attestations, 30)
//!  - refuted/total * 30 + min(total, 10)`,
//! with real-valued division inside and every division guarded against a
//! zero population. It is computed exactly, in integers, so that every
//! re-execution yields the same result.

use vstd::prelude::*;
use vstd::arithmetic::div_mod::lemma_fundamental_div_mod_converse;
use crate::types::SourceStats;
use crate::registry::{IntelRegistry, has_stats};

verus! {

/// The reputation score as a mathematical integer: the floor of the real
/// score, clamped to `0..=100`; `0` for a source with no proofs.
pub open spec fn spec_reputation(s: SourceStats) -> int {
    if s.total_proofs == 0 {
        0
    } else {
        let t = s.total_proofs as int;
        let den = if s.total_attestations == 0 {
            1int
        } else {
            s.total_attestations as int
        };
        let ccs = if s.total_attestations == 0 {
            0int
        } else if s.confidence_sum <= 30 * (s.total_attestations as int) {
            s.confidence_sum as int
        } else {
            30 * (s.total_attestations as int)
        };
        let act = if t <= 10 {
            t
        } else {
            10int
        };
        let num = (50 * (s.verified_count as int) - 30 * (s.refuted_count as int)) * den + ccs * t
            + act * t * den;
        let q = num / (t * den);
        if q < 0 {
            0
        } else if q > 100 {
            100
        } else {
            q
        }
    }
}

/// The reputation score is always in `0..=100`, whatever the counters
/// hold, and `0` exactly when the source has no proofs contributes
/// nothing else.
pub proof fn lemma_reputation_bounded(s: SourceStats)
    ensures
        0 <= spec_reputation(s) <= 100,
        s.total_proofs == 0 ==> spec_reputation(s) == 0,
{
}

/// Computes the reputation score of `stats` exactly.
pub fn reputation(stats: &SourceStats) -> (r: u8)
    ensures
        r as int == spec_reputation(*stats),
        r <= 100,
        stats.total_proofs == 0 ==> r == 0,
{
    if stats.total_proofs == 0 {
        return 0;
    }
    let t: u128 = stats.total_proofs as u128;
    let v: u128 = stats.verified_count as u128;
    let rf: u128 = stats.refuted_count as u128;
    let ta: u128 = stats.total_attestations as u128;
    let cs: u128 = stats.confidence_sum as u128;

    let act: u128 = if t <= 10 {
        t
    } else {
        10
    };
    let den: u128 = if ta == 0 {
        1
    } else {
        ta
    };
    let ccs: u128 = if ta == 0 {
        0
    } else if cs <= 30 * ta {
        cs
    } else {
        30 * ta
    };
    let c_q = ccs / den;
    let c_r = ccs % den;

    let ghost ti = t as int;
    let ghost di = den as int;
    let ghost cqi = c_q as int;
    let ghost cri = c_r as int;
    let ghost acti = act as int;
    let ghost num = (50 * (stats.verified_count as int) - 30 * (stats.refuted_count as int)) * di
        + (ccs as int) * ti + acti * ti * di;
    proof {
        lemma_fundamental_div_mod_converse_holds(ccs as int, di);
        assert(cqi <= 30) by (nonlinear_arith)
            requires
                di >= 1,
                ccs as int <= 30 * di,
                cqi == (ccs as int) / di,
        ;
    }

    if 50 * v >= 30 * rf {
        let p: u128 = 50 * v - 30 * rf;
        let q = p / t;
        let rho = p % t;
        proof {
            lemma_fundamental_div_mod_converse_holds(p as int, ti);
            lemma_u64_mul_fits(rho as int, di);
            lemma_u64_mul_fits(ti, di - cri);
        }
        let carry: u128 = if rho * den >= t * (den - c_r) {
            1
        } else {
            0
        };
        let s = q + c_q + act + carry;
        proof {
            assert(p as int == (q as int) * ti + (rho as int));
            assert(num == ((q as int) * ti + (rho as int)) * di + (cqi * di + cri) * ti + acti * (
            ti * di)) by (nonlinear_arith)
                requires
                    num == (50 * (stats.verified_count as int) - 30 * (stats.refuted_count as int))
                        * di + (ccs as int) * ti + acti * ti * di,
                    50 * (stats.verified_count as int) - 30 * (stats.refuted_count as int) == (
                    q as int) * ti + (rho as int),
                    ccs as int == cqi * di + cri,
            ;
            lemma_reputation_split(
                num,
                ti,
                di,
                q as int,
                rho as int,
                cqi,
                cri,
                acti,
                carry as int,
            );
            assert(num / (ti * di) == s as int);
            assert(spec_reputation(*stats) == if s as int > 100 {
                100int
            } else {
                s as int
            });
        }
        if s > 100 {
            100
        } else {
            s as u8
        }
    } else {
        let nneg: u128 = 30 * rf - 50 * v;
        let nq = nneg / t;
        let nr = nneg % t;
        proof {
            lemma_fundamental_div_mod_converse_holds(nneg as int, ti);
            lemma_u64_mul_fits(cri, ti);
            lemma_u64_mul_fits(nr as int, di);
        }
        let adj: u128 = if c_r * t >= nr * den {
            0
        } else {
            1
        };
        let pos = c_q + act;
        proof {
            assert(nneg as int == (nq as int) * ti + (nr as int));
            assert(num == (0 - ((nq as int) * ti + (nr as int))) * di + (cqi * di + cri) * ti + acti
                * (ti * di)) by (nonlinear_arith)
                requires
                    num == (50 * (stats.verified_count as int) - 30 * (stats.refuted_count as int))
                        * di + (ccs as int) * ti + acti * ti * di,
                    50 * (stats.verified_count as int) - 30 * (stats.refuted_count as int) == 0 - ((
                    nq as int) * ti + (nr as int)),
                    ccs as int == cqi * di + cri,
            ;
            lemma_reputation_split_neg(
                num,
                ti,
                di,
                nq as int,
                nr as int,
                cqi,
                cri,
                acti,
                adj as int,
            );
            assert(num / (ti * di) == cqi + acti - nq as int - adj as int);
        }
        if nq + adj > pos {
            proof {
                assert(spec_reputation(*stats) == 0);
            }
            0
        } else {
            let s = pos - nq - adj;
            proof {
                assert(spec_reputation(*stats) == if s as int > 100 {
                    100int
                } else {
                    s as int
                });
            }
            if s > 100 {
                100
            } else {
                s as u8
            }
        }
    }
}

/// The product of two values below 2^64 fits in a `u128`.
proof fn lemma_u64_mul_fits(a: int, b: int)
    requires
        0 <= a < 0x1_0000_0000_0000_0000,
        0 <= b < 0x1_0000_0000_0000_0000,
    ensures
        0 <= a * b <= 0xffff_ffff_ffff_ffff_ffff_ffff_ffff_ffff,
{
    assert(0 <= a * b < 0x1_0000_0000_0000_0000_0000_0000_0000_0000) by (nonlinear_arith)
        requires
            0 <= a < 0x1_0000_0000_0000_0000,
            0 <= b < 0x1_0000_0000_0000_0000,
    ;
}

/// `a == (a/d)*d + a%d` restated for nonnegative `a` and positive `d`.
proof fn lemma_fundamental_div_mod_converse_holds(a: int, d: int)
    requires
        a >= 0,
        d > 0,
    ensures
        a == d * (a / d) + a % d,
        a == (a / d) * d + a % d,
        0 <= a % d < d,
        a / d >= 0,
{
    assert(a == d * (a / d) + a % d && a == (a / d) * d + a % d) by (nonlinear_arith)
        requires
            d != 0,
    ;
    assert(0 <= a % d < d) by (nonlinear_arith)
        requires
            d > 0,
    ;
    assert(a / d >= 0) by (nonlinear_arith)
        requires
            a >= 0,
            d > 0,
    ;
}

/// Splitting the score numerator by the positive signed part:
/// `num == (q + c_q + act + carry) * (t*den) + r'` with `0 <= r' < t*den`.
proof fn lemma_reputation_split(
    num: int,
    t: int,
    den: int,
    q: int,
    rho: int,
    c_q: int,
    c_r: int,
    act: int,
    carry: int,
)
    requires
        t >= 1,
        den >= 1,
        q >= 0,
        0 <= rho < t,
        0 <= c_r < den,
        c_q >= 0,
        act >= 0,
        num == (q * t + rho) * den + (c_q * den + c_r) * t + act * (t * den),
        carry == if rho * den >= t * (den - c_r) {
            1int
        } else {
            0int
        },
    ensures
        num / (t * den) == q + c_q + act + carry,
{
    let d = t * den;
    let s = q + c_q + act + carry;
    let rem = rho * den + c_r * t - carry * d;
    assert(num == s * d + rem && 0 <= rem < d) by (nonlinear_arith)
        requires
            t >= 1,
            den >= 1,
            0 <= rho < t,
            0 <= c_r < den,
            num == (q * t + rho) * den + (c_q * den + c_r) * t + act * (t * den),
            carry == if rho * den >= t * (den - c_r) {
                1int
            } else {
                0int
            },
            d == t * den,
            s == q + c_q + act + carry,
            rem == rho * den + c_r * t - carry * d,
    ;
    lemma_fundamental_div_mod_converse(num, d, s, rem);
}

/// Splitting the score numerator by the negative signed part:
/// `num == (c_q + act - nq - adj) * (t*den) + r'` with `0 <= r' < t*den`.
proof fn lemma_reputation_split_neg(
    num: int,
    t: int,
    den: int,
    nq: int,
    nr: int,
    c_q: int,
    c_r: int,
    act: int,
    adj: int,
)
    requires
        t >= 1,
        den >= 1,
        nq >= 0,
        0 <= nr < t,
        0 <= c_r < den,
        c_q >= 0,
        act >= 0,
        num == (0 - (nq * t + nr)) * den + (c_q * den + c_r) * t + act * (t * den),
        adj == if c_r * t >= nr * den {
            0int
        } else {
            1int
        },
    ensures
        num / (t * den) == c_q + act - nq - adj,
{
    let d = t * den;
    let s = c_q + act - nq - adj;
    let rem = c_r * t - nr * den + adj * d;
    assert(num == s * d + rem && 0 <= rem < d) by (nonlinear_arith)
        requires
            t >= 1,
            den >= 1,
            0 <= nr < t,
            0 <= c_r < den,
            num == (0 - (nq * t + nr)) * den + (c_q * den + c_r) * t + act * (t * den),
            adj == if c_r * t >= nr * den {
                0int
            } else {
                1int
            },
            d == t * den,
            s == c_q + act - nq - adj,
            rem == c_r * t - nr * den + adj * d,
    ;
    lemma_fundamental_div_mod_converse(num, d, s, rem);
}

impl IntelRegistry {
    /// The reputation score of `source_hash`: `0` for a source never
    /// referenced, otherwise the bounded score of its rolling counters.
    pub fn get_source_reputation(&self, source_hash: String) -> (r: u8)
        requires
            self.wf(),
        ensures
            r <= 100,
            has_stats(self.source_stats@, source_hash@) ==> r as int == spec_reputation(
                self.spec_stats_of(source_hash@),
            ),
            !has_stats(self.source_stats@, source_hash@) ==> r == 0,
    {
        match self.get_source_stats(source_hash) {
            Some(stats) => reputation(&stats),
            None => 0,
        }
    }
}

} // verus!

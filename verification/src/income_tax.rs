//! Progressive income-tax computation with intra-range marginal-rate
//! interpolation, plus the solidarity surtax.
//!
//! The tax of a taxable income `y` is the sum, over all tax ranges, of the
//! taxed portion of `y` inside the range times the average of the marginal
//! rate at the start of the range and the marginal rate reached at the end of
//! the taxed portion; the exact rational sum is truncated to whole euros once
//! at the end. With rates in ten-thousandths, the contribution of one range
//! of width `w` and taxed portion `t` is the fraction
//! `(2*t*rate_min*w + t*t*(rate_max - rate_min)) / (20000*w)`, and the model
//! below states the sum of those fractions over the common denominator
//! `20000 * (product of all widths)`.

use vstd::arithmetic::div_mod::{
    lemma_div_is_ordered, lemma_fundamental_div_mod, lemma_fundamental_div_mod_converse,
    lemma_hoist_over_denominator,
};
use vstd::arithmetic::mul::{lemma_mul_inequality, lemma_mul_nonnegative};
use vstd::prelude::*;

use crate::config::{wf_ranges, wf_solidary, IncomeTaxConfig, SolidaryAdditionConfig, TaxRange};

verus! {

/// The width of one tax range in euros.
pub open spec fn width(b: TaxRange) -> int {
    b.upper_limit - b.lower_limit
}

/// The portion of the taxable income `y` that falls inside the range `b`.
pub open spec fn taxed_part(b: TaxRange, y: int) -> int {
    if y <= b.lower_limit {
        0
    } else if y - b.lower_limit <= width(b) {
        y - b.lower_limit
    } else {
        width(b)
    }
}

/// The numerator of the tax contributed by range `b` at income `y`, over the
/// denominator `20000 * width(b)`: the taxed portion times the average of the
/// marginal rate at `lower_limit` and the interpolated marginal rate reached
/// at the end of the portion.
pub open spec fn contrib_num(b: TaxRange, y: int) -> int {
    2 * taxed_part(b, y) * b.rate_min * width(b)
        + taxed_part(b, y) * taxed_part(b, y) * (b.rate_max - b.rate_min)
}

/// The product of all range widths, the shared denominator scale.
pub open spec fn widths_prod(rs: Seq<TaxRange>) -> int
    decreases rs.len(),
{
    if rs.len() == 0 {
        1
    } else {
        widths_prod(rs.drop_last()) * width(rs.last())
    }
}

/// The numerator of the total exact tax at income `y`, over the denominator
/// `20000 * widths_prod(rs)`: the common-denominator sum of the per-range
/// fractions `contrib_num / (20000 * width)`.
pub open spec fn tax_num(rs: Seq<TaxRange>, y: int) -> int
    decreases rs.len(),
{
    if rs.len() == 0 {
        0
    } else {
        tax_num(rs.drop_last(), y) * width(rs.last()) + contrib_num(rs.last(), y) * widths_prod(
            rs.drop_last(),
        )
    }
}

/// The base income tax of a single filer: the exact rational tax sum,
/// truncated to whole euros.
pub open spec fn base_tax(rs: Seq<TaxRange>, y: int) -> int {
    tax_num(rs, y) / (20000 * widths_prod(rs))
}

/// The base income tax with optional income splitting: married couples are
/// taxed on half the income and the truncated result is doubled.
pub open spec fn split_base_tax(rs: Seq<TaxRange>, y: int, together: bool) -> int {
    if together {
        2 * base_tax(rs, y / 2)
    } else {
        base_tax(rs, y)
    }
}

/// The solidarity surtax on the income-tax amount `tax`: zero below the
/// exemption level (doubled for married couples), otherwise the smaller of
/// `tax * rate` and the phase-in cap `(tax - exemption) * max_percentage`,
/// truncated to whole euros.
pub open spec fn surtax(c: SolidaryAdditionConfig, tax: int, together: bool) -> int {
    let exemption: int = if together {
        2 * c.exemption_level
    } else {
        c.exemption_level as int
    };
    if tax < exemption {
        0
    } else {
        let by_rate = tax * c.rate;
        let capped = (tax - exemption) * c.max_percentage;
        (if by_rate <= capped {
            by_rate
        } else {
            capped
        }) / 10000
    }
}

/// The total income tax: the base tax (with splitting) plus the solidarity
/// surtax computed on it.
pub open spec fn total_tax(c: IncomeTaxConfig, y: int, together: bool) -> int {
    split_base_tax(c.tax_ranges@, y, together) + surtax(
        c.solidary_addition_config,
        split_base_tax(c.tax_ranges@, y, together),
        together,
    )
}

/// Equal fractions have equal truncations: if `n1/d1` and `n2/d2` are the
/// same rational number, their integer quotients agree.
proof fn lemma_frac_eq(n1: int, d1: int, n2: int, d2: int)
    requires
        0 <= n1,
        1 <= d1,
        1 <= d2,
        n1 * d2 == n2 * d1,
    ensures
        n1 / d1 == n2 / d2,
{
    let q = n1 / d1;
    let r = n1 % d1;
    lemma_fundamental_div_mod(n1, d1);
    assert(0 <= r < d1);
    let m = n2 - q * d2;
    assert(r * d2 == d1 * m) by (nonlinear_arith)
        requires
            n1 == d1 * q + r,
            n1 * d2 == n2 * d1,
            m == n2 - q * d2,
    ;
    assert(0 <= m < d2) by (nonlinear_arith)
        requires
            r * d2 == d1 * m,
            0 <= r < d1,
            1 <= d1,
            1 <= d2,
    ;
    lemma_fundamental_div_mod_converse(n2, d2, q, m);
}

/// Scaling numerator and denominator by the same positive factor keeps the
/// truncated quotient.
proof fn lemma_div_scale(a: int, d: int, k: int)
    requires
        0 <= a,
        1 <= d,
        1 <= k,
    ensures
        (a * k) / (d * k) == a / d,
{
    lemma_mul_nonnegative(a, k);
    assert(1 <= d * k) by (nonlinear_arith)
        requires
            1 <= d,
            1 <= k,
    ;
    assert((a * k) * d == a * (d * k)) by (nonlinear_arith);
    lemma_frac_eq(a * k, d * k, a, d);
}

/// A product of widths that are all at least one is at least one.
proof fn lemma_widths_prod_pos(s: Seq<TaxRange>)
    requires
        forall|i: int| 0 <= i < s.len() ==> width(#[trigger] s[i]) >= 1,
    ensures
        widths_prod(s) >= 1,
    decreases s.len(),
{
    if s.len() > 0 {
        let front = s.drop_last();
        assert forall|i: int| 0 <= i < front.len() implies width(#[trigger] front[i]) >= 1 by {
            assert(front[i] == s[i]);
        }
        lemma_widths_prod_pos(front);
        assert(width(s.last()) >= 1);
        assert(widths_prod(front) * width(s.last()) >= 1) by (nonlinear_arith)
            requires
                widths_prod(front) >= 1,
                width(s.last()) >= 1,
        ;
    }
}

/// The tax numerator is never negative.
proof fn lemma_tax_num_nonneg(s: Seq<TaxRange>, y: int)
    requires
        forall|i: int| 0 <= i < s.len() ==> width(#[trigger] s[i]) >= 1,
        forall|i: int| 0 <= i < s.len() ==> (#[trigger] s[i]).rate_min <= s[i].rate_max,
    ensures
        tax_num(s, y) >= 0,
    decreases s.len(),
{
    if s.len() > 0 {
        let front = s.drop_last();
        let b = s.last();
        assert forall|i: int| 0 <= i < front.len() implies width(#[trigger] front[i]) >= 1
            && (front[i]).rate_min <= front[i].rate_max by {
            assert(front[i] == s[i]);
        }
        lemma_tax_num_nonneg(front, y);
        lemma_widths_prod_pos(front);
        let t = taxed_part(b, y);
        assert(contrib_num(b, y) >= 0) by (nonlinear_arith)
            requires
                t == taxed_part(b, y),
                0 <= t,
                0 <= b.rate_min,
                b.rate_min <= b.rate_max,
                width(b) >= 1,
                contrib_num(b, y) == 2 * t * b.rate_min * width(b) + t * t * (b.rate_max
                    - b.rate_min),
        ;
        assert(tax_num(front, y) * width(b) >= 0 && contrib_num(b, y) * widths_prod(front)
            >= 0) by (nonlinear_arith)
            requires
                tax_num(front, y) >= 0,
                width(b) >= 1,
                contrib_num(b, y) >= 0,
                widths_prod(front) >= 1,
        ;
    }
}

/// Computes the base income tax of a single filer over the given tax ranges:
/// the truncation of the exact rational tax sum that `base_tax` states.
///
/// The running state holds the integral contributions in `acc` (in units of
/// 1/20000 euro); the single range that the income falls strictly inside, if
/// any, additionally contributes the quadratic interpolation term
/// `part_quad / (20000 * part_width)`.
pub fn base_tax_ranges(rs: &Vec<TaxRange>, y: u32) -> (r: u64)
    requires
        wf_ranges(rs@),
    ensures
        r as int == base_tax(rs@, y as int),
        r <= y,
{
    let ghost s = rs@;
    let ghost yi = y as int;
    let n = rs.len();
    let mut acc: u64 = 0;
    let mut have_part: bool = false;
    let mut part_quad: u128 = 0;
    let mut part_width: u64 = 1;
    let mut k: usize = 0;
    while k < n
        invariant
            wf_ranges(s),
            s == rs@,
            yi == y as int,
            n == s.len(),
            0 <= k <= n,
            acc as int <= 20000 * yi,
            !have_part ==> tax_num(s.subrange(0, k as int), yi) == acc as int * widths_prod(
                s.subrange(0, k as int),
            ),
            !have_part ==> acc as int <= 20000 * barrier(s, yi, k as int),
            have_part ==> 1 <= part_width <= 0xffff_ffff,
            have_part ==> tax_num(s.subrange(0, k as int), yi) * part_width as int == (
            acc as int * part_width as int + part_quad as int) * widths_prod(
                s.subrange(0, k as int),
            ),
            have_part ==> acc as int * part_width as int + part_quad as int <= 20000
                * part_width as int * yi,
            have_part && k < n ==> yi <= s[k as int].lower_limit,
        decreases n - k,
    {
        let b = rs[k];
        let ghost pre = s.subrange(0, k as int);
        let ghost pre2 = s.subrange(0, k as int + 1);
        proof {
            assert(pre2.drop_last() =~= pre);
            assert(pre2.last() == s[k as int]);
            assert(width(s[k as int]) >= 1);
            assert(s[k as int].rate_min <= s[k as int].rate_max);
            assert(s[k as int].rate_max <= 10000);
            assert forall|i: int| 0 <= i < pre.len() implies width(#[trigger] pre[i]) >= 1 by {
                assert(pre[i] == s[i]);
            }
            lemma_widths_prod_pos(pre);
        }
        let ghost pp = widths_prod(pre);
        let ghost tn = tax_num(pre, yi);
        proof {
            assert(widths_prod(pre2) == pp * width(s[k as int]));
            assert(tax_num(pre2, yi) == tn * width(s[k as int]) + contrib_num(s[k as int], yi)
                * pp);
        }
        if y > b.lower_limit {
            let w: u64 = (b.upper_limit - b.lower_limit) as u64;
            let rest: u64 = (y - b.lower_limit) as u64;
            proof {
                if have_part {
                    assert(yi <= s[k as int].lower_limit);
                    assert(false);
                }
            }
            if rest >= w {
                // the range is fully below the income: it contributes
                // width * (rate_min + rate_max) / 20000, the width times the
                // average of its two boundary rates
                let rate_sum: u64 = (b.rate_min + b.rate_max) as u64;
                proof {
                    assert(taxed_part(s[k as int], yi) == width(s[k as int]));
                    assert(w as int * rate_sum as int <= 0xffff_ffff * 20000) by (nonlinear_arith)
                        requires
                            w <= 0xffff_ffff,
                            rate_sum <= 20000,
                    ;
                }
                let add: u64 = w * rate_sum;
                proof {
                    let wk = width(s[k as int]);
                    let rmin = s[k as int].rate_min as int;
                    let rmax = s[k as int].rate_max as int;
                    assert(contrib_num(s[k as int], yi) == add as int * wk) by (nonlinear_arith)
                        requires
                            contrib_num(s[k as int], yi) == 2 * wk * rmin * wk + wk * wk * (rmax
                                - rmin),
                            add as int == wk * (rmin + rmax),
                    ;
                    // the new accumulator keeps the numerator relation
                    assert(tax_num(pre2, yi) == (acc as int + add as int) * widths_prod(pre2))
                        by (nonlinear_arith)
                        requires
                            tax_num(pre2, yi) == tn * wk + (add as int * wk) * pp,
                            tn == acc as int * pp,
                            widths_prod(pre2) == pp * wk,
                    ;
                    // and stays below 20000 times the covered income
                    let lo = s[k as int].lower_limit as int;
                    let up = s[k as int].upper_limit as int;
                    assert(barrier(s, yi, k as int) == lo);
                    assert(add as int <= 20000 * wk) by (nonlinear_arith)
                        requires
                            add as int == wk * (rmin + rmax),
                            rmin + rmax <= 20000,
                            wk >= 1,
                    ;
                    assert(acc as int + add as int <= 20000 * (lo + wk));
                    assert(lo + wk == up);
                    assert(barrier(s, yi, k as int + 1) == up);
                    assert(up <= yi);
                }
                acc = acc + add;
            } else {
                // the income ends strictly inside this range: it contributes
                // rest * rate_min / 10000 plus the quadratic interpolation
                // term rest^2 * (rate_max - rate_min) / (20000 * w)
                let t: u64 = rest;
                let rate_diff: u64 = (b.rate_max - b.rate_min) as u64;
                proof {
                    assert(taxed_part(s[k as int], yi) == t as int);
                    assert(2 * t as int * (s[k as int].rate_min as int) <= 2 * 0xffff_ffff
                        * 10000) by (nonlinear_arith)
                        requires
                            t <= 0xffff_ffff,
                            s[k as int].rate_min <= 10000,
                    ;
                }
                let add: u64 = 2 * t * (b.rate_min as u64);
                proof {
                    assert((t as int) * (t as int) <= 0xffff_ffff * 0xffff_ffff)
                        by (nonlinear_arith)
                        requires
                            t <= 0xffff_ffff,
                    ;
                    assert((t as int) * (t as int) * (rate_diff as int) <= 0xffff_ffff
                        * 0xffff_ffff * 10000) by (nonlinear_arith)
                        requires
                            t <= 0xffff_ffff,
                            rate_diff <= 10000,
                    ;
                }
                let q: u128 = (t as u128) * (t as u128) * (rate_diff as u128);
                proof {
                    let wk = width(s[k as int]);
                    let rmin = s[k as int].rate_min as int;
                    let rmax = s[k as int].rate_max as int;
                    let lo = s[k as int].lower_limit as int;
                    assert(contrib_num(s[k as int], yi) == add as int * wk + q as int)
                        by (nonlinear_arith)
                        requires
                            contrib_num(s[k as int], yi) == 2 * (t as int) * rmin * wk + t as int
                                * t as int * (rmax - rmin),
                            add as int == 2 * (t as int) * rmin,
                            q as int == t as int * t as int * (rmax - rmin),
                    ;
                    assert(tax_num(pre2, yi) * wk == ((acc as int + add as int) * wk + q as int)
                        * widths_prod(pre2)) by (nonlinear_arith)
                        requires
                            tax_num(pre2, yi) == tn * wk + (add as int * wk + q as int) * pp,
                            tn == acc as int * pp,
                            widths_prod(pre2) == pp * wk,
                    ;
                    assert(barrier(s, yi, k as int) == lo);
                    assert((acc as int + add as int) * wk + q as int <= 20000 * wk * yi)
                        by (nonlinear_arith)
                        requires
                            acc as int <= 20000 * lo,
                            add as int == 2 * (t as int) * rmin,
                            q as int == t as int * t as int * (rmax - rmin),
                            rmin <= rmax,
                            rmax <= 10000,
                            0 < (t as int),
                            (t as int) < wk,
                            yi == lo + (t as int),
                            0 <= lo,
                    ;
                    assert((acc as int + add as int) <= 20000 * yi) by (nonlinear_arith)
                        requires
                            (acc as int + add as int) * wk + q as int <= 20000 * wk * yi,
                            q as int >= 0,
                            wk >= 1,
                            acc as int + add as int >= 0,
                    ;
                    if k as int + 1 < s.len() {
                        assert(s[k as int].upper_limit == s[k as int + 1].lower_limit);
                    }
                }
                acc = acc + add;
                part_quad = q;
                part_width = w;
                have_part = true;
            }
        } else {
            // the income does not reach this range: it contributes nothing
            proof {
                let wk = width(s[k as int]);
                assert(taxed_part(s[k as int], yi) == 0);
                assert(contrib_num(s[k as int], yi) == 0) by (nonlinear_arith)
                    requires
                        contrib_num(s[k as int], yi) == 2 * 0 * (s[k as int].rate_min as int) * wk
                            + 0 * 0 * (s[k as int].rate_max - s[k as int].rate_min),
                ;
                if !have_part {
                    assert(tax_num(pre2, yi) == acc as int * widths_prod(pre2))
                        by (nonlinear_arith)
                        requires
                            tax_num(pre2, yi) == tn * wk + 0 * pp,
                            tn == acc as int * pp,
                            widths_prod(pre2) == pp * wk,
                    ;
                    assert(barrier(s, yi, k as int) == yi);
                    assert(barrier(s, yi, k as int + 1) == yi) by {
                        if k as int + 1 < s.len() {
                            assert(s[k as int].upper_limit == s[k as int + 1].lower_limit);
                        }
                    }
                } else {
                    assert(tax_num(pre2, yi) * part_width as int == (acc as int
                        * part_width as int + part_quad as int) * widths_prod(pre2))
                        by (nonlinear_arith)
                        requires
                            tax_num(pre2, yi) == tn * wk + 0 * pp,
                            tn * part_width as int == (acc as int * part_width as int
                                + part_quad as int) * pp,
                            widths_prod(pre2) == pp * wk,
                    ;
                    if k as int + 1 < s.len() {
                        assert(s[k as int].upper_limit == s[k as int + 1].lower_limit);
                    }
                }
            }
        }
        k = k + 1;
    }
    proof {
        assert(s.subrange(0, n as int) =~= s);
        assert forall|i: int| 0 <= i < s.len() implies width(#[trigger] s[i]) >= 1 by {}
        lemma_widths_prod_pos(s);
    }
    if have_part {
        proof {
            assert(acc as int * (part_width as int) <= 20000 * 0xffff_ffff * 0xffff_ffff)
                by (nonlinear_arith)
                requires
                    acc as int <= 20000 * 0xffff_ffff,
                    part_width <= 0xffff_ffff,
            ;
            assert(part_quad as int <= 20000 * (part_width as int) * yi) by (nonlinear_arith)
                requires
                    acc as int * (part_width as int) + part_quad as int <= 20000
                        * (part_width as int) * yi,
                    acc as int >= 0,
                    part_width >= 1,
            ;
            assert(20000 * (part_width as int) * yi <= 20000 * 0xffff_ffff * 0xffff_ffff)
                by (nonlinear_arith)
                requires
                    part_width <= 0xffff_ffff,
                    yi <= 0xffff_ffff,
                    0 <= yi,
            ;
        }
        let num: u128 = (acc as u128) * (part_width as u128) + part_quad;
        let den: u128 = 20000u128 * (part_width as u128);
        proof {
            let pw = part_width as int;
            let pp = widths_prod(s);
            let tn = tax_num(s, yi);
            assert(num as int == acc as int * pw + part_quad as int) by (nonlinear_arith)
                requires
                    num as int == acc as int * pw + part_quad as int,
            ;
            assert(num as int * (20000 * pp) == tn * (20000 * pw)) by (nonlinear_arith)
                requires
                    tn * pw == num as int * pp,
            ;
            assert(1 <= 20000 * pw && 1 <= 20000 * pp) by (nonlinear_arith)
                requires
                    pw >= 1,
                    pp >= 1,
            ;
            lemma_frac_eq(num as int, 20000 * pw, tn, 20000 * pp);
            assert(num as int <= (20000 * pw) * yi) by (nonlinear_arith)
                requires
                    num as int <= 20000 * pw * yi,
            ;
            lemma_div_is_ordered(num as int, (20000 * pw) * yi, 20000 * pw);
            assert(((20000 * pw) * yi) / (20000 * pw) == yi) by (nonlinear_arith)
                requires
                    1 <= 20000 * pw,
            ;
            assert(num as int / (20000 * pw) <= yi);
            assert(den as int == 20000 * pw);
        }
        (num / den) as u64
    } else {
        proof {
            let pp = widths_prod(s);
            lemma_div_scale(acc as int, 20000, pp);
            assert((acc as int * pp) / (20000 * pp) == acc as int / 20000);
            assert(barrier(s, yi, n as int) <= yi);
            lemma_div_is_ordered(acc as int, 20000 * yi, 20000);
            assert((20000 * yi) / 20000 == yi) by (nonlinear_arith);
        }
        acc / 20000
    }
}

/// The barrier below which the first `k` ranges cover the income completely:
/// the income itself, capped at the point where the ranges from `k` onward
/// begin.
pub open spec fn barrier(s: Seq<TaxRange>, y: int, k: int) -> int {
    let edge: int = if k < s.len() {
        s[k].lower_limit as int
    } else {
        s[s.len() - 1].upper_limit as int
    };
    if y <= edge {
        y
    } else {
        edge
    }
}

impl TaxRange {
    /// The width of the range, from its lower to its upper limit.
    pub fn range(&self) -> (r: u32)
        requires
            self.lower_limit <= self.upper_limit,
        ensures
            r as int == width(*self),
    {
        self.upper_limit - self.lower_limit
    }
}

/// Computes the solidarity surtax on the income-tax amount `tax`.
fn solidarity_addition(tax: u64, together: bool, c: &SolidaryAdditionConfig) -> (r: u64)
    requires
        wf_solidary(*c),
        tax <= 0xffff_ffff,
    ensures
        r as int == surtax(*c, tax as int, together),
        r <= tax,
{
    let exemption: u64 = if together {
        2 * (c.exemption_level as u64)
    } else {
        c.exemption_level as u64
    };
    if tax < exemption {
        0
    } else {
        proof {
            assert(tax as int * (c.rate as int) <= 0xffff_ffff * 10000) by (nonlinear_arith)
                requires
                    tax <= 0xffff_ffff,
                    c.rate <= 10000,
            ;
            assert((tax as int - exemption as int) * (c.max_percentage as int) <= 0xffff_ffff
                * 10000) by (nonlinear_arith)
                requires
                    tax <= 0xffff_ffff,
                    exemption as int <= tax as int,
                    c.max_percentage <= 10000,
            ;
        }
        let by_rate: u64 = tax * (c.rate as u64);
        let capped: u64 = (tax - exemption) * (c.max_percentage as u64);
        let smaller: u64 = if by_rate <= capped {
            by_rate
        } else {
            capped
        };
        proof {
            assert(smaller as int <= 10000 * (tax as int)) by (nonlinear_arith)
                requires
                    smaller as int <= tax as int * (c.rate as int),
                    c.rate <= 10000,
                    0 <= tax as int,
            ;
            lemma_div_is_ordered(smaller as int, 10000 * (tax as int), 10000);
            assert((10000 * (tax as int)) / 10000 == tax as int) by (nonlinear_arith);
        }
        smaller / 10000
    }
}

/// Computes the total income tax on the given taxable income: the base tax
/// from the progressive ranges (with income splitting for married couples)
/// plus the solidarity surtax on that amount.
///
/// The result never exceeds twice the taxable income.
pub fn calculate(config: &IncomeTaxConfig, taxable_income: u32, together: bool) -> (r: u64)
    requires
        crate::config::wf_income_tax(*config),
    ensures
        r as int == total_tax(*config, taxable_income as int, together),
        r as int <= 2 * taxable_income,
{
    let base: u64 = if together {
        // married couples are taxed on half the income; the truncated result
        // is doubled again
        let half_tax = base_tax_ranges(&config.tax_ranges, taxable_income / 2);
        2 * half_tax
    } else {
        base_tax_ranges(&config.tax_ranges, taxable_income)
    };
    let addition = solidarity_addition(base, together, &config.solidary_addition_config);
    base + addition
}

/// The solidarity surtax is never negative, is zero whenever the tax amount
/// lies below the exemption level (doubled for married couples), and never
/// exceeds the capped share of the tax above the exemption level.
pub proof fn lemma_surtax_bounds(c: SolidaryAdditionConfig, tax: int, together: bool)
    requires
        wf_solidary(c),
        0 <= tax,
    ensures
        ({
            let exemption: int = if together {
                2 * c.exemption_level
            } else {
                c.exemption_level as int
            };
            &&& 0 <= surtax(c, tax, together)
            &&& tax < exemption ==> surtax(c, tax, together) == 0
            &&& exemption <= tax ==> surtax(c, tax, together) <= ((tax - exemption)
                * c.max_percentage) / 10000
        }),
{
    let exemption: int = if together {
        2 * c.exemption_level
    } else {
        c.exemption_level as int
    };
    if exemption <= tax {
        let by_rate = tax * c.rate;
        let capped = (tax - exemption) * c.max_percentage;
        lemma_mul_nonnegative(tax, c.rate as int);
        lemma_mul_nonnegative(tax - exemption, c.max_percentage as int);
        let smaller: int = if by_rate <= capped {
            by_rate
        } else {
            capped
        };
        lemma_div_is_ordered(smaller, capped, 10000);
        lemma_div_is_ordered(0, smaller, 10000);
    }
}

/// A sequence whose contributions all vanish has a vanishing tax numerator.
proof fn lemma_tax_num_zero(s: Seq<TaxRange>, y: int)
    requires
        forall|i: int| 0 <= i < s.len() ==> contrib_num(#[trigger] s[i], y) == 0,
    ensures
        tax_num(s, y) == 0,
    decreases s.len(),
{
    if s.len() > 0 {
        let front = s.drop_last();
        assert forall|i: int| 0 <= i < front.len() implies contrib_num(#[trigger] front[i], y)
            == 0 by {
            assert(front[i] == s[i]);
        }
        lemma_tax_num_zero(front, y);
        assert(s.last() == s[s.len() - 1]);
        assert(tax_num(s, y) == 0 * width(s.last()) + 0 * widths_prod(front)) by (nonlinear_arith)
            requires
                tax_num(s, y) == tax_num(front, y) * width(s.last()) + contrib_num(s.last(), y)
                    * widths_prod(front),
                tax_num(front, y) == 0,
                contrib_num(s.last(), y) == 0,
        ;
    }
}

/// In a well-formed sequence every later range begins at or above the upper
/// limit of the first range.
proof fn lemma_lower_at_least_first_upper(s: Seq<TaxRange>, i: int)
    requires
        wf_ranges(s),
        1 <= i < s.len(),
    ensures
        s[0].upper_limit <= s[i].lower_limit,
    decreases i,
{
    if i > 1 {
        lemma_lower_at_least_first_upper(s, i - 1);
        assert(s[i - 1].upper_limit == s[i].lower_limit);
        assert(s[i - 1].lower_limit < s[i - 1].upper_limit);
    }
}

/// Incomes below the upper limit of the first tax range owe no income tax at
/// all when that range carries a zero rate, with or without income
/// splitting, and no surtax either.
pub proof fn lemma_tax_zero_below_first_range(c: IncomeTaxConfig, y: int, together: bool)
    requires
        crate::config::wf_income_tax(c),
        c.tax_ranges@[0].rate_min == 0,
        c.tax_ranges@[0].rate_max == 0,
        0 <= y < c.tax_ranges@[0].upper_limit,
    ensures
        total_tax(c, y, together) == 0,
{
    let s = c.tax_ranges@;
    let half: int = y / 2;
    lemma_div_is_ordered(0, y, 2);
    lemma_div_is_ordered(y, y, 2);
    assert(y / 2 <= y) by (nonlinear_arith)
        requires
            0 <= y,
            half == y / 2,
    ;
    let z: int = if together {
        half
    } else {
        y
    };
    assert(0 <= z < s[0].upper_limit);
    assert forall|i: int| 0 <= i < s.len() implies contrib_num(#[trigger] s[i], z) == 0 by {
        if i == 0 {
            let t = taxed_part(s[0], z);
            assert(contrib_num(s[0], z) == 2 * t * 0 * width(s[0]) + t * t * 0)
                by (nonlinear_arith)
                requires
                    contrib_num(s[0], z) == 2 * t * (s[0].rate_min as int) * width(s[0]) + t * t
                        * (s[0].rate_max - s[0].rate_min),
                    s[0].rate_min == 0,
                    s[0].rate_max == 0,
            ;
            assert(2 * t * 0 * width(s[0]) == 0) by (nonlinear_arith);
            assert(t * t * 0 == 0) by (nonlinear_arith);
            assert(contrib_num(s[i], z) == 0);
        } else {
            lemma_lower_at_least_first_upper(s, i);
            assert(z <= s[i].lower_limit);
            assert(taxed_part(s[i], z) == 0);
            let wk = width(s[i]);
            assert(contrib_num(s[i], z) == 2 * 0 * (s[i].rate_min as int) * wk + 0 * 0 * (
            s[i].rate_max - s[i].rate_min)) ;
            assert(2 * 0 * (s[i].rate_min as int) * wk == 0) by (nonlinear_arith);
            assert(0 * 0 * (s[i].rate_max - s[i].rate_min) == 0) by (nonlinear_arith);
            assert(contrib_num(s[i], z) == 0);
        }
    }
    lemma_tax_num_zero(s, z);
    assert forall|i: int| 0 <= i < s.len() implies width(#[trigger] s[i]) >= 1 by {}
    lemma_widths_prod_pos(s);
    assert(base_tax(s, z) == 0) by {
        assert(0int / (20000 * widths_prod(s)) == 0) by (nonlinear_arith)
            requires
                widths_prod(s) >= 1,
        ;
    }
    assert(split_base_tax(s, y, together) == 0);
    lemma_surtax_bounds(c.solidary_addition_config, 0, together);
    let cc = c.solidary_addition_config;
    let exemption: int = if together {
        2 * cc.exemption_level
    } else {
        cc.exemption_level as int
    };
    if exemption <= 0 {
        assert(surtax(cc, 0, together) <= ((0 - exemption) * cc.max_percentage) / 10000);
        assert(exemption == 0);
        assert(0 * cc.max_percentage == 0) by (nonlinear_arith);
        assert(0int / 10000 == 0);
        assert(surtax(cc, 0, together) == 0);
    }
}

/// Doubling the numerator of a truncated division by ten thousand doubles
/// the quotient, up to a single truncation unit.
proof fn lemma_double_div_10000(m: int)
    requires
        0 <= m,
    ensures
        2 * (m / 10000) <= (2 * m) / 10000 <= 2 * (m / 10000) + 1,
{
    let q = m / 10000;
    let r = m % 10000;
    lemma_fundamental_div_mod(m, 10000);
    if r < 5000 {
        lemma_fundamental_div_mod_converse(2 * m, 10000, 2 * q, 2 * r);
    } else {
        lemma_fundamental_div_mod_converse(2 * m, 10000, 2 * q + 1, 2 * r - 10000);
    }
}

/// Splitting invariant: the total tax of a married couple on income `y` is
/// twice the single-filer total tax on `y / 2`, up to at most one euro that
/// the truncation of the doubled surtax can add.
pub proof fn lemma_splitting(c: IncomeTaxConfig, y: int)
    requires
        crate::config::wf_income_tax(c),
        0 <= y,
    ensures
        split_base_tax(c.tax_ranges@, y, true) == 2 * split_base_tax(c.tax_ranges@, y / 2, false),
        2 * total_tax(c, y / 2, false) <= total_tax(c, y, true) <= 2 * total_tax(c, y / 2, false)
            + 1,
{
    let s = c.tax_ranges@;
    let cc = c.solidary_addition_config;
    let b = base_tax(s, y / 2);
    assert(split_base_tax(s, y, true) == 2 * b);
    assert(split_base_tax(s, y / 2, false) == b);
    assert forall|i: int| 0 <= i < s.len() implies width(#[trigger] s[i]) >= 1 by {}
    lemma_widths_prod_pos(s);
    lemma_tax_num_nonneg(s, y / 2);
    assert(b >= 0) by {
        lemma_div_is_ordered(0, tax_num(s, y / 2), 20000 * widths_prod(s));
        assert(0int / (20000 * widths_prod(s)) == 0) by (nonlinear_arith)
            requires
                widths_prod(s) >= 1,
        ;
    }
    let exemption: int = cc.exemption_level as int;
    if 2 * b < 2 * exemption {
        assert(surtax(cc, 2 * b, true) == 0);
        assert(surtax(cc, b, false) == 0);
    } else {
        let by_rate = b * cc.rate;
        let capped = (b - exemption) * cc.max_percentage;
        let smaller: int = if by_rate <= capped {
            by_rate
        } else {
            capped
        };
        assert((2 * b) * cc.rate == 2 * by_rate) by (nonlinear_arith)
            requires
                by_rate == b * cc.rate,
        ;
        assert((2 * b - 2 * exemption) * cc.max_percentage == 2 * capped) by (nonlinear_arith)
            requires
                capped == (b - exemption) * cc.max_percentage,
        ;
        assert(surtax(cc, 2 * b, true) == (2 * smaller) / 10000);
        assert(surtax(cc, b, false) == smaller / 10000);
        lemma_mul_nonnegative(b, cc.rate as int);
        lemma_mul_nonnegative(b - exemption, cc.max_percentage as int);
        lemma_double_div_10000(smaller);
    }
}

/// One range's contribution numerator grows with the income.
proof fn lemma_contrib_num_monotone(b: TaxRange, y1: int, y2: int)
    requires
        y1 <= y2,
        b.rate_min <= b.rate_max,
        width(b) >= 1,
    ensures
        contrib_num(b, y1) <= contrib_num(b, y2),
{
    let t1 = taxed_part(b, y1);
    let t2 = taxed_part(b, y2);
    assert(0 <= t1 && t1 <= t2);
    assert(contrib_num(b, y1) <= contrib_num(b, y2)) by (nonlinear_arith)
        requires
            0 <= t1 <= t2,
            0 <= (b.rate_min as int),
            b.rate_min <= b.rate_max,
            0 <= width(b) || t1 == t2 == 0,
            contrib_num(b, y1) == 2 * t1 * b.rate_min * width(b) + t1 * t1 * (b.rate_max
                - b.rate_min),
            contrib_num(b, y2) == 2 * t2 * b.rate_min * width(b) + t2 * t2 * (b.rate_max
                - b.rate_min),
            t1 > 0 ==> width(b) > 0,
            t2 > 0 ==> width(b) > 0,
    ;
}

/// The tax numerator grows with the income.
proof fn lemma_tax_num_monotone(s: Seq<TaxRange>, y1: int, y2: int)
    requires
        y1 <= y2,
        forall|i: int| 0 <= i < s.len() ==> width(#[trigger] s[i]) >= 1,
        forall|i: int| 0 <= i < s.len() ==> (#[trigger] s[i]).rate_min <= s[i].rate_max,
    ensures
        tax_num(s, y1) <= tax_num(s, y2),
    decreases s.len(),
{
    if s.len() > 0 {
        let front = s.drop_last();
        let b = s.last();
        assert forall|i: int| 0 <= i < front.len() implies width(#[trigger] front[i]) >= 1
            && (front[i]).rate_min <= front[i].rate_max by {
            assert(front[i] == s[i]);
        }
        lemma_tax_num_monotone(front, y1, y2);
        lemma_widths_prod_pos(front);
        assert(b == s[s.len() - 1]);
        lemma_contrib_num_monotone(b, y1, y2);
        assert(tax_num(front, y1) * width(b) + contrib_num(b, y1) * widths_prod(front) <= tax_num(
            front,
            y2,
        ) * width(b) + contrib_num(b, y2) * widths_prod(front)) by (nonlinear_arith)
            requires
                tax_num(front, y1) <= tax_num(front, y2),
                contrib_num(b, y1) <= contrib_num(b, y2),
                width(b) >= 1,
                widths_prod(front) >= 1,
        ;
    }
}

/// The solidarity surtax grows with the tax amount it applies to.
proof fn lemma_surtax_monotone(c: SolidaryAdditionConfig, t1: int, t2: int, together: bool)
    requires
        wf_solidary(c),
        0 <= t1 <= t2,
    ensures
        surtax(c, t1, together) <= surtax(c, t2, together),
{
    let exemption: int = if together {
        2 * c.exemption_level
    } else {
        c.exemption_level as int
    };
    lemma_surtax_bounds(c, t1, together);
    lemma_surtax_bounds(c, t2, together);
    if exemption <= t1 {
        let a1 = t1 * c.rate;
        let a2 = t2 * c.rate;
        let b1 = (t1 - exemption) * c.max_percentage;
        let b2 = (t2 - exemption) * c.max_percentage;
        assert(a1 <= a2 && b1 <= b2) by (nonlinear_arith)
            requires
                a1 == t1 * c.rate,
                a2 == t2 * c.rate,
                b1 == (t1 - exemption) * c.max_percentage,
                b2 == (t2 - exemption) * c.max_percentage,
                t1 <= t2,
                0 <= (c.rate as int),
                0 <= (c.max_percentage as int),
        ;
        let m1: int = if a1 <= b1 {
            a1
        } else {
            b1
        };
        let m2: int = if a2 <= b2 {
            a2
        } else {
            b2
        };
        assert(m1 <= m2);
        lemma_div_is_ordered(m1, m2, 10000);
    }
}

/// The base tax is never negative and never falls when the taxable income
/// rises.
pub proof fn lemma_base_tax_monotone(s: Seq<TaxRange>, y1: int, y2: int)
    requires
        wf_ranges(s),
        0 <= y1 <= y2,
    ensures
        0 <= base_tax(s, y1) <= base_tax(s, y2),
{
    assert forall|i: int| 0 <= i < s.len() implies width(#[trigger] s[i]) >= 1 by {}
    lemma_widths_prod_pos(s);
    lemma_tax_num_monotone(s, y1, y2);
    lemma_tax_num_nonneg(s, y1);
    let den = 20000 * widths_prod(s);
    assert(1 <= den) by (nonlinear_arith)
        requires
            den == 20000 * widths_prod(s),
            widths_prod(s) >= 1,
    ;
    lemma_div_is_ordered(0, tax_num(s, y1), den);
    lemma_div_is_ordered(tax_num(s, y1), tax_num(s, y2), den);
    assert(0int / den == 0) by (nonlinear_arith)
        requires
            1 <= den,
    ;
}

/// The total income tax, surtax included, is monotone: a higher taxable
/// income never owes less tax, with or without income splitting.
pub proof fn lemma_total_tax_monotone(c: IncomeTaxConfig, y1: int, y2: int, together: bool)
    requires
        crate::config::wf_income_tax(c),
        0 <= y1 <= y2,
    ensures
        total_tax(c, y1, together) <= total_tax(c, y2, together),
{
    let s = c.tax_ranges@;
    assert forall|i: int| 0 <= i < s.len() implies width(#[trigger] s[i]) >= 1 by {}
    lemma_widths_prod_pos(s);
    let z1: int = if together {
        y1 / 2
    } else {
        y1
    };
    let z2: int = if together {
        y2 / 2
    } else {
        y2
    };
    if together {
        lemma_div_is_ordered(y1, y2, 2);
    }
    assert(0 <= z1 <= z2) by {
        if together {
            lemma_div_is_ordered(0, y1, 2);
        }
    }
    lemma_tax_num_monotone(s, z1, z2);
    lemma_tax_num_nonneg(s, z1);
    let den = 20000 * widths_prod(s);
    assert(1 <= den) by (nonlinear_arith)
        requires
            den == 20000 * widths_prod(s),
            widths_prod(s) >= 1,
    ;
    lemma_div_is_ordered(tax_num(s, z1), tax_num(s, z2), den);
    lemma_div_is_ordered(0, tax_num(s, z1), den);
    assert(0int / den == 0) by (nonlinear_arith)
        requires
            1 <= den,
    ;
    let b1 = split_base_tax(s, y1, together);
    let b2 = split_base_tax(s, y2, together);
    assert(0 <= b1 <= b2);
    lemma_surtax_monotone(c.solidary_addition_config, b1, b2, together);
}

/// The sum of the taxed portions of all ranges.
pub open spec fn sum_taxed(s: Seq<TaxRange>, y: int) -> int
    decreases s.len(),
{
    if s.len() == 0 {
        0
    } else {
        sum_taxed(s.drop_last(), y) + taxed_part(s.last(), y)
    }
}

/// In a well-formed cover the taxed portions tile the income interval: their
/// sum is the income clamped between zero and the topmost upper limit.
proof fn lemma_sum_taxed_closed(s: Seq<TaxRange>, y: int)
    requires
        wf_ranges(s),
    ensures
        sum_taxed(s, y) == (if y <= 0 {
            0int
        } else if y >= s.last().upper_limit {
            s.last().upper_limit as int
        } else {
            y
        }),
    decreases s.len(),
{
    let front = s.drop_last();
    let b = s.last();
    assert(b == s[s.len() - 1]);
    assert(b.lower_limit < b.upper_limit);
    if s.len() == 1 {
        assert(front.len() == 0);
        assert(sum_taxed(front, y) == 0);
        assert(b.lower_limit == 0);
        if y <= 0 {
            assert(taxed_part(b, y) == 0);
        } else if y < b.upper_limit {
            assert(taxed_part(b, y) == y);
        } else {
            assert(taxed_part(b, y) == b.upper_limit);
        }
    } else {
        assert(front[0] == s[0]);
        assert forall|i: int| 0 <= i < front.len() implies {
            &&& (#[trigger] front[i]).lower_limit < front[i].upper_limit
            &&& front[i].rate_min <= front[i].rate_max
            &&& front[i].rate_max <= 10000
        } by {
            assert(front[i] == s[i]);
        }
        assert forall|i: int| 0 <= i && i + 1 < front.len() implies (#[trigger] front[i]).upper_limit
            == front[i + 1].lower_limit by {
            assert(front[i] == s[i]);
            assert(front[i + 1] == s[i + 1]);
        }
        lemma_sum_taxed_closed(front, y);
        assert(front.last() == s[s.len() - 2]);
        assert(s[s.len() - 2].upper_limit == s[s.len() - 1].lower_limit);
        let lo = b.lower_limit as int;
        let up = b.upper_limit as int;
        assert(front.last().upper_limit == lo);
        if y <= 0 {
            assert(sum_taxed(front, y) == 0);
            assert(taxed_part(b, y) == 0);
        } else if y < lo {
            assert(sum_taxed(front, y) == y);
            assert(taxed_part(b, y) == 0);
        } else if y < up {
            assert(sum_taxed(front, y) == lo);
            assert(taxed_part(b, y) == y - lo);
        } else {
            assert(sum_taxed(front, y) == lo);
            assert(taxed_part(b, y) == up - lo);
        }
    }
}

/// The tax numerator rises by at most twenty thousand times the rise of the
/// taxed portions, scaled by the shared denominator.
proof fn lemma_tax_num_lipschitz(s: Seq<TaxRange>, y1: int, y2: int)
    requires
        y1 <= y2,
        forall|i: int| 0 <= i < s.len() ==> width(#[trigger] s[i]) >= 1,
        forall|i: int| 0 <= i < s.len() ==> (#[trigger] s[i]).rate_min <= s[i].rate_max,
        forall|i: int| 0 <= i < s.len() ==> (#[trigger] s[i]).rate_max <= 10000,
    ensures
        sum_taxed(s, y1) <= sum_taxed(s, y2),
        tax_num(s, y2) - tax_num(s, y1) <= 20000 * (sum_taxed(s, y2) - sum_taxed(s, y1))
            * widths_prod(s),
    decreases s.len(),
{
    if s.len() > 0 {
        let front = s.drop_last();
        let b = s.last();
        assert(b == s[s.len() - 1]);
        assert forall|i: int| 0 <= i < front.len() implies {
            &&& width(#[trigger] front[i]) >= 1
            &&& front[i].rate_min <= front[i].rate_max
            &&& front[i].rate_max <= 10000
        } by {
            assert(front[i] == s[i]);
        }
        lemma_tax_num_lipschitz(front, y1, y2);
        lemma_widths_prod_pos(front);
        let t1 = taxed_part(b, y1);
        let t2 = taxed_part(b, y2);
        assert(0 <= t1 && t1 <= t2 && t2 <= width(b));
        let w = width(b);
        let rm = b.rate_min as int;
        let dr = b.rate_max - b.rate_min;
        let dt = t2 - t1;
        let dc = contrib_num(b, y2) - contrib_num(b, y1);
        assert(2 * t2 * rm * w - 2 * t1 * rm * w == 2 * rm * w * dt) by (nonlinear_arith)
            requires
                dt == t2 - t1,
        ;
        assert(t2 * t2 - t1 * t1 == dt * (t1 + t2)) by (nonlinear_arith)
            requires
                dt == t2 - t1,
        ;
        assert(t2 * t2 * dr - t1 * t1 * dr == dr * (dt * (t1 + t2))) by (nonlinear_arith)
            requires
                t2 * t2 - t1 * t1 == dt * (t1 + t2),
        ;
        assert(dc == 2 * rm * w * dt + dr * (dt * (t1 + t2)));
        assert(dr * (dt * (t1 + t2)) <= dr * (dt * (2 * w))) by (nonlinear_arith)
            requires
                0 <= dr,
                0 <= dt,
                t1 + t2 <= 2 * w,
                0 <= t1,
        ;
        assert(2 * rm * w * dt + dr * (dt * (2 * w)) <= 20000 * dt * w) by (nonlinear_arith)
            requires
                0 <= rm,
                0 <= dr,
                rm + dr <= 10000,
                0 <= dt,
                1 <= w,
        ;
        assert(dc <= 20000 * dt * w);
        let pf = widths_prod(front);
        let dnf = tax_num(front, y2) - tax_num(front, y1);
        let dsf = sum_taxed(front, y2) - sum_taxed(front, y1);
        let k1 = 20000 * dsf * pf;
        let k2 = 20000 * dt * w;
        lemma_mul_inequality(dnf, k1, w);
        lemma_mul_inequality(dc, k2, pf);
        assert(tax_num(s, y2) - tax_num(s, y1) == dnf * w + dc * pf) by (nonlinear_arith)
            requires
                tax_num(s, y1) == tax_num(front, y1) * w + contrib_num(b, y1) * pf,
                tax_num(s, y2) == tax_num(front, y2) * w + contrib_num(b, y2) * pf,
                dnf == tax_num(front, y2) - tax_num(front, y1),
                dc == contrib_num(b, y2) - contrib_num(b, y1),
        ;
        assert(k1 * w + k2 * pf == 20000 * (dsf + dt) * (pf * w)) by (nonlinear_arith)
            requires
                k1 == 20000 * dsf * pf,
                k2 == 20000 * dt * w,
        ;
        assert(sum_taxed(s, y2) - sum_taxed(s, y1) == dsf + dt);
        assert(widths_prod(s) == pf * w);
        assert(20000 * (sum_taxed(s, y2) - sum_taxed(s, y1)) * widths_prod(s) == 20000 * (dsf
            + dt) * (pf * w)) by (nonlinear_arith)
            requires
                sum_taxed(s, y2) - sum_taxed(s, y1) == dsf + dt,
                widths_prod(s) == pf * w,
        ;
    }
}

/// The base tax rises at most as fast as the taxable income: one more euro of
/// income never adds more than one euro of base tax.
pub proof fn lemma_base_tax_lipschitz(s: Seq<TaxRange>, y1: int, y2: int)
    requires
        wf_ranges(s),
        0 <= y1 <= y2,
    ensures
        base_tax(s, y2) <= base_tax(s, y1) + (y2 - y1),
{
    assert forall|i: int| 0 <= i < s.len() implies width(#[trigger] s[i]) >= 1 by {}
    lemma_widths_prod_pos(s);
    lemma_tax_num_lipschitz(s, y1, y2);
    lemma_sum_taxed_closed(s, y1);
    lemma_sum_taxed_closed(s, y2);
    let p = widths_prod(s);
    let den = 20000 * p;
    assert(1 <= den) by (nonlinear_arith)
        requires
            den == 20000 * p,
            p >= 1,
    ;
    let delta = y2 - y1;
    assert(sum_taxed(s, y2) - sum_taxed(s, y1) <= delta);
    assert(tax_num(s, y2) <= tax_num(s, y1) + delta * den) by (nonlinear_arith)
        requires
            tax_num(s, y2) - tax_num(s, y1) <= 20000 * (sum_taxed(s, y2) - sum_taxed(s, y1)) * p,
            0 <= sum_taxed(s, y2) - sum_taxed(s, y1) <= delta,
            den == 20000 * p,
            1 <= p,
            0 <= delta,
    ;
    lemma_div_is_ordered(tax_num(s, y2), tax_num(s, y1) + delta * den, den);
    lemma_hoist_over_denominator(tax_num(s, y1), delta, den as nat);
}

} // verus!

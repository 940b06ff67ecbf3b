//! Social-insurance premium computation for the three schemes health
//! (including nursing care), retirement, and unemployment.
//!
//! Each scheme charges its rate on the yearly income, capped at twelve times
//! the scheme's monthly income limit. The three exact products are summed and
//! the total is truncated to whole euros once. With incomes in cents and the
//! rates a person pays in twenty-thousandths, every scheme contributes an
//! integer numerator over the common denominator `2_000_000`.

use vstd::arithmetic::div_mod::{lemma_div_is_ordered, lemma_hoist_over_denominator};
use vstd::prelude::*;

use crate::config::{
    wf_health, wf_retirement, wf_unemployment, HealthInsuranceConfig, RetirementInsuranceConfig,
    UnemploymentInsuranceConfig,
};
use crate::{TaxData, TaxError};

verus! {

/// The denominator of all premium numerators: rates are in twenty-thousandths
/// and incomes in cents.
pub open spec fn premium_denominator() -> int {
    2_000_000
}

/// The yearly income in euros on which the health premium is charged:
/// self-employed persons pay at least on twelve times the statutory minimum
/// monthly income (truncated to whole euros), everyone else on the actual
/// income.
pub open spec fn health_income(h: HealthInsuranceConfig, d: TaxData) -> int {
    if d.self_employed {
        let min_yearly = (h.min_income * 12) / 100;
        if d.income >= min_yearly {
            d.income as int
        } else {
            min_yearly as int
        }
    } else {
        d.income as int
    }
}

/// The health-insurance rate the person pays, in twenty-thousandths: a
/// self-employed person pays the reduced general rate, the additional rate
/// and the full nursing rates alone; an employed person pays half of the
/// shared rates (the employer pays the other half) plus the full nursing
/// surcharge.
pub open spec fn health_rate(h: HealthInsuranceConfig, d: TaxData) -> int {
    if d.self_employed {
        2 * (h.premium_general_reduced + h.premium_additional + h.premium_nursing
            + h.premium_nursing_additional)
    } else {
        h.premium_general + h.premium_additional + h.premium_nursing + 2
            * h.premium_nursing_additional
    }
}

/// The capped yearly income in cents that a scheme with monthly limit
/// `max_monthly_cents` charges on the yearly income `income` in euros.
pub open spec fn capped_income_cents(income: int, max_monthly_cents: int) -> int {
    if income * 100 <= max_monthly_cents * 12 {
        income * 100
    } else {
        max_monthly_cents * 12
    }
}

/// The health-premium numerator over `premium_denominator()`.
pub open spec fn health_num(h: HealthInsuranceConfig, d: TaxData) -> int {
    capped_income_cents(health_income(h, d), h.max_income as int) * health_rate(h, d)
}

/// The retirement-premium numerator over `premium_denominator()`: a fixed
/// monthly amount, if one is set, is paid twelve times; otherwise the
/// percentage applies on the capped income, with the employer covering half
/// of it for employed persons.
pub open spec fn retirement_num(c: RetirementInsuranceConfig, d: TaxData) -> int {
    if d.fixed_retirement is Some {
        d.fixed_retirement->0 * 12 * premium_denominator()
    } else {
        let rate: int = if d.self_employed {
            2 * c.premium
        } else {
            c.premium as int
        };
        capped_income_cents(d.income as int, c.max_income as int) * rate
    }
}

/// The unemployment-premium numerator over `premium_denominator()`: nothing
/// for self-employed persons (the scheme does not apply to them), half the
/// rate on the capped income for employed persons.
pub open spec fn unemployment_num(c: UnemploymentInsuranceConfig, d: TaxData) -> int {
    if d.self_employed {
        0
    } else {
        capped_income_cents(d.income as int, c.max_income as int) * c.premium
    }
}

/// The total social-insurance premium in euros: the exact sum of the three
/// scheme premiums, truncated once.
pub open spec fn total_premium(
    h: HealthInsuranceConfig,
    r: RetirementInsuranceConfig,
    u: UnemploymentInsuranceConfig,
    d: TaxData,
) -> int {
    (health_num(h, d) + retirement_num(r, d) + unemployment_num(u, d)) / premium_denominator()
}

/// The capped yearly income in cents of one scheme, computed from the yearly
/// income in euros and the scheme's monthly limit in cents.
fn capped_cents(income: u64, max_monthly_cents: u32) -> (r: u64)
    requires
        income <= 0xffff_ffff,
    ensures
        r as int == capped_income_cents(income as int, max_monthly_cents as int),
        r <= 0xffff_ffff * 100,
{
    let yearly_cents: u64 = income * 100;
    let cap_cents: u64 = (max_monthly_cents as u64) * 12;
    if yearly_cents <= cap_cents {
        yearly_cents
    } else {
        cap_cents
    }
}

/// Computes the total social-insurance premium for the given schemes and
/// input, or reports that the total cannot be represented in the output
/// domain (possible only through a very large fixed retirement amount).
pub fn calculate(
    health_insurance_config: &HealthInsuranceConfig,
    retirement_insurance_config: &RetirementInsuranceConfig,
    unemployment_insurance_config: &UnemploymentInsuranceConfig,
    tax_data: &TaxData,
) -> (r: Result<u32, TaxError>)
    requires
        wf_health(*health_insurance_config),
        wf_retirement(*retirement_insurance_config),
        wf_unemployment(*unemployment_insurance_config),
    ensures
        ({
            let total = total_premium(
                *health_insurance_config,
                *retirement_insurance_config,
                *unemployment_insurance_config,
                *tax_data,
            );
            match r {
                Ok(v) => total <= 0xffff_ffff && v as int == total,
                Err(e) => e == TaxError::InputTooLarge && total > 0xffff_ffff,
            }
        }),
{
    let h = health_insurance_config;
    // for self-employed persons a statutory minimum income applies to the
    // health insurance when the actual income is lower
    let income_for_health: u64 = if tax_data.self_employed {
        let min_income_year: u64 = ((h.min_income as u64) * 12) / 100;
        if (tax_data.income as u64) >= min_income_year {
            tax_data.income as u64
        } else {
            min_income_year
        }
    } else {
        tax_data.income as u64
    };
    let health_rate_paid: u64 = if tax_data.self_employed {
        2 * ((h.premium_general_reduced + h.premium_additional + h.premium_nursing
            + h.premium_nursing_additional) as u64)
    } else {
        (h.premium_general + h.premium_additional + h.premium_nursing) as u64 + 2
            * (h.premium_nursing_additional as u64)
    };
    let health_cents = capped_cents(income_for_health, h.max_income);
    proof {
        assert(health_cents as int * (health_rate_paid as int) <= 0xffff_ffff * 100 * 80000)
            by (nonlinear_arith)
            requires
                health_cents <= 0xffff_ffff * 100,
                health_rate_paid <= 80000,
        ;
    }
    let health: u64 = health_cents * health_rate_paid;

    let retirement: u64 = match tax_data.fixed_retirement {
        Some(fixed_retirement) => (fixed_retirement as u64) * 12 * 2_000_000,
        None => {
            let rate: u64 = if tax_data.self_employed {
                2 * (retirement_insurance_config.premium as u64)
            } else {
                retirement_insurance_config.premium as u64
            };
            let cents = capped_cents(
                tax_data.income as u64,
                retirement_insurance_config.max_income,
            );
            proof {
                assert(cents as int * (rate as int) <= 0xffff_ffff * 100 * 20000)
                    by (nonlinear_arith)
                    requires
                        cents <= 0xffff_ffff * 100,
                        rate <= 20000,
                ;
            }
            cents * rate
        },
    };

    let unemployment: u64 = if tax_data.self_employed {
        0
    } else {
        let cents = capped_cents(
            tax_data.income as u64,
            unemployment_insurance_config.max_income,
        );
        proof {
            assert(cents as int * (unemployment_insurance_config.premium as int) <= 0xffff_ffff
                * 100 * 10000) by (nonlinear_arith)
                requires
                    cents <= 0xffff_ffff * 100,
                    unemployment_insurance_config.premium <= 10000,
            ;
        }
        cents * (unemployment_insurance_config.premium as u64)
    };

    let total: u64 = (health + retirement + unemployment) / 2_000_000;
    if total > 0xffff_ffff {
        Err(TaxError::InputTooLarge)
    } else {
        Ok(total as u32)
    }
}

/// A self-employed person pays no unemployment premium: the total premium
/// does not depend on the unemployment-insurance configuration at all.
pub proof fn lemma_self_employed_no_unemployment(
    h: HealthInsuranceConfig,
    r: RetirementInsuranceConfig,
    u1: UnemploymentInsuranceConfig,
    u2: UnemploymentInsuranceConfig,
    d: TaxData,
)
    requires
        d.self_employed,
    ensures
        unemployment_num(u1, d) == 0,
        total_premium(h, r, u1, d) == total_premium(h, r, u2, d),
{
}

/// An employed person's premiums reflect the employer/employee split exactly:
/// twice the employed retirement numerator is the full retirement rate on the
/// capped income, and twice the employed health rate is the full shared rates
/// plus twice the nursing surcharge, which the employee bears alone.
pub proof fn lemma_employed_split_rates(
    h: HealthInsuranceConfig,
    r: RetirementInsuranceConfig,
    d: TaxData,
)
    requires
        !d.self_employed,
        d.fixed_retirement is None,
    ensures
        2 * retirement_num(r, d) == capped_income_cents(d.income as int, r.max_income as int) * (
        2 * r.premium),
        2 * health_rate(h, d) == 2 * (h.premium_general + h.premium_additional
            + h.premium_nursing) + 2 * (2 * h.premium_nursing_additional),
{
    let cents = capped_income_cents(d.income as int, r.max_income as int);
    assert(2 * (cents * r.premium) == cents * (2 * r.premium)) by (nonlinear_arith);
}

/// The sum of the premium rates, in twenty-thousandths, that grow with the
/// income of the input: a fixed retirement amount and the inapplicable
/// unemployment scheme of self-employed persons contribute nothing.
pub open spec fn marginal_rate_sum(
    h: HealthInsuranceConfig,
    r: RetirementInsuranceConfig,
    u: UnemploymentInsuranceConfig,
    d: TaxData,
) -> int {
    health_rate(h, d) + (if d.fixed_retirement is Some {
        0int
    } else if d.self_employed {
        2 * r.premium
    } else {
        r.premium as int
    }) + (if d.self_employed {
        0int
    } else {
        u.premium as int
    })
}

/// The total premium never falls when the income rises with everything else
/// unchanged; and it rises by at most the income difference whenever the
/// rates the person pays sum to at most 100 %.
pub proof fn lemma_total_premium_monotone(
    h: HealthInsuranceConfig,
    r: RetirementInsuranceConfig,
    u: UnemploymentInsuranceConfig,
    d1: TaxData,
    d2: TaxData,
)
    requires
        d2.expenses == d1.expenses,
        d2.fixed_retirement == d1.fixed_retirement,
        d2.self_employed == d1.self_employed,
        d2.married == d1.married,
        d1.income <= d2.income,
    ensures
        total_premium(h, r, u, d1) <= total_premium(h, r, u, d2),
        marginal_rate_sum(h, r, u, d1) <= 20000 ==> total_premium(h, r, u, d2) <= total_premium(
            h,
            r,
            u,
            d1,
        ) + (d2.income - d1.income),
{
    let delta = d2.income - d1.income;
    let hr = health_rate(h, d1);
    assert(health_rate(h, d2) == hr);
    let hi1 = health_income(h, d1);
    let hi2 = health_income(h, d2);
    assert(hi1 <= hi2 && hi2 - hi1 <= delta);
    let e1 = capped_income_cents(hi1, h.max_income as int);
    let e2 = capped_income_cents(hi2, h.max_income as int);
    assert(0 <= e1 <= e2 && e2 - e1 <= 100 * (hi2 - hi1));
    let hn1 = health_num(h, d1);
    let hn2 = health_num(h, d2);
    assert(hn1 <= hn2 && hn2 - hn1 <= (100 * delta) * hr) by (nonlinear_arith)
        requires
            hn1 == e1 * hr,
            hn2 == e2 * hr,
            0 <= e1 <= e2,
            e2 - e1 <= 100 * delta,
            0 <= hr,
    ;
    let rr: int = if d1.fixed_retirement is Some {
        0int
    } else if d1.self_employed {
        2 * r.premium
    } else {
        r.premium as int
    };
    let rn1 = retirement_num(r, d1);
    let rn2 = retirement_num(r, d2);
    if d1.fixed_retirement is Some {
        assert(rn1 == rn2);
        assert(rn2 - rn1 <= (100 * delta) * rr) by (nonlinear_arith)
            requires
                rn2 == rn1,
                rr == 0,
                delta >= 0,
        ;
    } else {
        let f1 = capped_income_cents(d1.income as int, r.max_income as int);
        let f2 = capped_income_cents(d2.income as int, r.max_income as int);
        assert(0 <= f1 <= f2 && f2 - f1 <= 100 * delta);
        assert(rn1 <= rn2 && rn2 - rn1 <= (100 * delta) * rr) by (nonlinear_arith)
            requires
                rn1 == f1 * rr,
                rn2 == f2 * rr,
                0 <= f1 <= f2,
                f2 - f1 <= 100 * delta,
                0 <= rr,
        ;
    }
    let ur: int = if d1.self_employed {
        0int
    } else {
        u.premium as int
    };
    let un1 = unemployment_num(u, d1);
    let un2 = unemployment_num(u, d2);
    if d1.self_employed {
        assert(un1 == 0 && un2 == 0);
        assert(un2 - un1 <= (100 * delta) * ur) by (nonlinear_arith)
            requires
                un1 == un2,
                ur == 0,
                delta >= 0,
        ;
    } else {
        let g1 = capped_income_cents(d1.income as int, u.max_income as int);
        let g2 = capped_income_cents(d2.income as int, u.max_income as int);
        assert(0 <= g1 <= g2 && g2 - g1 <= 100 * delta);
        assert(un1 <= un2 && un2 - un1 <= (100 * delta) * ur) by (nonlinear_arith)
            requires
                un1 == g1 * ur,
                un2 == g2 * ur,
                0 <= g1 <= g2,
                g2 - g1 <= 100 * delta,
                0 <= ur,
        ;
    }
    let n1 = hn1 + rn1 + un1;
    let n2 = hn2 + rn2 + un2;
    assert(n1 <= n2);
    lemma_div_is_ordered(n1, n2, premium_denominator());
    if marginal_rate_sum(h, r, u, d1) <= 20000 {
        assert(n2 - n1 <= (100 * delta) * (hr + rr + ur)) by (nonlinear_arith)
            requires
                hn2 - hn1 <= (100 * delta) * hr,
                rn2 - rn1 <= (100 * delta) * rr,
                un2 - un1 <= (100 * delta) * ur,
                n1 == hn1 + rn1 + un1,
                n2 == hn2 + rn2 + un2,
        ;
        assert((100 * delta) * (hr + rr + ur) <= delta * 2_000_000) by (nonlinear_arith)
            requires
                0 <= delta,
                0 <= hr + rr + ur <= 20000,
        ;
        assert(n2 <= n1 + delta * 2_000_000);
        lemma_div_is_ordered(n2, n1 + delta * 2_000_000, premium_denominator());
        lemma_hoist_over_denominator(n1, delta, 2_000_000nat);
    }
}

} // verus!

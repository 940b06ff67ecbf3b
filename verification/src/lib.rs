//! Net income calculation under German income-tax and social-insurance rules.
//!
//! All monetary amounts are whole euros per year unless stated otherwise;
//! configuration tables hold rates in ten-thousandths (a rate of 1450 means
//! 14.50 %) and monthly income limits in cents, so that every computation is
//! exact integer arithmetic with a single truncation at each published
//! aggregation point.

use vstd::prelude::*;

pub mod config;
pub mod income_tax;
pub mod social_security;

verus! {

/// Errors that a calculation can report.
#[derive(Debug, Clone, Copy, PartialEq, Eq, Structural)]
pub enum TaxError {
    /// No configuration table exists for the requested year.
    UnsupportedYear,
    /// The requested amounts cannot be represented in the signed output domain.
    InputTooLarge,
    /// The gross-income search did not reach the target net income within its
    /// iteration budget.
    NonConvergence,
}

/// Input data of one tax calculation.
#[derive(Debug, Clone, Copy, PartialEq, Eq, Structural)]
pub struct TaxData {
    /// The gross or net income of one year in euros (gross for `calculate`,
    /// net for `calculate_reverse`).
    pub income: u32,
    /// The expenses of one year in euros that are deducted from the gross
    /// income before the income tax is computed.
    pub expenses: u32,
    /// An optional fixed monthly retirement-insurance amount in euros. When
    /// set, it replaces the percentage-based retirement premium.
    pub fixed_retirement: Option<u32>,
    /// Whether the calculation is done for a self-employed person.
    pub self_employed: bool,
    /// Whether the income is split over a married couple.
    pub married: bool,
}

/// Result of one tax calculation.
#[derive(Debug, Clone, Copy, PartialEq, Eq, Structural)]
pub struct TaxResult {
    /// The gross income in euros, before any deduction.
    pub gross_income: i32,
    /// The net income in euros, after deducting social-insurance premiums and
    /// income taxes; negative when the expenses exceed the income.
    pub net_income: i32,
    /// The social-insurance premiums in euros deducted from the gross income.
    pub social_security_taxes: u32,
    /// The income taxes in euros (including the solidarity surtax) deducted
    /// from the gross income.
    pub income_taxes: u32,
}

/// The income and the expenses both fit the signed output domain: the gross
/// income is representable, and the difference of income and expenses cannot
/// fall below the smallest representable net income.
pub open spec fn input_fits(d: TaxData) -> bool {
    &&& d.income <= 0x7fff_ffff
    &&& d.expenses as int <= d.income + 0x8000_0000
}

/// The total social-insurance premium of the input under the configuration.
pub open spec fn spec_social(c: config::Config, d: TaxData) -> int {
    social_security::total_premium(
        c.health_insurance,
        c.retirement_insurance,
        c.unemployment_insurance,
        d,
    )
}

/// The taxable income: the gross income less expenses and social-insurance
/// premiums, floored at zero.
pub open spec fn spec_taxable(c: config::Config, d: TaxData) -> int {
    let deductions = spec_social(c, d) + d.expenses;
    if deductions < d.income {
        d.income - deductions
    } else {
        0
    }
}

/// The total income tax (base tax plus solidarity surtax) on the taxable
/// income of the input.
pub open spec fn spec_taxes(c: config::Config, d: TaxData) -> int {
    income_tax::total_tax(c.income_tax, spec_taxable(c, d), d.married)
}

/// The net income: gross income less expenses, social-insurance premiums and
/// income taxes.
pub open spec fn spec_net(c: config::Config, d: TaxData) -> int {
    d.income - d.expenses - spec_social(c, d) - spec_taxes(c, d)
}

/// Every intermediate and final amount of the calculation is representable:
/// the input fits, the premium total fits its unsigned output, and the net
/// income does not fall below the smallest representable signed value.
pub open spec fn calculation_fits(c: config::Config, d: TaxData) -> bool {
    &&& input_fits(d)
    &&& spec_social(c, d) <= 0xffff_ffff
    &&& spec_net(c, d) >= -0x8000_0000
}

/// The same input with the income field replaced.
pub open spec fn with_income(d: TaxData, income: u32) -> TaxData {
    TaxData {
        income,
        expenses: d.expenses,
        fixed_retirement: d.fixed_retirement,
        self_employed: d.self_employed,
        married: d.married,
    }
}

/// Calculates social-insurance premiums and income taxes on the gross income
/// of `tax_data` and returns them together with the remaining net income.
///
/// Fails with `TaxError::InputTooLarge` exactly when some amount cannot be
/// represented in the output domain: the gross income or the shortfall
/// `income - expenses` leaves the signed 32-bit range, the premium total
/// leaves the unsigned 32-bit range, or the net income falls below the
/// smallest signed 32-bit value.
pub fn calculate(config: &config::Config, tax_data: &TaxData) -> (r: Result<TaxResult, TaxError>)
    requires
        config::wf_config(*config),
    ensures
        match r {
            Ok(res) => {
                &&& calculation_fits(*config, *tax_data)
                &&& res.gross_income as int == tax_data.income as int
                &&& res.social_security_taxes as int == spec_social(*config, *tax_data)
                &&& res.income_taxes as int == spec_taxes(*config, *tax_data)
                &&& res.net_income as int == spec_net(*config, *tax_data)
            },
            Err(e) => {
                &&& e == TaxError::InputTooLarge
                &&& !calculation_fits(*config, *tax_data)
            },
        },
{
    if tax_data.income > 0x7fff_ffff {
        return Err(TaxError::InputTooLarge);
    }
    if (tax_data.expenses as u64) > (tax_data.income as u64) + 0x8000_0000 {
        return Err(TaxError::InputTooLarge);
    }
    let social: u32 = match social_security::calculate(
        &config.health_insurance,
        &config.retirement_insurance,
        &config.unemployment_insurance,
        tax_data,
    ) {
        Ok(v) => v,
        Err(e) => {
            return Err(e);
        },
    };
    // expenses and premiums are deducted before tax; the taxable income is
    // never negative
    let deductions: u64 = social as u64 + tax_data.expenses as u64;
    let taxable: u32 = if deductions < tax_data.income as u64 {
        (tax_data.income as u64 - deductions) as u32
    } else {
        0
    };
    let taxes: u64 = income_tax::calculate(&config.income_tax, taxable, tax_data.married);
    let net: i64 = tax_data.income as i64 - tax_data.expenses as i64 - social as i64
        - taxes as i64;
    if net < -0x8000_0000i64 {
        return Err(TaxError::InputTooLarge);
    }
    Ok(
        TaxResult {
            gross_income: tax_data.income as i32,
            net_income: net as i32,
            social_security_taxes: social,
            income_taxes: taxes as u32,
        },
    )
}

/// The solver's first estimate of the gross income: one and a half times
/// the target net income, clamped to the representable incomes.
pub open spec fn first_estimate(d: TaxData) -> int {
    let e = d.income + d.income as int / 2;
    if e > 0xffff_ffff {
        0xffff_ffff
    } else {
        e
    }
}

/// The estimate that follows `e`: lowered by the amount the net income at
/// `e` overshoots the target, clamped to the representable incomes.
pub open spec fn next_estimate(c: config::Config, d: TaxData, e: int) -> int {
    let difference = spec_net(c, with_income(d, e as u32)) - d.income;
    let n = e - difference;
    if n < 0 {
        0
    } else if n > 0xffff_ffff {
        0xffff_ffff
    } else {
        n
    }
}

/// The gross-income estimate the solver tries in round `k`.
pub open spec fn nth_estimate(c: config::Config, d: TaxData, k: int) -> int
    decreases k,
{
    if k <= 0 {
        first_estimate(d)
    } else {
        next_estimate(c, d, nth_estimate(c, d, k - 1))
    }
}

/// The round-`k` estimate hits the target: the forward calculation succeeds
/// there and returns exactly the target net income.
pub open spec fn estimate_hits(c: config::Config, d: TaxData, k: int) -> bool {
    let dk = with_income(d, nth_estimate(c, d, k) as u32);
    calculation_fits(c, dk) && spec_net(c, dk) == d.income
}

/// The forward calculation fails at the round-`k` estimate.
pub open spec fn estimate_fails(c: config::Config, d: TaxData, k: int) -> bool {
    !calculation_fits(c, with_income(d, nth_estimate(c, d, k) as u32))
}

/// Calculates the gross income that yields the net income given in
/// `tax_data`, together with the premiums and taxes of that gross income.
///
/// The forward calculation is inverted by a bounded fixed-point search over
/// the estimate sequence `nth_estimate`: each round lowers the estimate by
/// the amount the computed net income overshoots the target. The outcome is
/// fully determined by that sequence: the first round whose estimate hits
/// the target yields its forward outcome, whose net income is exactly the
/// target; a round whose estimate makes the forward calculation fail, before
/// any hit, yields that failure; and when no round within the budget of 1000
/// does either, the search fails with `TaxError::NonConvergence`.
pub fn calculate_reverse(config: &config::Config, tax_data: &TaxData) -> (r: Result<
    TaxResult,
    TaxError,
>)
    requires
        config::wf_config(*config),
    ensures
        match r {
            Ok(res) => {
                &&& res.net_income as int == tax_data.income as int
                &&& res.gross_income >= 0
                &&& ({
                    let d = with_income(*tax_data, res.gross_income as u32);
                    &&& calculation_fits(*config, d)
                    &&& res.social_security_taxes as int == spec_social(*config, d)
                    &&& res.income_taxes as int == spec_taxes(*config, d)
                    &&& res.net_income as int == spec_net(*config, d)
                })
                &&& exists|k: int|
                    {
                        &&& 0 <= k < 1000
                        &&& #[trigger] estimate_hits(*config, *tax_data, k)
                        &&& res.gross_income as int == nth_estimate(*config, *tax_data, k)
                        &&& forall|j: int|
                            0 <= j < k ==> !(#[trigger] estimate_hits(*config, *tax_data, j))
                                && !estimate_fails(*config, *tax_data, j)
                    }
            },
            Err(e) => {
                &&& e == TaxError::InputTooLarge || e == TaxError::NonConvergence
                &&& e == TaxError::InputTooLarge ==> exists|k: int|
                    {
                        &&& 0 <= k < 1000
                        &&& #[trigger] estimate_fails(*config, *tax_data, k)
                        &&& forall|j: int|
                            0 <= j < k ==> !(#[trigger] estimate_hits(*config, *tax_data, j))
                                && !estimate_fails(*config, *tax_data, j)
                    }
                &&& e == TaxError::NonConvergence ==> forall|k: int|
                    0 <= k < 1000 ==> !(#[trigger] estimate_hits(*config, *tax_data, k))
                        && !estimate_fails(*config, *tax_data, k)
            },
        },
{
    // first rough estimation of the gross income
    let mut estimation: u64 = tax_data.income as u64 + (tax_data.income as u64) / 2;
    if estimation > 0xffff_ffff {
        estimation = 0xffff_ffff;
    }
    proof {
        assert(estimation as int == first_estimate(*tax_data));
    }
    let mut iterations: u32 = 0;
    while iterations < 1000
        invariant
            estimation <= 0xffff_ffff,
            config::wf_config(*config),
            iterations <= 1000,
            estimation as int == nth_estimate(*config, *tax_data, iterations as int),
            forall|j: int|
                0 <= j < iterations as int ==> !(#[trigger] estimate_hits(
                    *config,
                    *tax_data,
                    j,
                )) && !estimate_fails(*config, *tax_data, j),
        decreases 1000 - iterations,
    {
        let ghost k0: int = iterations as int;
        // run the forward calculation on the estimated gross income
        let estimated = TaxData {
            income: estimation as u32,
            expenses: tax_data.expenses,
            fixed_retirement: tax_data.fixed_retirement,
            self_employed: tax_data.self_employed,
            married: tax_data.married,
        };
        proof {
            assert(estimated == with_income(*tax_data, nth_estimate(*config, *tax_data, k0) as u32));
        }
        let tax_result = match calculate(config, &estimated) {
            Ok(res) => res,
            Err(e) => {
                proof {
                    assert(estimate_fails(*config, *tax_data, k0));
                }
                return Err(e);
            },
        };
        let difference: i64 = tax_result.net_income as i64 - tax_data.income as i64;
        if difference == 0 {
            proof {
                assert(with_income(*tax_data, tax_result.gross_income as u32) == estimated);
                assert(estimate_hits(*config, *tax_data, k0));
                assert(tax_result.gross_income as int == nth_estimate(*config, *tax_data, k0));
            }
            return Ok(tax_result);
        }
        // lower the estimate by the overshoot, clamped to the valid incomes
        let next: i64 = estimation as i64 - difference;
        proof {
            assert(!estimate_hits(*config, *tax_data, k0));
            assert(!estimate_fails(*config, *tax_data, k0));
            assert(next as int == nth_estimate(*config, *tax_data, k0) - (spec_net(
                *config,
                estimated,
            ) - tax_data.income));
            assert(nth_estimate(*config, *tax_data, k0 + 1) == next_estimate(
                *config,
                *tax_data,
                nth_estimate(*config, *tax_data, k0),
            ));
        }
        estimation = if next < 0 {
            0
        } else if next > 0xffff_ffff {
            0xffff_ffff
        } else {
            next as u64
        };
        iterations = iterations + 1;
    }
    Err(TaxError::NonConvergence)
}

/// Net income is monotone in gross income for a single filer: with all other
/// inputs fixed, more gross income never leaves less net income, as long as
/// the premium rates the person pays sum to at most 100 % and the base tax
/// stays below the surtax exemption level at the higher income.
///
/// Outside those bounds single euros can be lost to truncation: premium
/// rates above 100 % make the deductions outgrow the income, and both the
/// doubled surtax exemption of a married couple and the surtax phase-in can
/// let one extra euro of income raise the rounded total tax by two.
pub proof fn lemma_net_income_monotone(c: config::Config, d: TaxData, g1: u32, g2: u32)
    requires
        config::wf_config(c),
        !d.married,
        g1 <= g2,
        social_security::marginal_rate_sum(
            c.health_insurance,
            c.retirement_insurance,
            c.unemployment_insurance,
            d,
        ) <= 20000,
        income_tax::base_tax(c.income_tax.tax_ranges@, spec_taxable(c, with_income(d, g2)))
            < c.income_tax.solidary_addition_config.exemption_level,
    ensures
        spec_net(c, with_income(d, g1)) <= spec_net(c, with_income(d, g2)),
{
    let d1 = with_income(d, g1);
    let d2 = with_income(d, g2);
    let s1 = spec_social(c, d1);
    let s2 = spec_social(c, d2);
    assert(social_security::marginal_rate_sum(
        c.health_insurance,
        c.retirement_insurance,
        c.unemployment_insurance,
        d1,
    ) <= 20000);
    social_security::lemma_total_premium_monotone(
        c.health_insurance,
        c.retirement_insurance,
        c.unemployment_insurance,
        d1,
        d2,
    );
    assert(s1 <= s2 && s2 - s1 <= g2 - g1);
    let t1 = spec_taxable(c, d1);
    let t2 = spec_taxable(c, d2);
    assert(0 <= t1 && t1 <= t2);
    assert(t2 - t1 <= (g2 - g1) - (s2 - s1));
    let rs = c.income_tax.tax_ranges@;
    income_tax::lemma_base_tax_monotone(rs, t1, t2);
    income_tax::lemma_base_tax_lipschitz(rs, t1, t2);
    let b1 = income_tax::base_tax(rs, t1);
    let b2 = income_tax::base_tax(rs, t2);
    // below the exemption level no surtax is due at either income
    let cc = c.income_tax.solidary_addition_config;
    assert(income_tax::surtax(cc, b1, false) == 0);
    assert(income_tax::surtax(cc, b2, false) == 0);
    assert(spec_taxes(c, d1) == b1);
    assert(spec_taxes(c, d2) == b2);
}

} // verus!

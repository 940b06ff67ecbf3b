//! Tax and social-insurance configuration tables per calendar year.
//!
//! Rates are stored in ten-thousandths of the full rate (a stored value of
//! 1450 means 14.50 %), monthly income limits in cents. The tables for the
//! years 2024 and 2025 follow the German statutory values.

use vstd::prelude::*;

verus! {

/// Configuration of the state-operated health insurance.
///
/// All premium fields are rates in ten-thousandths; the income fields are
/// monthly amounts in cents.
#[derive(Debug, Clone, Copy, PartialEq, Eq, Structural)]
pub struct HealthInsuranceConfig {
    /// General premium rate (Beitragssatz).
    pub premium_general: u32,
    /// Reduced premium rate for self-employed persons without sick pay
    /// (reduzierter Beitragssatz).
    pub premium_general_reduced: u32,
    /// Additional premium rate defined per insurance company (Zusatzbeitrag).
    pub premium_additional: u32,
    /// General premium rate of the nursing-care insurance
    /// (Beitragssatz Pflegeversicherung).
    pub premium_nursing: u32,
    /// Additional nursing-care rate for childless persons
    /// (Zuschlag fuer Kinderlose).
    pub premium_nursing_additional: u32,
    /// Minimum monthly income in cents used for self-employed persons
    /// (Mindestbeitrag).
    pub min_income: u32,
    /// Maximum monthly income in cents considered for the premium
    /// (Beitragsbemessungsgrenze).
    pub max_income: u32,
}

/// Configuration of the state-operated retirement insurance.
#[derive(Debug, Clone, Copy, PartialEq, Eq, Structural)]
pub struct RetirementInsuranceConfig {
    /// Premium rate in ten-thousandths (Beitragssatz).
    pub premium: u32,
    /// Maximum monthly income in cents considered for the premium
    /// (Beitragsbemessungsgrenze).
    pub max_income: u32,
}

/// Configuration of the state-operated unemployment insurance.
#[derive(Debug, Clone, Copy, PartialEq, Eq, Structural)]
pub struct UnemploymentInsuranceConfig {
    /// Premium rate in ten-thousandths (Beitragssatz).
    pub premium: u32,
    /// Maximum monthly income in cents considered for the premium
    /// (Beitragsbemessungsgrenze).
    pub max_income: u32,
}

/// One progressive income-tax range: incomes from `lower_limit` (inclusive)
/// up to `upper_limit` (exclusive) are taxed at a marginal rate that rises
/// linearly from `rate_min` to `rate_max` across the range.
///
/// Limits are yearly amounts in whole euros, rates in ten-thousandths.
#[derive(Debug, Clone, Copy, PartialEq, Eq, Structural)]
pub struct TaxRange {
    /// The taxable income from which this range applies.
    pub lower_limit: u32,
    /// The taxable income up to which this range applies.
    pub upper_limit: u32,
    /// The marginal rate at the lower end of the range, in ten-thousandths.
    pub rate_min: u32,
    /// The marginal rate at the upper end of the range, in ten-thousandths.
    pub rate_max: u32,
}

/// Configuration of the solidarity surtax that applies on large income-tax
/// amounts.
#[derive(Debug, Clone, Copy, PartialEq, Eq, Structural)]
pub struct SolidaryAdditionConfig {
    /// The income-tax amount in euros up to which no surtax applies.
    pub exemption_level: u32,
    /// The surtax rate applied on the income tax, in ten-thousandths.
    pub rate: u32,
    /// The cap on the surtax as a rate of the income tax above the exemption
    /// level, in ten-thousandths.
    pub max_percentage: u32,
}

/// Configuration of the income-tax calculation.
#[derive(Debug, Clone)]
pub struct IncomeTaxConfig {
    /// The progressive tax ranges, sorted ascending and contiguous from zero.
    pub tax_ranges: Vec<TaxRange>,
    /// The solidarity-surtax parameters.
    pub solidary_addition_config: SolidaryAdditionConfig,
}

/// All tax and social-insurance tables of one calendar year.
#[derive(Debug, Clone)]
pub struct Config {
    pub health_insurance: HealthInsuranceConfig,
    pub retirement_insurance: RetirementInsuranceConfig,
    pub unemployment_insurance: UnemploymentInsuranceConfig,
    pub income_tax: IncomeTaxConfig,
}

/// The tax ranges form a sorted, contiguous cover of the incomes starting at
/// zero, every range is non-empty, and every rate is a fraction of at most
/// 100 % with the minimum not above the maximum.
pub open spec fn wf_ranges(rs: Seq<TaxRange>) -> bool {
    &&& rs.len() >= 1
    &&& rs[0].lower_limit == 0
    &&& forall|i: int|
        0 <= i < rs.len() ==> (#[trigger] rs[i]).lower_limit < rs[i].upper_limit
    &&& forall|i: int|
        0 <= i < rs.len() ==> (#[trigger] rs[i]).rate_min <= rs[i].rate_max
    &&& forall|i: int| 0 <= i < rs.len() ==> (#[trigger] rs[i]).rate_max <= 10000
    &&& forall|i: int|
        0 <= i && i + 1 < rs.len() ==> (#[trigger] rs[i]).upper_limit == rs[i + 1].lower_limit
}

/// The surtax rates are fractions of at most 100 %.
pub open spec fn wf_solidary(c: SolidaryAdditionConfig) -> bool {
    &&& c.rate <= 10000
    &&& c.max_percentage <= 10000
}

pub open spec fn wf_income_tax(c: IncomeTaxConfig) -> bool {
    &&& wf_ranges(c.tax_ranges@)
    &&& wf_solidary(c.solidary_addition_config)
}

/// Every health-insurance premium rate is a fraction of at most 100 %.
pub open spec fn wf_health(c: HealthInsuranceConfig) -> bool {
    &&& c.premium_general <= 10000
    &&& c.premium_general_reduced <= 10000
    &&& c.premium_additional <= 10000
    &&& c.premium_nursing <= 10000
    &&& c.premium_nursing_additional <= 10000
}

pub open spec fn wf_retirement(c: RetirementInsuranceConfig) -> bool {
    c.premium <= 10000
}

pub open spec fn wf_unemployment(c: UnemploymentInsuranceConfig) -> bool {
    c.premium <= 10000
}

pub open spec fn wf_config(c: Config) -> bool {
    &&& wf_health(c.health_insurance)
    &&& wf_retirement(c.retirement_insurance)
    &&& wf_unemployment(c.unemployment_insurance)
    &&& wf_income_tax(c.income_tax)
}

/// The statutory tax ranges of the year 2025.
pub open spec fn spec_ranges_2025() -> Seq<TaxRange> {
    seq![
        (TaxRange { lower_limit: 0, upper_limit: 12096, rate_min: 0, rate_max: 0 }),
        (TaxRange { lower_limit: 12096, upper_limit: 17444, rate_min: 1400, rate_max: 2397 }),
        (TaxRange { lower_limit: 17444, upper_limit: 68480, rate_min: 2397, rate_max: 4200 }),
        (TaxRange { lower_limit: 68480, upper_limit: 277825, rate_min: 4200, rate_max: 4200 }),
        (TaxRange {
            lower_limit: 277825,
            upper_limit: 0xffff_ffff,
            rate_min: 4500,
            rate_max: 4500,
        }),
    ]
}

/// The statutory tax ranges of the year 2024.
pub open spec fn spec_ranges_2024() -> Seq<TaxRange> {
    seq![
        (TaxRange { lower_limit: 0, upper_limit: 11784, rate_min: 0, rate_max: 0 }),
        (TaxRange { lower_limit: 11784, upper_limit: 17005, rate_min: 1400, rate_max: 2397 }),
        (TaxRange { lower_limit: 17005, upper_limit: 66760, rate_min: 2397, rate_max: 4200 }),
        (TaxRange { lower_limit: 66760, upper_limit: 277825, rate_min: 4200, rate_max: 4200 }),
        (TaxRange {
            lower_limit: 277825,
            upper_limit: 0xffff_ffff,
            rate_min: 4500,
            rate_max: 4500,
        }),
    ]
}

/// Creates the configuration for the given year.
///
/// The years 2024 and 2025 are supported; every other year is rejected with
/// `TaxError::UnsupportedYear`.
pub fn create(year: u32) -> (r: Result<Config, crate::TaxError>)
    ensures
        r is Ok <==> (year == 2024 || year == 2025),
        r is Err ==> r == Result::<Config, crate::TaxError>::Err(crate::TaxError::UnsupportedYear),
        year == 2025 ==> {
            let c = r->Ok_0;
            &&& c.retirement_insurance == (RetirementInsuranceConfig {
                premium: 1860,
                max_income: 805000,
            })
            &&& c.health_insurance == (HealthInsuranceConfig {
                premium_general: 1460,
                premium_general_reduced: 1400,
                premium_additional: 245,
                premium_nursing: 360,
                premium_nursing_additional: 60,
                min_income: 124832,
                max_income: 551250,
            })
            &&& c.unemployment_insurance == (UnemploymentInsuranceConfig {
                premium: 260,
                max_income: 805000,
            })
            &&& c.income_tax.tax_ranges@ == spec_ranges_2025()
            &&& c.income_tax.solidary_addition_config == (SolidaryAdditionConfig {
                exemption_level: 19950,
                rate: 550,
                max_percentage: 1190,
            })
        },
        year == 2024 ==> {
            let c = r->Ok_0;
            &&& c.retirement_insurance == (RetirementInsuranceConfig {
                premium: 1860,
                max_income: 755000,
            })
            &&& c.health_insurance == (HealthInsuranceConfig {
                premium_general: 1460,
                premium_general_reduced: 1400,
                premium_additional: 120,
                premium_nursing: 340,
                premium_nursing_additional: 60,
                min_income: 117833,
                max_income: 517500,
            })
            &&& c.unemployment_insurance == (UnemploymentInsuranceConfig {
                premium: 260,
                max_income: 755000,
            })
            &&& c.income_tax.tax_ranges@ == spec_ranges_2024()
            &&& c.income_tax.solidary_addition_config == (SolidaryAdditionConfig {
                exemption_level: 18130,
                rate: 550,
                max_percentage: 1190,
            })
        },
        r is Ok ==> wf_config(r->Ok_0),
{
    match year {
        2025 => {
            let mut tax_ranges: Vec<TaxRange> = Vec::new();
            tax_ranges.push(TaxRange { lower_limit: 0, upper_limit: 12096, rate_min: 0, rate_max: 0 });
            tax_ranges.push(TaxRange {
                lower_limit: 12096,
                upper_limit: 17444,
                rate_min: 1400,
                rate_max: 2397,
            });
            tax_ranges.push(TaxRange {
                lower_limit: 17444,
                upper_limit: 68480,
                rate_min: 2397,
                rate_max: 4200,
            });
            tax_ranges.push(TaxRange {
                lower_limit: 68480,
                upper_limit: 277825,
                rate_min: 4200,
                rate_max: 4200,
            });
            tax_ranges.push(TaxRange {
                lower_limit: 277825,
                upper_limit: 0xffff_ffff,
                rate_min: 4500,
                rate_max: 4500,
            });
            proof {
                assert(tax_ranges@ =~= spec_ranges_2025());
                let rs = tax_ranges@;
                assert forall|i: int| 0 <= i < rs.len() implies {
                    &&& (#[trigger] rs[i]).lower_limit < rs[i].upper_limit
                    &&& rs[i].rate_min <= rs[i].rate_max
                    &&& rs[i].rate_max <= 10000
                    &&& i + 1 < rs.len() ==> rs[i].upper_limit == rs[i + 1].lower_limit
                } by {
                    assert(rs.len() == 5);
                    if i == 0 {
                    } else if i == 1 {
                    } else if i == 2 {
                    } else if i == 3 {
                    } else {
                        assert(i == 4);
                    }
                }
                assert(wf_ranges(rs));
            }
            Ok(Config {
                retirement_insurance: RetirementInsuranceConfig { premium: 1860, max_income: 805000 },
                health_insurance: HealthInsuranceConfig {
                    premium_general: 1460,
                    premium_general_reduced: 1400,
                    premium_additional: 245,
                    premium_nursing: 360,
                    premium_nursing_additional: 60,
                    min_income: 124832,
                    max_income: 551250,
                },
                unemployment_insurance: UnemploymentInsuranceConfig {
                    premium: 260,
                    max_income: 805000,
                },
                income_tax: IncomeTaxConfig {
                    tax_ranges,
                    solidary_addition_config: SolidaryAdditionConfig {
                        exemption_level: 19950,
                        rate: 550,
                        max_percentage: 1190,
                    },
                },
            })
        },
        2024 => {
            let mut tax_ranges: Vec<TaxRange> = Vec::new();
            tax_ranges.push(TaxRange { lower_limit: 0, upper_limit: 11784, rate_min: 0, rate_max: 0 });
            tax_ranges.push(TaxRange {
                lower_limit: 11784,
                upper_limit: 17005,
                rate_min: 1400,
                rate_max: 2397,
            });
            tax_ranges.push(TaxRange {
                lower_limit: 17005,
                upper_limit: 66760,
                rate_min: 2397,
                rate_max: 4200,
            });
            tax_ranges.push(TaxRange {
                lower_limit: 66760,
                upper_limit: 277825,
                rate_min: 4200,
                rate_max: 4200,
            });
            tax_ranges.push(TaxRange {
                lower_limit: 277825,
                upper_limit: 0xffff_ffff,
                rate_min: 4500,
                rate_max: 4500,
            });
            proof {
                assert(tax_ranges@ =~= spec_ranges_2024());
                let rs = tax_ranges@;
                assert forall|i: int| 0 <= i < rs.len() implies {
                    &&& (#[trigger] rs[i]).lower_limit < rs[i].upper_limit
                    &&& rs[i].rate_min <= rs[i].rate_max
                    &&& rs[i].rate_max <= 10000
                    &&& i + 1 < rs.len() ==> rs[i].upper_limit == rs[i + 1].lower_limit
                } by {
                    assert(rs.len() == 5);
                    if i == 0 {
                    } else if i == 1 {
                    } else if i == 2 {
                    } else if i == 3 {
                    } else {
                        assert(i == 4);
                    }
                }
                assert(wf_ranges(rs));
            }
            Ok(Config {
                retirement_insurance: RetirementInsuranceConfig { premium: 1860, max_income: 755000 },
                health_insurance: HealthInsuranceConfig {
                    premium_general: 1460,
                    premium_general_reduced: 1400,
                    premium_additional: 120,
                    premium_nursing: 340,
                    premium_nursing_additional: 60,
                    min_income: 117833,
                    max_income: 517500,
                },
                unemployment_insurance: UnemploymentInsuranceConfig {
                    premium: 260,
                    max_income: 755000,
                },
                income_tax: IncomeTaxConfig {
                    tax_ranges,
                    solidary_addition_config: SolidaryAdditionConfig {
                        exemption_level: 18130,
                        rate: 550,
                        max_percentage: 1190,
                    },
                },
            })
        },
        _ => Err(crate::TaxError::UnsupportedYear),
    }
}

} // verus!

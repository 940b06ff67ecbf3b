use net_income_germany::config::create;
use net_income_germany::config::{
    Config, HealthInsuranceConfig, IncomeTaxConfig, RetirementInsuranceConfig,
    SolidaryAdditionConfig, TaxRange, UnemploymentInsuranceConfig,
};
use net_income_germany::{calculate, calculate_reverse, TaxData, TaxError};

#[test]
fn test_negative_net_income_employed() {
    let config = create(2025).unwrap();

    let tax_data = TaxData {
        income: 0,
        expenses: 1500,
        fixed_retirement: None,
        self_employed: false,
        married: false,
    };

    let result = calculate(&config, &tax_data).unwrap();

    // no social security to be paid for employed person
    assert_eq!(result.social_security_taxes, 0);

    // net income is then just the negative expenses (no taxes)
    assert_eq!(
        result.net_income,
        tax_data.income as i32 - tax_data.expenses as i32
    );
}

#[test]
fn test_negative_net_income_self_employed() {
    let config = create(2025).unwrap();

    let tax_data = TaxData {
        income: 0,
        expenses: 1500,
        fixed_retirement: None,
        self_employed: true,
        married: false,
    };

    let result = calculate(&config, &tax_data).unwrap();

    // minimum social security need to be paid for self-employed person
    assert_eq!(result.social_security_taxes, 3093);

    // net income is then just the negative expenses (no taxes)
    assert_eq!(
        result.net_income,
        tax_data.income as i32 - tax_data.expenses as i32 - result.social_security_taxes as i32
    );
}

#[test]
fn test_reverse_tax_calculation() {
    let config = create(2025).unwrap();

    let tax_data_gross = TaxData {
        income: 43000,
        expenses: 1500,
        fixed_retirement: None,
        self_employed: false,
        married: false,
    };

    // calculate net income from the given gross income
    let net_income = calculate(&config, &tax_data_gross).unwrap();

    // use the resulting net income then as input for the reverse tax calculation
    let mut tax_data_net = tax_data_gross.clone();
    tax_data_net.income = net_income.net_income as u32;

    // do the reverse calculation and expect that the same gross income is calculated again
    let gross_income = calculate_reverse(&config, &tax_data_net).unwrap();
    // the gross income can vary a bit due to rounding up of the net income
    assert!((tax_data_gross.income as i32 - gross_income.gross_income).abs() <= 1);
}

#[test]
fn end_to_end_forward_and_reverse_2025() {
    let config = create(2025).unwrap();

    let tax_data = TaxData {
        income: 80000,
        expenses: 5300,
        fixed_retirement: None,
        self_employed: false,
        married: false,
    };

    let forward = calculate(&config, &tax_data).unwrap();
    assert_eq!(forward.gross_income, 80000);
    // the outcome is consistent: the deductions account for the whole
    // difference of gross and net income
    assert_eq!(
        forward.net_income,
        forward.gross_income
            - tax_data.expenses as i32
            - forward.social_security_taxes as i32
            - forward.income_taxes as i32
    );

    // feeding the net income back recovers the gross income within one euro
    let mut reverse_data = tax_data.clone();
    reverse_data.income = forward.net_income as u32;
    let reverse = calculate_reverse(&config, &reverse_data).unwrap();
    assert_eq!(reverse.net_income, forward.net_income);
    assert!((reverse.gross_income - 80000i32).abs() <= 1);
}

#[test]
fn unsupported_year_is_rejected() {
    assert_eq!(create(2000).err(), Some(TaxError::UnsupportedYear));
    assert_eq!(create(2023).err(), Some(TaxError::UnsupportedYear));
    assert!(create(2024).is_ok());
    assert!(create(2025).is_ok());
}

#[test]
fn too_large_income_is_rejected() {
    let config = create(2025).unwrap();

    let tax_data = TaxData {
        income: i32::MAX as u32 + 1,
        expenses: 0,
        fixed_retirement: None,
        self_employed: false,
        married: false,
    };

    assert_eq!(calculate(&config, &tax_data), Err(TaxError::InputTooLarge));
}

#[test]
fn too_large_expenses_are_rejected() {
    let config = create(2025).unwrap();

    // the net income would fall below the smallest signed 32-bit value
    let tax_data = TaxData {
        income: 0,
        expenses: u32::MAX,
        fixed_retirement: None,
        self_employed: false,
        married: false,
    };

    assert_eq!(calculate(&config, &tax_data), Err(TaxError::InputTooLarge));
}

#[test]
fn unreachable_net_income_reports_non_convergence() {
    // a single range taxing every euro at 100 % makes the net income zero for
    // every gross income, so a positive target can never be reached
    let config = Config {
        health_insurance: HealthInsuranceConfig {
            premium_general: 0,
            premium_general_reduced: 0,
            premium_additional: 0,
            premium_nursing: 0,
            premium_nursing_additional: 0,
            min_income: 0,
            max_income: 0,
        },
        retirement_insurance: RetirementInsuranceConfig {
            premium: 0,
            max_income: 0,
        },
        unemployment_insurance: UnemploymentInsuranceConfig {
            premium: 0,
            max_income: 0,
        },
        income_tax: IncomeTaxConfig {
            tax_ranges: vec![TaxRange {
                lower_limit: 0,
                upper_limit: u32::MAX,
                rate_min: 10000,
                rate_max: 10000,
            }],
            solidary_addition_config: SolidaryAdditionConfig {
                exemption_level: u32::MAX,
                rate: 0,
                max_percentage: 0,
            },
        },
    };

    let tax_data = TaxData {
        income: 5,
        expenses: 0,
        fixed_retirement: None,
        self_employed: false,
        married: false,
    };

    assert_eq!(
        calculate_reverse(&config, &tax_data),
        Err(TaxError::NonConvergence)
    );
}

#[test]
fn net_income_is_monotone_in_gross_income_2025() {
    let config = create(2025).unwrap();

    let mut previous: i32 = i32::MIN;
    for income in [0u32, 1000, 12000, 17444, 40000, 66150, 80000, 120000] {
        let tax_data = TaxData {
            income,
            expenses: 500,
            fixed_retirement: None,
            self_employed: false,
            married: false,
        };
        let result = calculate(&config, &tax_data).unwrap();
        assert!(result.net_income >= previous);
        previous = result.net_income;
    }
}

#[test]
fn married_splitting_can_cost_net_income_at_range_edges() {
    // With premium-free insurance tables and the 2024 tax ranges, one more
    // euro of gross income lifts the halved income into the taxed range and
    // the doubled split tax grows by two euros at once: the net income falls
    // from 23583 to 23582. This truncation step is why net income is monotone
    // in gross income only for single filers.
    let mut config = create(2024).unwrap();
    config.health_insurance.premium_general = 0;
    config.health_insurance.premium_general_reduced = 0;
    config.health_insurance.premium_additional = 0;
    config.health_insurance.premium_nursing = 0;
    config.health_insurance.premium_nursing_additional = 0;
    config.retirement_insurance.premium = 0;
    config.unemployment_insurance.premium = 0;

    let mut tax_data = TaxData {
        income: 23583,
        expenses: 0,
        fixed_retirement: None,
        self_employed: false,
        married: true,
    };
    let below = calculate(&config, &tax_data).unwrap();
    assert_eq!(below.income_taxes, 0);
    assert_eq!(below.net_income, 23583);

    tax_data.income = 23584;
    let above = calculate(&config, &tax_data).unwrap();
    assert_eq!(above.income_taxes, 2);
    assert_eq!(above.net_income, 23582);
}

#[test]
fn oversized_reverse_target_reports_input_too_large() {
    let config = create(2025).unwrap();

    // the first gross-income estimate for this target is far above the
    // representable signed range, so the forward calculation inside the
    // solver fails at once
    let tax_data = TaxData {
        income: 3_000_000_000,
        expenses: 0,
        fixed_retirement: None,
        self_employed: false,
        married: false,
    };

    assert_eq!(
        calculate_reverse(&config, &tax_data),
        Err(TaxError::InputTooLarge)
    );
}

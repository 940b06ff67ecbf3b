use net_income_germany::config::create as create_config;
use net_income_germany::social_security::calculate;
use net_income_germany::TaxData;

struct Data {
    i: u32,
    o: u32,
}

fn test_social_security(
    test_data: &Vec<Data>,
    year: u32,
    self_employed: bool,
    fixed_retirement: Option<u32>,
) {
    let config = create_config(year).unwrap();

    for data in test_data {
        let tax_data = TaxData {
            income: data.i,
            expenses: 0,
            fixed_retirement: fixed_retirement,
            self_employed: self_employed,
            married: false,
        };

        let result = calculate(
            &config.health_insurance,
            &config.retirement_insurance,
            &config.unemployment_insurance,
            &tax_data,
        )
        .unwrap();
        assert_eq!(result, data.o);
    }
}

#[test]
fn test_social_security_calculation_2024() {
    let test_data = vec![
        Data { i: 12000, o: 2496 },
        Data { i: 25132, o: 5227 },
        Data { i: 62100, o: 12916 },
        Data { i: 90600, o: 15937 },
        Data { i: 99999, o: 15937 },
    ];

    test_social_security(&test_data, 2024, false, None);
}

#[test]
fn test_social_security_calculation_self_employed_2025() {
    let test_data = vec![
        Data { i: 12000, o: 3093 },
        Data { i: 25128, o: 5188 },
        Data { i: 62100, o: 12823 },
        Data { i: 66150, o: 13659 },
        Data { i: 99999, o: 13659 },
    ];

    test_social_security(&test_data, 2025, true, Some(0));
}

#[test]
fn social_security_test_with_maximum_input_value() {
    let config = create_config(2025).unwrap();

    let tax_data = TaxData {
        income: u32::MAX,
        expenses: 0,
        fixed_retirement: None,
        self_employed: false,
        married: false,
    };

    let result = calculate(
        &config.health_insurance,
        &config.retirement_insurance,
        &config.unemployment_insurance,
        &tax_data,
    )
    .unwrap();
    assert_eq!(result, 17466);
}

#[test]
fn self_employed_pay_no_unemployment_premium() {
    let mut config = create_config(2025).unwrap();

    let tax_data = TaxData {
        income: 40000,
        expenses: 0,
        fixed_retirement: None,
        self_employed: true,
        married: false,
    };

    let with_normal_rate = calculate(
        &config.health_insurance,
        &config.retirement_insurance,
        &config.unemployment_insurance,
        &tax_data,
    )
    .unwrap();

    // the unemployment scheme does not apply to self-employed persons, so
    // even an extreme unemployment rate leaves the total unchanged
    config.unemployment_insurance.premium = 9999;
    let with_extreme_rate = calculate(
        &config.health_insurance,
        &config.retirement_insurance,
        &config.unemployment_insurance,
        &tax_data,
    )
    .unwrap();

    assert_eq!(with_normal_rate, with_extreme_rate);
}

#[test]
fn employed_premiums_reflect_the_employer_split_2024() {
    let config = create_config(2024).unwrap();

    // income 12000 is below every cap; the employee pays half of the shared
    // health rates (14.6 % + 1.2 % + 3.4 %) plus the full nursing surcharge
    // of 0.6 %, half of the retirement rate 18.6 % and half of the
    // unemployment rate 2.6 %:
    // 12000 * (0.102 + 0.093 + 0.013) = 2496
    let tax_data = TaxData {
        income: 12000,
        expenses: 0,
        fixed_retirement: None,
        self_employed: false,
        married: false,
    };

    let result = calculate(
        &config.health_insurance,
        &config.retirement_insurance,
        &config.unemployment_insurance,
        &tax_data,
    )
    .unwrap();
    assert_eq!(result, 1224 + 1116 + 156);
}

#[test]
fn fixed_retirement_replaces_the_percentage_premium() {
    let config = create_config(2025).unwrap();

    let tax_data = TaxData {
        income: 40000,
        expenses: 0,
        fixed_retirement: Some(800),
        self_employed: false,
        married: false,
    };

    let result = calculate(
        &config.health_insurance,
        &config.retirement_insurance,
        &config.unemployment_insurance,
        &tax_data,
    )
    .unwrap();
    // health 40000 * 0.10925 = 4370, retirement 800 * 12 = 9600,
    // unemployment 40000 * 0.013 = 520
    assert_eq!(result, 4370 + 9600 + 520);
}

#[test]
fn oversized_fixed_retirement_is_rejected() {
    let config = create_config(2025).unwrap();

    let tax_data = TaxData {
        income: 40000,
        expenses: 0,
        fixed_retirement: Some(u32::MAX),
        self_employed: false,
        married: false,
    };

    let result = calculate(
        &config.health_insurance,
        &config.retirement_insurance,
        &config.unemployment_insurance,
        &tax_data,
    );
    assert_eq!(result, Err(net_income_germany::TaxError::InputTooLarge));
}

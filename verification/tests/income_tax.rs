use net_income_germany::config::create as create_config;
use net_income_germany::income_tax::calculate;

struct Data {
    i: u32,
    o: u64,
}

fn test_tax_calculation(test_data: &Vec<Data>, year: u32, together: bool) {
    let config = create_config(year).unwrap();

    for data in test_data {
        let result = calculate(&config.income_tax, data.i, together);
        assert_eq!(result, data.o);
    }
}

#[test]
fn test_tax_calculation_2024() {
    // the test data is based on the income tax calculator of the
    // German ministry of finances (https://www.bmf-steuerrechner.de)
    let test_data = vec![
        Data { i: 11791, o: 0 },
        Data { i: 11792, o: 1 },
        Data { i: 17008, o: 991 },
        Data { i: 18000, o: 1231 },
        Data { i: 46231, o: 9544 },
        Data { i: 66760, o: 17402 },
        Data {
            i: 277825,
            o: 111882,
        },
    ];

    test_tax_calculation(&test_data, 2024, false);
}

#[test]
fn test_tax_calculation_married_2024() {
    // the test data is based on the income tax calculator of the
    // German ministry of finances (https://www.bmf-steuerrechner.de)
    let test_data = vec![
        Data { i: 23583, o: 0 },
        Data { i: 23584, o: 2 },
        Data { i: 50000, o: 6046 },
        Data { i: 66760, o: 10804 },
        Data {
            i: 277825,
            o: 100659,
        },
        Data {
            i: 555650,
            o: 223765,
        },
    ];

    test_tax_calculation(&test_data, 2024, true);
}

#[test]
fn income_tax_test_with_maximum_input_value() {
    let config = create_config(2025).unwrap();

    let result = calculate(&config.income_tax, u32::MAX, false);
    assert!(result > 2000000000); // check that there won't be some overflow that leads to a small result value
}

#[test]
fn tax_is_zero_below_first_range_2025() {
    let config = create_config(2025).unwrap();

    // every income below the upper limit of the zero-rate range is tax free
    assert_eq!(calculate(&config.income_tax, 0, false), 0);
    assert_eq!(calculate(&config.income_tax, 12095, false), 0);
    assert_eq!(calculate(&config.income_tax, 12096, false), 0);
    assert_eq!(calculate(&config.income_tax, 12097, false), 0);
}

#[test]
fn tax_is_monotone_2024() {
    let config = create_config(2024).unwrap();

    let mut previous: u64 = 0;
    for income in [0u32, 11784, 11785, 17005, 20000, 66760, 66761, 277825, 400000] {
        let tax = calculate(&config.income_tax, income, false);
        assert!(tax >= previous);
        previous = tax;
    }
}

#[test]
fn splitting_doubles_the_half_income_tax_2024() {
    let config = create_config(2024).unwrap();

    for income in [23584u32, 50000, 66760, 100001, 277825] {
        let split = calculate(&config.income_tax, income, true);
        let half_single = calculate(&config.income_tax, income / 2, false);
        // both sides are below the doubled surtax exemption here, so the
        // split tax is exactly twice the single-filer tax on half the income
        if split < 2 * 18130 {
            assert_eq!(split, 2 * half_single);
        } else {
            // otherwise the doubled surtax may differ by one truncation unit
            assert!(split == 2 * half_single || split == 2 * half_single + 1);
        }
    }
}

#[test]
fn surtax_is_zero_below_exemption_and_capped_above_2024() {
    let config = create_config(2024).unwrap();

    // taxable income 66760 gives base tax 17402, below the exemption level
    // 18130: no surtax is added
    assert_eq!(calculate(&config.income_tax, 66760, false), 17402);

    // taxable income 69000 gives base tax 18343, just above the exemption:
    // the surtax is the capped (18343 - 18130) * 0.119 = 25, far below
    // 18343 * 0.055
    assert_eq!(calculate(&config.income_tax, 69000, false), 18343 + 25);
}

#[test]
fn range_width_is_upper_minus_lower() {
    let range = net_income_germany::config::TaxRange {
        lower_limit: 12096,
        upper_limit: 17444,
        rate_min: 1400,
        rate_max: 2397,
    };
    assert_eq!(range.range(), 5348);
}

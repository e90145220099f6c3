use creator_economy::curves::{CurveConfig, CurveType};

#[test]
fn curve_configs_match_variants() {
    let exp = CurveType::Exponential.get_curve_config();
    assert_eq!(exp, CurveConfig { exponent: 10, slope: 10 });
    let flat = CurveType::Flat.get_curve_config();
    assert_eq!(flat, CurveConfig { exponent: 100, slope: 100 });
    let lin = CurveType::Linear.get_curve_config();
    assert_eq!(lin, CurveConfig { exponent: 50, slope: 100 });
    let log = CurveType::Logarithmic.get_curve_config();
    assert_eq!(log, CurveConfig { exponent: 90, slope: 100 });
}

#[test]
fn default_config_is_unit_linear() {
    let d = CurveConfig::default();
    assert_eq!(d, CurveConfig { exponent: 1, slope: 1 });
}

#[test]
fn integral_is_zero_at_zero_for_every_variant() {
    let variants = [
        CurveType::Linear,
        CurveType::Exponential,
        CurveType::Flat,
        CurveType::Logarithmic,
    ];
    for v in variants {
        let cfg = v.get_curve_config();
        assert_eq!(cfg.integral(0), Some(0));
    }
}

#[test]
fn integral_matches_closed_form_for_unit_linear() {
    // exponent 1, slope 1: integral(x) = x^2 / 2
    let cfg = CurveConfig::default();
    assert_eq!(cfg.integral(10), Some(50));
    assert_eq!(cfg.integral(7), Some(24)); // 49 / 2 truncated
}

#[test]
fn integral_exact_values_on_the_exponential_curve() {
    // exponent 10, slope 10: integral(x) = x^11 * 10 / 11
    let cfg = CurveType::Exponential.get_curve_config();
    assert_eq!(cfg.integral(2), Some(1861));
    assert_eq!(cfg.integral(5), Some(44389204));
    assert_eq!(cfg.integral(12), Some(675462155170));
}

#[test]
fn integral_overflow_is_reported_not_wrapped() {
    // 12^51 * 100 does not fit in 128 bits
    let cfg = CurveType::Linear.get_curve_config();
    assert_eq!(cfg.integral(12), None);
    // and the Flat variant's power is astronomically larger still
    let flat = CurveType::Flat.get_curve_config();
    assert_eq!(flat.integral(3), None);
}

#[test]
fn integral_is_monotone_on_samples() {
    let cfg = CurveType::Exponential.get_curve_config();
    let a = cfg.integral(2).unwrap();
    let b = cfg.integral(5).unwrap();
    let c = cfg.integral(12).unwrap();
    assert!(a <= b && b <= c);
    assert!(b - a <= c - a);
}

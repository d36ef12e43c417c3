use gpu_telemetry::formatter::Formatter;

fn lines(items: &[&str]) -> Vec<String> {
    items.iter().map(|s| s.to_string()).collect()
}

fn params(pairs: &[(&str, &str)]) -> Option<Vec<(String, String)>> {
    Some(pairs.iter().map(|(k, v)| (k.to_string(), v.to_string())).collect())
}

#[test]
fn identity_returns_first_line_unchanged() {
    let f = Formatter::Identity;
    assert_eq!(f.apply(&lines(&["GeForce RTX 3080"]), &None), Some("GeForce RTX 3080".to_string()));
}

#[test]
fn identity_ignores_later_lines() {
    let f = Formatter::Identity;
    assert_eq!(f.apply(&lines(&["a", "b"]), &None), Some("a".to_string()));
}

#[test]
fn percentage_appends_percent() {
    let f = Formatter::Percentage;
    assert_eq!(f.apply(&lines(&["42"]), &None), Some("42 %".to_string()));
}

#[test]
fn memory_appends_mib() {
    let f = Formatter::MemorySize;
    assert_eq!(f.apply(&lines(&["1024"]), &None), Some("1024 MiB".to_string()));
}

#[test]
fn power_floors_and_appends_watts() {
    let f = Formatter::Power;
    assert_eq!(f.apply(&lines(&["12.7"]), &None), Some("12 W".to_string()));
}

#[test]
fn power_on_non_number_is_none() {
    let f = Formatter::Power;
    assert_eq!(f.apply(&lines(&["abc"]), &None), None);
}

#[test]
fn power_on_empty_line_is_none() {
    let f = Formatter::Power;
    assert_eq!(f.apply(&lines(&[""]), &None), None);
}

#[test]
fn power_floors_toward_negative_infinity() {
    let f = Formatter::Power;
    assert_eq!(f.apply(&lines(&["-3.5"]), &None), Some("-4 W".to_string()));
}

#[test]
fn temperature_without_params_is_celsius() {
    let f = Formatter::Temperature;
    assert_eq!(f.apply(&lines(&["70"]), &None), Some("70\u{00B0}C".to_string()));
}

#[test]
fn temperature_fahrenheit_converts_and_floors() {
    let f = Formatter::Temperature;
    let p = params(&[("tempformat", "F")]);
    assert_eq!(f.apply(&lines(&["70"]), &p), Some("158\u{00B0}F".to_string()));
}

#[test]
fn temperature_fahrenheit_fractional() {
    let f = Formatter::Temperature;
    let p = params(&[("tempformat", "F")]);
    // 36.6 * 9/5 + 32 = 97.88, floored to 97.
    assert_eq!(f.apply(&lines(&["36.6"]), &p), Some("97\u{00B0}F".to_string()));
}

#[test]
fn temperature_explicit_celsius_param() {
    let f = Formatter::Temperature;
    let p = params(&[("tempformat", "C")]);
    assert_eq!(f.apply(&lines(&["70"]), &p), Some("70\u{00B0}C".to_string()));
}

#[test]
fn temperature_celsius_takes_precedence_over_fahrenheit() {
    let f = Formatter::Temperature;
    let p = params(&[("tempformat", "C"), ("tempformat", "F")]);
    assert_eq!(f.apply(&lines(&["70"]), &p), Some("70\u{00B0}C".to_string()));
}

#[test]
fn temperature_unknown_unit_is_celsius() {
    let f = Formatter::Temperature;
    let p = params(&[("tempformat", "K")]);
    assert_eq!(f.apply(&lines(&["70"]), &p), Some("70\u{00B0}C".to_string()));
}

#[test]
fn temperature_celsius_does_not_validate_number() {
    let f = Formatter::Temperature;
    assert_eq!(f.apply(&lines(&["abc"]), &None), Some("abc\u{00B0}C".to_string()));
}

#[test]
fn temperature_fahrenheit_on_non_number_is_none() {
    let f = Formatter::Temperature;
    let p = params(&[("tempformat", "F")]);
    assert_eq!(f.apply(&lines(&["abc"]), &p), None);
}

#[test]
fn field_percentage_extracts_first_field() {
    let f = Formatter::FieldPercentage { index: 0 };
    assert_eq!(
        f.apply(&lines(&["graphics=2, memory=1, video=0, PCIe=1"]), &None),
        Some("2 %".to_string())
    );
}

#[test]
fn field_percentage_extracts_second_field() {
    let f = Formatter::FieldPercentage { index: 1 };
    assert_eq!(
        f.apply(&lines(&["graphics=2, memory=1, video=0, PCIe=1"]), &None),
        Some("1 %".to_string())
    );
}

#[test]
fn field_percentage_without_equals_is_none() {
    let f = Formatter::FieldPercentage { index: 0 };
    assert_eq!(f.apply(&lines(&["graphics"]), &None), None);
}

#[test]
fn field_percentage_out_of_range_index_is_none() {
    let f = Formatter::FieldPercentage { index: 5 };
    assert_eq!(f.apply(&lines(&["graphics=2, memory=1"]), &None), None);
}

#[test]
fn formatters_yield_none_on_empty_line_list() {
    let empty: Vec<String> = Vec::new();
    assert_eq!(Formatter::Identity.apply(&empty, &None), None);
    assert_eq!(Formatter::Percentage.apply(&empty, &None), None);
    assert_eq!(Formatter::MemorySize.apply(&empty, &None), None);
    assert_eq!(Formatter::Power.apply(&empty, &None), None);
    assert_eq!(Formatter::Temperature.apply(&empty, &None), None);
}

#[test]
fn apply_is_idempotent_on_identical_inputs() {
    let cases: Vec<(Formatter, Vec<String>, Option<Vec<(String, String)>>)> = vec![
        (Formatter::Identity, lines(&["x"]), None),
        (Formatter::Percentage, lines(&["42"]), None),
        (Formatter::MemorySize, lines(&["1024"]), None),
        (Formatter::Power, lines(&["12.7"]), None),
        (Formatter::Temperature, lines(&["70"]), params(&[("tempformat", "F")])),
        (Formatter::Temperature, lines(&["70"]), None),
        (Formatter::FieldPercentage { index: 0 }, lines(&["graphics=2, memory=1"]), None),
    ];
    for (f, ls, ps) in cases {
        let first = f.apply(&ls, &ps);
        let second = f.apply(&ls, &ps);
        let third = f.apply(&ls, &ps);
        assert_eq!(first, second);
        assert_eq!(second, third);
    }
}

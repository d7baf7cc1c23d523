use bid::time::TimeRange;
use bid::time::TimeUnit;

#[test]
fn month_uses_two_letter_suffix() {
    let t = TimeRange { scalar: 1, unit: TimeUnit::Month };
    assert_eq!(t.to_string(), "1mo");
}

#[test]
fn minute_uses_single_letter_suffix() {
    let t = TimeRange { scalar: 10, unit: TimeUnit::Minute };
    assert_eq!(t.to_string(), "10m");
}

#[test]
fn all_suffixes_render() {
    assert_eq!(TimeRange { scalar: 1, unit: TimeUnit::Minute }.to_string(), "1m");
    assert_eq!(TimeRange { scalar: 2, unit: TimeUnit::Hour }.to_string(), "2h");
    assert_eq!(TimeRange { scalar: 3, unit: TimeUnit::Day }.to_string(), "3d");
    assert_eq!(TimeRange { scalar: 4, unit: TimeUnit::Month }.to_string(), "4mo");
    assert_eq!(TimeRange { scalar: 5, unit: TimeUnit::Year }.to_string(), "5y");
}

#[test]
fn multi_digit_scalars_render_in_full() {
    assert_eq!(TimeRange { scalar: 365, unit: TimeUnit::Day }.to_string(), "365d");
    assert_eq!(TimeRange { scalar: 100, unit: TimeUnit::Year }.to_string(), "100y");
    assert_eq!(
        TimeRange { scalar: u64::MAX, unit: TimeUnit::Year }.to_string(),
        "18446744073709551615y"
    );
}

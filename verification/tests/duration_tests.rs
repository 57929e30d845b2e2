use gradle_profiler::parser::ProfileParser;
use gradle_profiler::report::ReportGenerator;

#[test]
fn parses_zero_seconds() {
    assert_eq!(ProfileParser::parse_duration("0s"), 0);
}

#[test]
fn parses_fractional_seconds() {
    assert_eq!(ProfileParser::parse_duration("45.2s"), 45200);
}

#[test]
fn parses_minutes_and_seconds() {
    assert_eq!(ProfileParser::parse_duration("1m13.54s"), 73540);
}

#[test]
fn parses_bare_minutes() {
    assert_eq!(ProfileParser::parse_duration("2m"), 120000);
}

#[test]
fn parses_exact_scenario_values() {
    assert_eq!(ProfileParser::parse_duration("2m0s"), 120000);
    assert_eq!(ProfileParser::parse_duration("35.0s"), 35000);
    assert_eq!(ProfileParser::parse_duration("30.0s"), 30000);
    assert_eq!(ProfileParser::parse_duration("10.0s"), 10000);
}

#[test]
fn millisecond_suffix_is_not_minutes() {
    // the two-character suffix is classified once and contributes nothing;
    // it must never be read as a minutes marker
    assert_eq!(ProfileParser::parse_duration("100ms"), 0);
    assert_eq!(ProfileParser::parse_duration("1m100ms"), 60000);
}

#[test]
fn malformed_components_degrade_to_zero() {
    assert_eq!(ProfileParser::parse_duration(""), 0);
    assert_eq!(ProfileParser::parse_duration("abc"), 0);
    // a fractional count fails to parse as whole minutes
    assert_eq!(ProfileParser::parse_duration("1.5m"), 0);
    // digits past the machine word fail to parse and count as zero
    assert_eq!(ProfileParser::parse_duration("99999999999999999999999999m"), 0);
}

#[test]
fn only_first_component_of_each_unit_counts() {
    assert_eq!(ProfileParser::parse_duration("1s2s"), 1000);
    assert_eq!(ProfileParser::parse_duration("1m2m"), 60000);
}

#[test]
fn fraction_digits_beyond_thousandths_round_down() {
    assert_eq!(ProfileParser::parse_duration("1.2345s"), 1234);
    assert_eq!(ProfileParser::parse_duration("0.107s"), 107);
}

#[test]
fn sum_of_components_saturates() {
    // a minutes count at the machine-word bound parses, and the total
    // saturates rather than wrapping
    assert_eq!(
        ProfileParser::parse_duration("18446744073709551615m"),
        u64::MAX
    );
}

#[test]
fn formats_durations() {
    assert_eq!(ReportGenerator::format_duration(73540), "1m 13s");
    assert_eq!(ReportGenerator::format_duration(45200), "45.2s");
    assert_eq!(ReportGenerator::format_duration(500), "0.5s");
    assert_eq!(ReportGenerator::format_duration(60000), "60.0s");
    assert_eq!(ReportGenerator::format_duration(61000), "1m 1s");
    assert_eq!(ReportGenerator::format_duration(120000), "2m 0s");
    assert_eq!(ReportGenerator::format_duration(0), "0.0s");
}

use duration_str::{opt_unit_abbr, render_error, unit_abbr1, DError, TimeUnit};

#[test]
fn unit_test_time_unit_abbr() {
    assert_eq!(unit_abbr1("y"), Ok(("", TimeUnit::Year)));
    assert_eq!(unit_abbr1("mon"), Ok(("", TimeUnit::Month)));
    assert_eq!(unit_abbr1("w"), Ok(("", TimeUnit::Week)));
    assert_eq!(unit_abbr1("d"), Ok(("", TimeUnit::Day)));
    assert_eq!(unit_abbr1("h"), Ok(("", TimeUnit::Hour)));
    assert_eq!(unit_abbr1("m"), Ok(("", TimeUnit::Minute)));
    assert_eq!(unit_abbr1("s"), Ok(("", TimeUnit::Second)));
    assert_eq!(unit_abbr1("ms"), Ok(("", TimeUnit::MilliSecond)));
    assert_eq!(unit_abbr1("µs"), Ok(("", TimeUnit::MicroSecond)));
    assert_eq!(unit_abbr1("ns"), Ok(("", TimeUnit::NanoSecond)));
}

#[test]
fn unit_test_time_unit() {
    let (input, format) = unit_abbr1("m123").unwrap();
    assert_eq!(input, "123");
    assert_eq!(format, TimeUnit::Minute);
}

#[test]
fn unit_test_opt_unit_abbr() {
    assert_eq!(opt_unit_abbr("y"), Ok(("", TimeUnit::Year)));
    assert_eq!(opt_unit_abbr("mon"), Ok(("", TimeUnit::Month)));
    assert_eq!(opt_unit_abbr("w"), Ok(("", TimeUnit::Week)));
    assert_eq!(opt_unit_abbr("d"), Ok(("", TimeUnit::Day)));
    assert_eq!(opt_unit_abbr("h"), Ok(("", TimeUnit::Hour)));
    assert_eq!(opt_unit_abbr("m"), Ok(("", TimeUnit::Minute)));
    assert_eq!(opt_unit_abbr("s"), Ok(("", TimeUnit::Second)));
    assert_eq!(opt_unit_abbr("ms"), Ok(("", TimeUnit::MilliSecond)));
    assert_eq!(opt_unit_abbr("µs"), Ok(("", TimeUnit::MicroSecond)));
    assert_eq!(opt_unit_abbr("ns"), Ok(("", TimeUnit::NanoSecond)));
    assert_eq!(opt_unit_abbr(""), Ok(("", TimeUnit::Second)));
    assert_eq!(opt_unit_abbr("        "), Ok(("", TimeUnit::Second)));
}

#[test]
fn unit2_test_time_unit_abbr() {
    assert_eq!(unit_abbr1("y"), Ok(("", TimeUnit::Year)));
    assert_eq!(unit_abbr1("mon"), Ok(("", TimeUnit::Month)));
    assert_eq!(unit_abbr1("w"), Ok(("", TimeUnit::Week)));
    assert_eq!(unit_abbr1("d"), Ok(("", TimeUnit::Day)));
    assert_eq!(unit_abbr1("h"), Ok(("", TimeUnit::Hour)));
    assert_eq!(unit_abbr1("m"), Ok(("", TimeUnit::Minute)));
    assert_eq!(unit_abbr1("s"), Ok(("", TimeUnit::Second)));
    assert_eq!(unit_abbr1("ms"), Ok(("", TimeUnit::MilliSecond)));
    assert_eq!(unit_abbr1("µs"), Ok(("", TimeUnit::MicroSecond)));
    assert_eq!(unit_abbr1("ns"), Ok(("", TimeUnit::NanoSecond)));
}

#[test]
fn unit2_test_time_unit() {
    let (input, format) = unit_abbr1("m123").unwrap();
    assert_eq!(input, "123");
    assert_eq!(format, TimeUnit::Minute);
}

#[test]
fn unit2_test_opt_unit_abbr() {
    assert_eq!(opt_unit_abbr("y"), Ok(("", TimeUnit::Year)));
    assert_eq!(opt_unit_abbr("mon"), Ok(("", TimeUnit::Month)));
    assert_eq!(opt_unit_abbr("w"), Ok(("", TimeUnit::Week)));
    assert_eq!(opt_unit_abbr("d"), Ok(("", TimeUnit::Day)));
    assert_eq!(opt_unit_abbr("h"), Ok(("", TimeUnit::Hour)));
    assert_eq!(opt_unit_abbr("m"), Ok(("", TimeUnit::Minute)));
    assert_eq!(opt_unit_abbr("s"), Ok(("", TimeUnit::Second)));
    assert_eq!(opt_unit_abbr("ms"), Ok(("", TimeUnit::MilliSecond)));
    assert_eq!(opt_unit_abbr("µs"), Ok(("", TimeUnit::MicroSecond)));
    assert_eq!(opt_unit_abbr("ns"), Ok(("", TimeUnit::NanoSecond)));
    assert_eq!(opt_unit_abbr(""), Ok(("", TimeUnit::Second)));
    assert_eq!(opt_unit_abbr("        "), Ok(("", TimeUnit::Second)));
}

#[test]
fn unit_test_unit_abbr1_err() {
    let expect_err = r#"
nys
^
expected ["y", "mon", "w", "d", "h", "m", "s", "ms", "µs", "us", "ns"]"#;
    assert_eq!(
        render_error("nys", unit_abbr1("nys").err().unwrap()),
        expect_err.trim_start()
    );

    let expect_err = r#"
^
expected ["y", "mon", "w", "d", "h", "m", "s", "ms", "µs", "us", "ns"]"#;
    assert_eq!(render_error("", unit_abbr1("").err().unwrap()), expect_err);
}

#[test]
fn unit_test_opt_unit_abbr_err() {
    let expect_err = r#"
nys
^
expected ["y", "mon", "w", "d", "h", "m", "s", "ms", "µs", "us", "ns"]"#;
    assert_eq!(
        render_error("nys", opt_unit_abbr("nys").err().unwrap()),
        expect_err.trim_start()
    );
}

#[test]
fn unit_duration_multiplies_and_checks() {
    assert_eq!(TimeUnit::Minute.duration("2"), Ok(120_000_000_000));
    assert_eq!(TimeUnit::Year.duration("1000"), Err(DError::OverflowError));
    assert_eq!(
        TimeUnit::NanoSecond.duration("18446744073709551616"),
        Err(DError::ParseError(
            "number too large to fit in target type".to_string()
        ))
    );
    assert_eq!(TimeUnit::NanoSecond.duration("18446744073709551615"), Ok(u64::MAX));
    assert_eq!(TimeUnit::Second.duration("+5"), Ok(5_000_000_000));
    assert_eq!(
        TimeUnit::Second.duration(""),
        Err(DError::ParseError(
            "cannot parse integer from empty string".to_string()
        ))
    );
    for bad in ["1a", "+", "-5", "++1", " 1"] {
        assert_eq!(
            TimeUnit::Second.duration(bad),
            Err(DError::ParseError("invalid digit found in string".to_string()))
        );
    }
}

#[test]
fn unit_words_ignore_case_and_plurals() {
    assert_eq!(unit_abbr1("Hours"), Ok(("", TimeUnit::Hour)));
    assert_eq!(unit_abbr1("MICROSECONDS+1"), Ok(("+1", TimeUnit::MicroSecond)));
    assert!(unit_abbr1("mins").is_err());
    assert_eq!(opt_unit_abbr("  +3"), Ok(("+3", TimeUnit::Second)));
}

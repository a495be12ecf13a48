use duration_str::{parse, parse_std, Duration, HumanFormat};

const NANOS_PER_UNIT: [(&str, u64); 10] = [
    ("y", 365 * 24 * 3600 * 1_000_000_000),
    ("mon", 30 * 24 * 3600 * 1_000_000_000),
    ("w", 7 * 24 * 3600 * 1_000_000_000),
    ("d", 24 * 3600 * 1_000_000_000),
    ("h", 3600 * 1_000_000_000),
    ("m", 60 * 1_000_000_000),
    ("s", 1_000_000_000),
    ("ms", 1_000_000),
    ("µs", 1000),
    ("ns", 1),
];

#[test]
fn digits_and_unit_multiply() {
    for (abbr, nanos) in NANOS_PER_UNIT {
        let d = parse(&format!("7{}", abbr)).unwrap();
        assert_eq!(d.as_nanos(), 7 * nanos);
    }
    assert_eq!(parse("12us").unwrap(), Duration::from_nanos(12_000));
    assert_eq!(parse("3MIN").unwrap(), Duration::new(180, 0));
}

#[test]
fn zero_inputs_are_zero() {
    assert_eq!(parse("0").unwrap(), Duration::new(0, 0));
    assert_eq!(parse("0m").unwrap(), Duration::new(0, 0));
    assert_eq!(parse("   0   ").unwrap(), Duration::new(0, 0));
}

#[test]
fn chains_keep_one_operator() {
    assert_eq!(parse("1m+60+24").unwrap(), Duration::new(144, 0));
    assert_eq!(parse("1m*60*20").unwrap(), Duration::new(72000, 0));
    assert_eq!(
        parse("1m+60*20").err().unwrap(),
        "not support '+' with '*' calculate"
    );
    assert_eq!(
        parse("1m*60+20").err().unwrap(),
        "not support '*' with '+' calculate"
    );
}

#[test]
fn whitespace_is_tolerated() {
    let one_day = Duration::new(86_400, 0);
    for input in ["1d", " 1d", "1d ", " 1d ", "1 d", "\t1\nd\r"] {
        assert_eq!(parse(input).unwrap(), one_day);
    }
}

#[test]
fn units_concatenate_as_a_sum() {
    assert_eq!(
        parse("3m1s29ms17us").unwrap(),
        Duration::new(181, 29_017_000)
    );
}

#[test]
fn products_keep_nanoseconds() {
    assert_eq!(parse("1m*1ns").unwrap(), Duration::from_nanos(60));
    assert_eq!(parse("1m*10ms").unwrap(), Duration::new(0, 600_000_000));
    assert_eq!(parse("1ns*1ns").unwrap(), Duration::from_nanos(0));
    assert_eq!(parse("1500ms*1500ms").unwrap(), Duration::new(2, 250_000_000));
}

#[test]
fn overflow_is_reported() {
    assert_eq!(parse("580y*2").err().unwrap(), "overflow error");
    assert_eq!(
        parse("580y*1").unwrap().as_nanos(),
        580 * 365 * 24 * 3600 * 1_000_000_000
    );
    assert_eq!(parse("584y+1y").err().unwrap(), "overflow error");
}

#[test]
fn formatted_durations_parse_back() {
    let samples = [
        Duration::from_nanos(0),
        Duration::from_nanos(1),
        Duration::new(1, 0),
        Duration::new(59, 999_999_999),
        Duration::new(3600 * 24 * 400 + 61, 1_001_001),
        Duration::from_nanos(u64::MAX),
    ];
    for d in samples {
        assert_eq!(parse(&d.human_format()).unwrap(), d);
    }
}

#[test]
fn input_must_be_used_up() {
    assert!(parse("0m+3").is_ok());
    assert!(parse("0m+3-5").is_err());
}

#[test]
fn example_sum_with_micro_sign() {
    let d = parse_std("3m + 1s + 29ms +17µs").unwrap();
    assert_eq!(d.as_secs(), 181);
    assert_eq!(d.subsec_nanos(), 29_017_000);
}

#[test]
fn number_too_large_for_u64() {
    assert_eq!(
        parse("99999999999999999999s").err().unwrap(),
        "99999999999999999999s\n^\nnumber too large to fit in target type"
    );
    assert_eq!(
        parse("1s+99999999999999999999").err().unwrap(),
        "number too large to fit in target type"
    );
}

#[test]
fn syntax_errors_point_at_bytes() {
    assert_eq!(parse("").err().unwrap(), "\n^\n");
    assert_eq!(parse("  x").err().unwrap(), "  x\n  ^\n");
    assert_eq!(parse("1µs+x").err().unwrap(), "1µs+x\n    ^\n");
    assert_eq!(
        parse("1m 3-").err().unwrap(),
        "1m 3-\n   ^\nexpected [\"y\", \"mon\", \"w\", \"d\", \"h\", \"m\", \"s\", \"ms\", \"µs\", \"us\", \"ns\"], ['+', '*']"
    );
}

#[test]
fn syntax_errors_on_later_lines() {
    assert_eq!(
        parse("1m\n+x").err().unwrap(),
        "parse error at line 2, column 1\n  |\n2 | +x\n  | ^\n"
    );
}

use duration_str::{cond_time, cond_unit1, parse, parse_expr_time, CondUnit, Duration, TimeUnit};

#[test]
fn test_parse_expr_time() {
    let (input, val) = parse_expr_time("123m").unwrap();
    assert_eq!(input, "");
    assert_eq!(val, 7380000000000);
}

#[test]
fn test_cond_unit() {
    let (input, format) = cond_unit1("*123").unwrap();
    assert_eq!(input, "123");
    assert_eq!(format, CondUnit::Star);
}

#[test]
fn test_cond_time() {
    let (input, out) = cond_time(" * 60").unwrap();
    assert_eq!(input, "");
    assert_eq!(out, vec![("60", CondUnit::Star, TimeUnit::Second)]);
}

#[test]
fn test_cond_time2() {
    let (input, out) = cond_time(" * 60*30").unwrap();
    assert_eq!(input, "");
    assert_eq!(
        out,
        vec![
            ("60", CondUnit::Star, TimeUnit::Second),
            ("30", CondUnit::Star, TimeUnit::Second),
        ]
    );
}

#[test]
fn test_duration_parse0() {
    let duration = parse("0").unwrap();
    assert_eq!(duration, Duration::new(0, 0));

    let duration = parse("0    ").unwrap();
    assert_eq!(duration, Duration::new(0, 0));

    let duration = parse("     0    ").unwrap();
    assert_eq!(duration, Duration::new(0, 0));

    let duration = parse("1").unwrap();
    assert_eq!(duration, Duration::new(1, 0));

    let duration = parse("0m").unwrap();
    assert_eq!(duration, Duration::new(0, 0));

    let duration = parse("1hr").unwrap();
    assert_eq!(duration, Duration::new(3600, 0));

    let duration = parse("1m+31").unwrap();
    assert_eq!(duration, Duration::new(91, 0));

    let duration = parse("1m31").unwrap();
    assert_eq!(duration, Duration::new(91, 0));

    let duration = parse("1m31s").unwrap();
    assert_eq!(duration, Duration::new(91, 0));

    let duration = parse("1m*60").unwrap();
    assert_eq!(duration, Duration::new(3600, 0));

    let duration = parse("1m*60*20").unwrap();
    assert_eq!(duration, Duration::new(72000, 0));

    let duration = parse("1m+60+24").unwrap();
    assert_eq!(duration, Duration::new(144, 0));

    let duration = parse("1m+60+24 ").unwrap();
    assert_eq!(duration, Duration::new(144, 0));

    let duration = parse("      1m      +  60 +             24 ").unwrap();
    assert_eq!(duration, Duration::new(144, 0))
}

#[test]
fn test_duration_err() {
    assert_eq!(
        parse("0m+3-5").err().unwrap(),
        r#"
0m+3-5
    ^
expected ["y", "mon", "w", "d", "h", "m", "s", "ms", "µs", "us", "ns"]"#
            .trim()
    );

    assert_eq!(
        parse("0mxyz").err().unwrap(),
        r#"
0mxyz
 ^
expected ["y", "mon", "w", "d", "h", "m", "s", "ms", "µs", "us", "ns"]"#
            .trim()
    );

    assert_eq!(
        parse("3ms-2ms").err().unwrap(),
        r#"
3ms-2ms
   ^
expected ['+', '*']"#
            .trim()
    );
}

#[test]
fn test_parse() {
    let duration = parse("1d").unwrap();
    assert_eq!(duration, Duration::new(24 * 60 * 60, 0));

    let duration = parse("   1d").unwrap();
    assert_eq!(duration, Duration::new(24 * 60 * 60, 0));

    let duration = parse("1d   ").unwrap();
    assert_eq!(duration, Duration::new(24 * 60 * 60, 0));

    let duration = parse("   1d   ").unwrap();
    assert_eq!(duration, Duration::new(24 * 60 * 60, 0));

    let duration = parse("3m+31").unwrap();
    assert_eq!(duration, Duration::new(211, 0));

    let duration = parse("3m + 31").unwrap();
    assert_eq!(duration, Duration::new(211, 0));

    let duration = parse("3m + 13s + 29ms").unwrap();
    assert_eq!(duration, Duration::new(193, 29 * 1000 * 1000 + 0 + 0));

    let duration = parse("3m + 1s + 29ms +17µs").unwrap();
    assert_eq!(
        duration,
        Duration::new(181, 29 * 1000 * 1000 + 17 * 1000 + 0)
    );

    let duration = parse("1m*10").unwrap();
    assert_eq!(duration, Duration::new(600, 0));

    let duration = parse("1m*10ms").unwrap();
    assert_eq!(duration, Duration::new(0, 600 * 1000 * 1000));

    let duration = parse("1m * 1ns").unwrap();
    assert_eq!(duration, Duration::new(0, 60));

    let duration = parse("1m * 1m").unwrap();
    assert_eq!(duration, Duration::new(3600, 0));

    let duration = parse("3m + 31").unwrap();
    assert_eq!(duration, Duration::new(211, 0));

    let duration = parse("3m  31s").unwrap();
    assert_eq!(duration, Duration::new(211, 0));

    let duration = parse("3m31s0ns").unwrap();
    assert_eq!(duration, Duration::new(211, 0));

    let duration = parse("  3m 31s 0ns ").unwrap();
    assert_eq!(duration, Duration::new(211, 0));

    let duration = parse("1d2h3min4s").unwrap();
    assert_eq!(duration, Duration::new(93784, 0));
}

#[test]
fn test_overflow_plus() {
    assert_eq!(
        parse("10000000000000000y+60").err().unwrap(),
        r#"
10000000000000000y+60
^
overflow error"#
            .trim()
            .to_string()
    );
}

#[test]
fn test_max_mul() {
    let duration = parse("580y*1").unwrap();
    assert_eq!(
        std::time::Duration::new(duration.as_secs(), duration.subsec_nanos()),
        std::time::Duration::from_millis(18290880000) * 1000
    );
}

#[test]
fn test_overflow_mul() {
    let err = parse("580y*2").err().unwrap();
    assert_eq!(err, "overflow error");
}

#[test]
fn test_parse_optional_spaces() {
    let duration = parse("1 d").unwrap();
    assert_eq!(duration, Duration::new(24 * 60 * 60, 0));

    let duration = parse("3 m+31").unwrap();
    assert_eq!(duration, Duration::new(211, 0));

    let duration = parse("3 m + 31").unwrap();
    assert_eq!(duration, Duration::new(211, 0));

    let duration = parse("3 m + 13 s + 29 ms").unwrap();
    assert_eq!(duration, Duration::new(193, 29 * 1000 * 1000 + 0 + 0));

    let duration = parse("3 m + 1 s + 29 ms +17µs").unwrap();
    assert_eq!(
        duration,
        Duration::new(181, 29 * 1000 * 1000 + 17 * 1000 + 0)
    );

    let duration = parse("1 m*10").unwrap();
    assert_eq!(duration, Duration::new(600, 0));

    let duration = parse("1 m*10 ms").unwrap();
    assert_eq!(duration, Duration::new(0, 600 * 1000 * 1000));

    let duration = parse("1 m * 1ns").unwrap();
    assert_eq!(duration, Duration::new(0, 60));

    let duration = parse("1 m * 1 m").unwrap();
    assert_eq!(duration, Duration::new(3600, 0));

    let duration = parse("3 m + 31").unwrap();
    assert_eq!(duration, Duration::new(211, 0));

    let duration = parse("3 m  31 s").unwrap();
    assert_eq!(duration, Duration::new(211, 0));

    let duration = parse("3 m31 s0 ns").unwrap();
    assert_eq!(duration, Duration::new(211, 0));

    let duration = parse("  3 m 31 s 0 ns ").unwrap();
    assert_eq!(duration, Duration::new(211, 0));

    let duration = parse("1 d2 h3 min 4s").unwrap();
    assert_eq!(duration, Duration::new(93784, 0));
}

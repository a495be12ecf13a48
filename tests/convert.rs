use duration_str::{parse_chrono, parse_time};

#[test]
fn test_parse_chrono() {
    let duration = parse_chrono("1m+60+24 ").unwrap();
    assert_eq!(duration, chrono::Duration::seconds(144))
}

#[test]
fn test_parse_time() {
    let duration = parse_time("1m+60+24 ").unwrap();
    assert_eq!(duration, time::Duration::seconds(144))
}

#[test]
fn conversions_keep_nanoseconds_and_errors() {
    assert_eq!(
        parse_chrono("1s 5ns").unwrap(),
        chrono::Duration::nanoseconds(1_000_000_005)
    );
    assert_eq!(
        parse_time("1s 5ns").unwrap(),
        time::Duration::nanoseconds(1_000_000_005)
    );
    assert_eq!(parse_chrono("580y*2").err().unwrap(), "overflow error");
    assert_eq!(parse_time("1x").err().unwrap(), parse_chrono("1x").err().unwrap());
}

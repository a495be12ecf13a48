use duration_str::{format_inner, parse, Duration, HumanFormat};

#[test]
fn test_human_format() {
    let duration = parse("0s").unwrap();
    assert_eq!(duration.human_format(), "0s");

    let duration = parse("1y 12d 3s").unwrap();
    assert_eq!(duration.human_format(), "1y 1w 5d 3s");

    let duration = parse("751d 1mon 3week 5d 2ns").unwrap();
    assert_eq!(duration.human_format(), "2y 2mon 2w 3d 2ns");

    let duration = parse("    7h    ").unwrap();
    assert_eq!(duration.human_format(), "7h");

    let duration = parse("    7h  1s  ").unwrap();
    assert_eq!(duration.human_format(), "7h 1s");

    let duration = parse("    7h  0s  ").unwrap();
    assert_eq!(duration.human_format(), "7h");
}

#[test]
fn format_inner_writes_every_unit() {
    assert_eq!(
        format_inner(31_536_000 + 2_592_000 + 604_800 + 86_400 + 3600 + 60 + 1, 1_001_001),
        "1y 1mon 1w 1d 1h 1min 1s 1ms 1µs 1ns"
    );
    assert_eq!(format_inner(0, 0), "0s");
    assert_eq!(format_inner(0, 5), "5ns");
}

#[test]
fn human_format_leaves_out_zero_parts() {
    assert_eq!(Duration::new(32_572_803, 0).human_format(), "1y 1w 5d 3s");
    assert_eq!(Duration::new(69_724_800, 2).human_format(), "2y 2mon 2w 3d 2ns");
    assert_eq!(Duration::new(25_201, 0).human_format(), "7h 1s");
}

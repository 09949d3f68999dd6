use scanbro::number::{decimal_text, format_bytes, kibibytes_text, megabytes_text};

#[test]
fn decimals_are_written_without_padding() {
    assert_eq!(decimal_text(0), "0");
    assert_eq!(decimal_text(9), "9");
    assert_eq!(decimal_text(10), "10");
    assert_eq!(decimal_text(65_535), "65535");
    assert_eq!(decimal_text(u128::MAX), u128::MAX.to_string());
}

#[test]
fn bytes_are_shown_in_the_largest_fitting_unit() {
    assert_eq!(format_bytes(0), "—");
    assert_eq!(format_bytes(1), "1 B");
    assert_eq!(format_bytes(1023), "1023 B");
    assert_eq!(format_bytes(1024), "1 KB");
    assert_eq!(format_bytes(1536), "2 KB");
    assert_eq!(format_bytes(2560), "2 KB");
    assert_eq!(format_bytes(1_048_575), "1024 KB");
    assert_eq!(format_bytes(1_048_576), "1.0 MB");
    assert_eq!(format_bytes(5_767_168), "5.5 MB");
}

#[test]
fn rounded_quantities_agree_with_floating_point() {
    let samples: Vec<u64> = vec![
        0,
        1,
        51,
        52,
        1023,
        1024,
        52_428,
        52_429,
        104_857,
        157_286,
        1_048_576,
        1_101_005,
        1_153_434,
        1_205_862,
        5_242_880,
        16_777_215,
        16_777_217,
        33_554_433,
        123_456_789,
        4_294_967_295,
        4_294_967_297,
        9_007_199_254_740_993,
        u64::MAX,
    ];
    for n in samples {
        assert_eq!(megabytes_text(n), format!("{:.1}", n as f64 / 1_048_576.0), "{n}");
        assert_eq!(kibibytes_text(n), format!("{:.1}", n as f32 / 1024.0), "{n}");
        let shown = if n >= 1_048_576 {
            format!("{:.1} MB", n as f64 / 1_048_576.0)
        } else if n >= 1024 {
            format!("{:.0} KB", n as f64 / 1024.0)
        } else if n == 0 {
            "—".to_string()
        } else {
            format!("{n} B")
        };
        assert_eq!(format_bytes(n), shown, "{n}");
    }
}

use stokepile::formatting::{human_readable_size, human_readable_time};

#[test]
fn original_flysight_manager_test_suite_for_human_readable_size() {
    assert_eq!(human_readable_size(1000), "1000".to_string());
    assert_eq!(human_readable_size(1024), "1k".to_string());
    assert_eq!(human_readable_size(1024 * 1024), "1.0m".to_string());
    assert_eq!(human_readable_size(1144 * 1024), "1.1m".to_string());
    assert_eq!(human_readable_size((5.5 * 1024f64 * 1024f64) as usize), "5.5m".to_string());
    assert_eq!(human_readable_size(1024 * 100 + 100), "100k".to_string());
    assert_eq!(human_readable_size(5), "5".to_string());
    assert_eq!(human_readable_size(2000), "2k".to_string());
    assert_eq!(human_readable_size(1024 * 1024 * 1024 * 1024 * 1024), "1024t".to_string());
}

#[test]
fn human_readable_size_documented_examples() {
    assert_eq!(human_readable_size(12), "12".to_string());
    assert_eq!(human_readable_size(2055), "2k".to_string());
    assert_eq!(human_readable_size(36700244), "35m".to_string());
    assert_eq!(human_readable_size(3650722201), "3.4g".to_string());
}

#[test]
fn human_readable_time_documented_examples() {
    assert_eq!(human_readable_time(45), "45s".to_string());
    assert_eq!(human_readable_time(45311), "12h35m11s".to_string());
}

#[test]
fn human_readable_time_boundaries() {
    assert_eq!(human_readable_time(0), "0s".to_string());
    assert_eq!(human_readable_time(60), "60s".to_string());
    assert_eq!(human_readable_time(61), "1m1s".to_string());
    assert_eq!(human_readable_time(3600), "60m0s".to_string());
    assert_eq!(human_readable_time(3661), "1h1m1s".to_string());
    assert_eq!(human_readable_time(7200), "2h0m0s".to_string());
}

/// The sizes as single-precision division renders them, unit by unit.
fn float_rendering(bytes: usize) -> String {
    let mut multiplier: usize = 1;
    if bytes < 1024 {
        return format!("{}", bytes);
    }
    for unit in &['k', 'm', 'g', 't'] {
        multiplier *= 1024;
        if *unit != 'k' && bytes < multiplier * 10 {
            return format!("{:.1}{}", bytes as f32 / multiplier as f32, unit);
        }
        if bytes < 1024 * multiplier {
            return format!("{:.0}{}", bytes as f32 / multiplier as f32, unit);
        }
    }
    format!("{}t", bytes as f32 / multiplier as f32)
}

#[test]
fn human_readable_size_unit_boundaries() {
    let k: usize = 1024;
    let cases: Vec<usize> = vec![
        0, 1, 1023, 1024, 1025, 1535, 1536, 1537, 2047, 2048, 2560, 10239, 10240,
        k * k - 1, k * k, k * k + 1, 10 * k * k - 1, 10 * k * k, 1310720, 1048576 + 52428,
        k * k * k - 1, k * k * k, 10 * k * k * k - 1, 10 * k * k * k,
        k * k * k * k - 1, k * k * k * k, 10 * k * k * k * k - 1, 10 * k * k * k * k,
        k * k * k * k * k - 1, k * k * k * k * k, k * k * k * k * k + 1,
        3 * k * k * k * k * k + 12345, (1usize << 50) + (1usize << 26), usize::MAX,
    ];
    for b in cases {
        assert_eq!(human_readable_size(b), float_rendering(b), "size {}", b);
    }
}

#[test]
fn human_readable_size_matches_float_rendering_across_ranges() {
    let mut b: usize = 0;
    while b < 50_000_000 {
        assert_eq!(human_readable_size(b), float_rendering(b), "size {}", b);
        b += 997;
    }
    let mut b: usize = 1 << 20;
    while b < (1usize << 45) {
        assert_eq!(human_readable_size(b), float_rendering(b), "size {}", b);
        assert_eq!(human_readable_size(b + 1), float_rendering(b + 1), "size {}", b + 1);
        assert_eq!(human_readable_size(b - 1), float_rendering(b - 1), "size {}", b - 1);
        b = b / 7 * 9 + 12345;
    }
    let mut x: u64 = 0x9e3779b97f4a7c15;
    for _ in 0..200_000 {
        x ^= x << 13;
        x ^= x >> 7;
        x ^= x << 17;
        let shift = (x % 60) as u32;
        let b = (x >> 4) as usize >> shift;
        assert_eq!(human_readable_size(b), float_rendering(b), "size {}", b);
    }
}

use pcloud_rust::sizes::{f64_value, format_bytes, format_bytes_in_unit, format_size};

/// The size formatting of the command-line tool, on doubles.
fn size_with_doubles(size: u64) -> String {
    let mut size = size as f64;
    for unit in ["B", "KB", "MB", "GB", "TB"] {
        if size < 1024.0 {
            return format!("{:.2} {}", size, unit);
        }
        size /= 1024.0;
    }
    format!("{:.2} PB", size)
}

/// The unit exponent that the library's byte formatting picks, from a
/// floating-point logarithm.
fn unit_exponent(bytes: u64) -> usize {
    ((bytes as f64).log2() / 10.0).floor() as usize
}

/// The byte formatting of the library, on doubles.
fn bytes_with_doubles(bytes: u64) -> String {
    const UNITS: &[&str] = &["B", "KB", "MB", "GB", "TB", "PB"];
    if bytes == 0 {
        return "0 B".to_string();
    }
    let exp = unit_exponent(bytes).min(UNITS.len() - 1);
    if exp == 0 {
        format!("{bytes} B")
    } else {
        let value = bytes as f64 / (1u64 << (exp * 10)) as f64;
        format!("{value:.1} {}", UNITS[exp])
    }
}

fn sample_sizes() -> Vec<u64> {
    let mut v: Vec<u64> = vec![
        0, 1, 9, 10, 99, 100, 512, 1000, 1023, 1024, 1025, 1152, 1280, 1536, 2047, 2048,
        10 * 1024, 1024 * 1024 - 1, 1024 * 1024, 1024 * 1024 + 5243, 100 * 1024 * 1024,
        1 << 30, (1 << 30) - 1, 1 << 40, (1 << 40) + (1 << 37), 1 << 50, (1 << 50) + 1,
        (1 << 53) - 1, 1 << 53, (1 << 53) + 1, (1 << 53) + 3, (1 << 60) - 1, 1 << 60,
        u64::MAX - 1, u64::MAX,
    ];
    let mut x: u64 = 0x9E37_79B9_7F4A_7C15;
    for i in 0..3000u64 {
        x = x.wrapping_mul(6364136223846793005).wrapping_add(1442695040888963407);
        v.push(x >> (i % 64));
        v.push((x >> (i % 64)) & !0x3ff);
    }
    v
}

#[test]
fn format_size_examples() {
    assert_eq!(format_size(0), "0.00 B");
    assert_eq!(format_size(1023), "1023.00 B");
    assert_eq!(format_size(1024), "1.00 KB");
    assert_eq!(format_size(1536), "1.50 KB");
    assert_eq!(format_size(1024 * 1024), "1.00 MB");
    assert_eq!(format_size(5 * 1024 * 1024 * 1024), "5.00 GB");
    assert_eq!(format_size(1u64 << 50), "1.00 PB");
    assert_eq!(format_size(u64::MAX), "16384.00 PB");
}

#[test]
fn format_size_rounds_half_to_even() {
    // 1152 B is exactly 1.125 KB.
    assert_eq!(format_size(1152), size_with_doubles(1152));
    assert_eq!(format_size(1152), "1.12 KB");
    // 1.375 KB
    assert_eq!(format_size(1408), "1.38 KB");
}

#[test]
fn format_size_agrees_with_doubles() {
    for s in sample_sizes() {
        assert_eq!(format_size(s), size_with_doubles(s), "size {s}");
    }
}

#[test]
fn format_bytes_doc_examples() {
    assert_eq!(format_bytes(0), "0 B");
    assert_eq!(format_bytes(1024), "1.0 KB");
    assert_eq!(format_bytes(1536), "1.5 KB");
}

#[test]
fn format_bytes_picks_the_unit_exactly() {
    assert_eq!(format_bytes(1), "1 B");
    assert_eq!(format_bytes(1023), "1023 B");
    assert_eq!(format_bytes(1048575), "1024.0 KB");
    assert_eq!(format_bytes(1 << 20), "1.0 MB");
    assert_eq!(format_bytes((1 << 50) - 1), "1024.0 TB");
    assert_eq!(format_bytes(u64::MAX), "16384.0 PB");
    for s in [5u64, 2000, 3 << 30, 123456789012] {
        assert_eq!(format_bytes(s), format_bytes_in_unit(s, unit_exponent(s)), "size {s}");
    }
}

#[test]
fn format_bytes_units() {
    assert_eq!(format_bytes_in_unit(0, 3), "0 B");
    assert_eq!(format_bytes_in_unit(500, 0), "500 B");
    assert_eq!(format_bytes_in_unit(1280, 1), "1.2 KB");
    assert_eq!(format_bytes_in_unit(1 << 20, 2), "1.0 MB");
    assert_eq!(format_bytes_in_unit(3 << 30, 3), "3.0 GB");
    assert_eq!(format_bytes_in_unit(1 << 40, 4), "1.0 TB");
    // The unit stops at petabytes.
    assert_eq!(format_bytes_in_unit(1 << 60, 6), "1024.0 PB");
    assert_eq!(format_bytes_in_unit(1 << 60, 9), "1024.0 PB");
}

#[test]
fn format_bytes_agrees_with_doubles() {
    for b in sample_sizes() {
        assert_eq!(format_bytes_in_unit(b, unit_exponent(b)), bytes_with_doubles(b), "bytes {b}");
    }
}

#[test]
fn f64_value_matches_conversion() {
    for s in sample_sizes() {
        assert_eq!(f64_value(s), s as f64 as u128, "value {s}");
    }
    assert_eq!(f64_value((1 << 53) + 1), 1 << 53);
    assert_eq!(f64_value((1 << 53) + 3), (1 << 53) + 4);
    assert_eq!(f64_value(u64::MAX), 1u128 << 64);
}

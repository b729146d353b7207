use build_cleaner::format::{decimal, format_size, hundredths};

/// The same size in double-precision arithmetic.
fn float_size(bytes: u64) -> String {
    const UNITS: &[&str] = &["B", "KB", "MB", "GB", "TB"];
    let mut size = bytes as f64;
    let mut unit_idx = 0;

    while size >= 1024.0 && unit_idx < UNITS.len() - 1 {
        size /= 1024.0;
        unit_idx += 1;
    }

    format!("{:.2} {}", size, UNITS[unit_idx])
}

#[test]
fn sizes_by_hand() {
    assert_eq!(format_size(0), "0.00 B");
    assert_eq!(format_size(512), "512.00 B");
    assert_eq!(format_size(1023), "1023.00 B");
    assert_eq!(format_size(1024), "1.00 KB");
    assert_eq!(format_size(1536), "1.50 KB");
    assert_eq!(format_size(2048), "2.00 KB");
    assert_eq!(format_size(1024 * 1024), "1.00 MB");
    assert_eq!(format_size(2 * 1024 * 1024), "2.00 MB");
    assert_eq!(format_size(1024 * 1024 * 1024), "1.00 GB");
    assert_eq!(format_size(1024u64.pow(4)), "1.00 TB");
    assert_eq!(format_size(1024u64.pow(5)), "1024.00 TB");
    assert_eq!(format_size(u64::MAX), "16777216.00 TB");
}

#[test]
fn halves_go_to_the_even_hundredth() {
    assert_eq!(format_size(1152), "1.12 KB");
    assert_eq!(format_size(1024 + 128 + 256), "1.38 KB");
    assert_eq!(format_size(1029), "1.00 KB");
    assert_eq!(format_size(1030), "1.01 KB");
    assert_eq!(format_size(1048575), "1024.00 KB");
}

#[test]
fn sizes_agree_with_double_precision() {
    let mut samples: Vec<u64> = vec![];
    for i in 0..5000u64 {
        samples.push(i);
        samples.push(i * 128);
        samples.push(i * 1024 + 512);
        samples.push(i * 1_000_003);
        samples.push(i.wrapping_mul(0x9E37_79B9_7F4A_7C15));
        samples.push(i.wrapping_mul(0x9E37_79B9_7F4A_7C15) >> (i % 64));
    }
    for p in 0..64u32 {
        let b = 1u64 << p;
        for d in 0..40u64 {
            samples.push(b.wrapping_sub(d));
            samples.push(b.wrapping_add(d));
            samples.push(b.wrapping_add(b >> 1).wrapping_add(d));
            samples.push(b.wrapping_add(b >> 1).wrapping_sub(d));
            samples.push(b.wrapping_add(b >> 3).wrapping_add(d << (p / 2)));
        }
    }
    for k in 0..2000u64 {
        samples.push((1u64 << 53) + k);
        samples.push((1u64 << 54) + k);
        samples.push((1u64 << 60) + k * 64 + 128);
        samples.push(u64::MAX - k);
        samples.push(u64::MAX - 1024 - k);
        samples.push((1u64 << 63) + 1024 * k + 1024);
        samples.push(1024u64.pow(4) * k + (1u64 << 39) / 100 * k);
        samples.push(k * (1u64 << 40) / 200 + (1u64 << 40));
    }
    for bytes in samples {
        assert_eq!(format_size(bytes), float_size(bytes), "{} bytes", bytes);
    }
}

#[test]
fn numbers_in_decimal() {
    assert_eq!(decimal(0), "0");
    assert_eq!(decimal(7), "7");
    assert_eq!(decimal(10), "10");
    assert_eq!(decimal(1234567890), "1234567890");
    assert_eq!(decimal(u64::MAX as u128), u64::MAX.to_string());
    assert_eq!(decimal(u128::MAX), u128::MAX.to_string());
    for n in (0..100_000u128).step_by(37) {
        assert_eq!(decimal(n), n.to_string());
    }
}

#[test]
fn hundredths_have_two_decimals() {
    assert_eq!(hundredths(0), "0.00");
    assert_eq!(hundredths(5), "0.05");
    assert_eq!(hundredths(50), "0.50");
    assert_eq!(hundredths(100), "1.00");
    assert_eq!(hundredths(123456), "1234.56");
}

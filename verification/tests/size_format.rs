use wallet_unit_poc::size_format::{format_size, format_size_gb};

fn float_reference(bytes: u64) -> String {
    if bytes < 1024 {
        format!("{} B", bytes)
    } else if bytes < 1024 * 1024 {
        format!("{:.2} KB", bytes as f64 / 1024.0)
    } else {
        format!("{:.2} MB", bytes as f64 / (1024.0 * 1024.0))
    }
}

fn float_reference_gb(bytes: u64) -> String {
    if bytes < 1024 * 1024 * 1024 {
        float_reference(bytes)
    } else {
        format!("{:.2} GB", bytes as f64 / (1024.0 * 1024.0 * 1024.0))
    }
}

#[test]
fn format_size_exact_values() {
    assert_eq!(format_size(0), "0 B");
    assert_eq!(format_size(1023), "1023 B");
    assert_eq!(format_size(1024), "1.00 KB");
    assert_eq!(format_size(1536), "1.50 KB");
    assert_eq!(format_size(1024 * 1024 - 1), "1024.00 KB");
    assert_eq!(format_size(1024 * 1024), "1.00 MB");
    assert_eq!(format_size_gb(1024 * 1024 * 1024), "1.00 GB");
    assert_eq!(format_size_gb(3 * 1024 * 1024 * 1024 / 2), "1.50 GB");
}

#[test]
fn format_size_matches_float_formatting() {
    let mut samples: Vec<u64> = (0..70_000u64).collect();
    let mut x: u64 = 0x9e37_79b9_7f4a_7c15;
    for _ in 0..200_000 {
        x ^= x << 13;
        x ^= x >> 7;
        x ^= x << 17;
        samples.push(x >> (x % 64));
        samples.push(x);
    }
    for k in 0..64u32 {
        let p = 1u64 << k;
        samples.push(p);
        samples.push(p.wrapping_sub(1));
        samples.push(p.wrapping_add(1));
        samples.push(p.wrapping_add(p / 2));
    }
    samples.push(u64::MAX);
    // values whose hundredths fall exactly half-way
    for b in 1024u64..2_000_000 {
        if (b * 100) % 1024 == 512 || (b * 100) % (1024 * 1024) == 512 * 1024 {
            samples.push(b);
        }
    }
    for b in samples {
        assert_eq!(format_size(b), float_reference(b), "bytes = {}", b);
        assert_eq!(format_size_gb(b), float_reference_gb(b), "bytes = {}", b);
    }
}

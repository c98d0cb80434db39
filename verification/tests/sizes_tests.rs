use bestftp::sizes::format_bytes;

fn with_doubles(bytes: u64) -> String {
    let suffixes = ["B", "KB", "MB", "GB", "TB"];
    if bytes == 0 {
        return "0 B".to_string();
    }
    let mut size = bytes as f64;
    let mut unit = 0;
    while size >= 1024.0 && unit < suffixes.len() - 1 {
        size /= 1024.0;
        unit += 1;
    }
    if unit == 0 {
        format!("{} {}", bytes, suffixes[unit])
    } else if size >= 10.0 {
        format!("{:.1} {}", size, suffixes[unit])
    } else {
        format!("{:.2} {}", size, suffixes[unit])
    }
}

#[test]
fn small_counts_are_bytes() {
    assert_eq!(format_bytes(0), "0 B");
    assert_eq!(format_bytes(1), "1 B");
    assert_eq!(format_bytes(512), "512 B");
    assert_eq!(format_bytes(1023), "1023 B");
}

#[test]
fn units_change_at_powers_of_1024() {
    assert_eq!(format_bytes(1024), "1.00 KB");
    assert_eq!(format_bytes(1024 * 1024), "1.00 MB");
    assert_eq!(format_bytes(1024 * 1024 * 1024), "1.00 GB");
    assert_eq!(format_bytes(1024u64 * 1024 * 1024 * 1024), "1.00 TB");
    assert_eq!(format_bytes(1024 * 1024 - 1), "1024.0 KB");
}

#[test]
fn two_decimals_below_ten_one_from_ten_on() {
    assert_eq!(format_bytes(1536), "1.50 KB");
    assert_eq!(format_bytes(10239), "10.00 KB");
    assert_eq!(format_bytes(10240), "10.0 KB");
    assert_eq!(format_bytes(15 * 1024 * 1024 + 512 * 1024), "15.5 MB");
    assert_eq!(format_bytes(5 * 1024 * 1024 * 1024), "5.00 GB");
}

#[test]
fn ties_go_to_the_even_digit() {
    // 1152 / 1024 = 1.125 and 1408 / 1024 = 1.375, both exactly.
    assert_eq!(format_bytes(1152), "1.12 KB");
    assert_eq!(format_bytes(1408), "1.38 KB");
    // 10.25 KB and 10.75 KB, both exactly.
    assert_eq!(format_bytes(10496), "10.2 KB");
    assert_eq!(format_bytes(11008), "10.8 KB");
}

#[test]
fn terabytes_have_no_larger_unit() {
    assert_eq!(format_bytes(2048u64 * 1024 * 1024 * 1024 * 1024), "2048.0 TB");
    assert_eq!(format_bytes(u64::MAX), "16777216.0 TB");
}

#[test]
fn agrees_with_the_computation_in_doubles() {
    let mut samples: Vec<u64> = Vec::new();
    for n in 0..5000u64 {
        samples.push(n);
        samples.push(n * 1013 + 7);
        samples.push(n * 1_000_003 + 11);
        samples.push(n.wrapping_mul(0x9E37_79B9_7F4A_7C15));
    }
    for shift in 0..64u32 {
        let p = 1u64 << shift;
        for delta in 0..40u64 {
            samples.push(p.wrapping_add(delta));
            samples.push(p.wrapping_sub(delta));
            samples.push(p.wrapping_mul(10).wrapping_add(delta));
            samples.push(p.wrapping_mul(10).wrapping_sub(delta));
        }
    }
    samples.push(u64::MAX);
    samples.push((1u64 << 53) + 1);
    samples.push((1u64 << 53) + 3);
    samples.push((1u64 << 54) + 2);
    samples.push((1u64 << 54) + 6);
    for bytes in samples {
        assert_eq!(format_bytes(bytes), with_doubles(bytes), "for {}", bytes);
    }
}

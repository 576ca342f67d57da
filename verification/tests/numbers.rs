use lzcr::numbers::{format_bytes, parse_u64, size_to_decimal, to_decimal};
use lzcr::progress::{fixed, note, Progress};

/// The size as floating-point numbers give it.
fn reference(bytes: u64) -> String {
    let units = ["B", "KB", "MB", "GB"];
    if bytes == 0 {
        return "0 B".to_string();
    }
    let mut size = bytes as f64;
    let mut unit = 0usize;
    while size >= 1024.0 && unit < units.len() - 1 {
        size /= 1024.0;
        unit += 1;
    }
    format!("{size:.2} {}", units[unit])
}

#[test]
fn sizes() {
    assert_eq!(format_bytes(0), "0 B");
    assert_eq!(format_bytes(1), "1.00 B");
    assert_eq!(format_bytes(1023), "1023.00 B");
    assert_eq!(format_bytes(1024), "1.00 KB");
    assert_eq!(format_bytes(1536), "1.50 KB");
    assert_eq!(format_bytes(10 * 1024 * 1024), "10.00 MB");
    assert_eq!(format_bytes(3 * 1024 * 1024 * 1024), "3.00 GB");
    assert_eq!(format_bytes(u64::MAX), "17179869184.00 GB");
}

#[test]
fn sizes_are_those_of_floating_point_numbers() {
    let mut n: u64 = 1;
    for i in 0..20_000u64 {
        assert_eq!(format_bytes(i), reference(i));
        n = n.wrapping_mul(6364136223846793005).wrapping_add(1442695040888963407);
        let shifted = n >> (i % 64);
        assert_eq!(format_bytes(shifted), reference(shifted), "{shifted}");
    }
    for shift in 0..64u32 {
        for off in 0..64u64 {
            let x = (1u64 << shift).wrapping_add(off).wrapping_sub(32);
            assert_eq!(format_bytes(x), reference(x), "{x}");
        }
    }
    for k in 0..4000u64 {
        // Sizes that lie half-way between two hundredths of a unit.
        let x = k * 128 + 64;
        assert_eq!(format_bytes(x * 1024), reference(x * 1024));
    }
}

#[test]
fn decimals() {
    for n in [0, 1, 9, 10, 99, 100, 12345, u64::MAX] {
        assert_eq!(to_decimal(n), n.to_string());
    }
    assert_eq!(size_to_decimal(usize::MAX), usize::MAX.to_string());
}

#[test]
fn numbers_are_read_as_in_std() {
    for s in [
        "",
        "0",
        "42",
        "+42",
        "-1",
        "+",
        "-",
        "007",
        "18446744073709551615",
        "18446744073709551616",
        "99999999999999999999999999",
        " 1",
        "1 ",
        "1a",
        "١",
    ] {
        assert_eq!(parse_u64(s), s.parse::<u64>().ok(), "{s:?}");
    }
}

#[test]
fn progress_is_exact() {
    let at = |base_tenths, span_tenths, done, total| Progress { base_tenths, span_tenths, done, total };
    assert!(fixed(991).reaches(991) && !fixed(991).reaches(992));
    assert!(at(150, 250, 1, 2).reaches(275) && !at(150, 250, 1, 2).reaches(276));
    assert!(at(150, 250, 7, 7).reaches(400) && !at(150, 250, 7, 7).reaches(401));
    assert!(!at(150, 250, u64::MAX - 1, u64::MAX).reaches(400));
    assert!(at(991, 4, 1, 3).reaches(992) && !at(991, 4, 1, 3).reaches(993));
    assert!(at(u32::MAX, u32::MAX, u64::MAX, u64::MAX).reaches(u32::MAX));
    for done in 0..=1000 {
        let progress = at(450, 100, done, 1000);
        assert!(progress.reaches(450) && !progress.reaches(551));
        assert!(progress.reaches(450 + (done / 10) as u32) && !progress.reaches(451 + (done / 10) as u32));
    }
    let told = note(450, "Extracting files...");
    assert_eq!(told.progress, fixed(450));
    assert_eq!(told.message, "Extracting files...");
    assert_eq!(told.current_file, None);
    assert_eq!((told.total_files, told.processed_files), (None, None));
}

#[test]
fn progress_is_a_hundred_percent_at_most() {
    let half = Progress { base_tenths: 991, span_tenths: 4, done: 1, total: 2 };
    assert_eq!(half.clamp(), half);
    assert_eq!(fixed(1000).clamp(), fixed(1000));
    assert_eq!(fixed(1001).clamp(), fixed(1000));
    assert_eq!(Progress { base_tenths: 150, span_tenths: 250, done: 70, total: 7 }.clamp(), fixed(1000));
}

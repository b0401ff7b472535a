use mips_witness::units::{decimal_text, memory_size};

#[test]
fn test_memory_size() {
    assert_eq!(memory_size(1023_usize), "1023 B");
    assert_eq!(memory_size(1024_usize), "1.0 KiB");
    assert_eq!(memory_size(1024 * 1024_usize), "1.0 MiB");
    assert_eq!(memory_size(2100 * 1024 * 1024_usize), "2.1 GiB");
    assert_eq!(memory_size(std::usize::MAX), "16.0 EiB");
}

/// The text as floating-point formatting gives it.
fn formatted(total: usize) -> String {
    if total < 1024 {
        return format!("{} B", total);
    }
    let prefixes = ['K', 'M', 'G', 'T', 'P', 'E'];
    let mut idx = 0;
    let mut d: usize = 1024;
    let mut n = total / 1024;
    while n >= 1024 {
        d *= 1024;
        idx += 1;
        n /= 1024;
    }
    format!("{:.1} {}iB", total as f64 / d as f64, prefixes[idx])
}

#[test]
fn memory_size_agrees_with_floating_point() {
    for total in 0..5000 {
        assert_eq!(memory_size(total), formatted(total));
    }
    let mut x: u64 = 0x9e37_79b9_7f4a_7c15;
    for i in 0..50000u64 {
        x = x
            .wrapping_mul(6364136223846793005)
            .wrapping_add(1442695040888963407);
        let total = (x >> (i % 64)) as usize;
        assert_eq!(memory_size(total), formatted(total));
    }
}

#[test]
fn memory_size_rounds_ties_to_even() {
    // 1.25, 1.75, 2.25 and 2.75 of a unit are exact ties.
    for k in 1..7u32 {
        let unit: u128 = 1u128 << (10 * k);
        for quarters in 4..64u128 {
            let total = unit * quarters / 4;
            if total <= usize::MAX as u128 {
                let total = total as usize;
                assert_eq!(memory_size(total), formatted(total));
                assert_eq!(memory_size(total - 1), formatted(total - 1));
                if total < usize::MAX {
                    assert_eq!(memory_size(total + 1), formatted(total + 1));
                }
            }
        }
    }
    assert_eq!(memory_size(1024 + 256), "1.2 KiB");
    assert_eq!(memory_size(1024 + 768), "1.8 KiB");
}

#[test]
fn memory_size_rounds_to_double_precision_first() {
    // Around each boundary between two tenths, above the numbers that 53 bits can hold.
    for k in 5..7u32 {
        let unit: u128 = 1u128 << (10 * k);
        for odd in 0..320u128 {
            let boundary = unit * (2 * odd + 1) / 20;
            for delta in 0..3000u128 {
                let total = boundary + delta;
                if delta % 7 == 0 && total >= 1500 + unit && total - 1500 <= usize::MAX as u128 {
                    let total = (total - 1500) as usize;
                    assert_eq!(memory_size(total), formatted(total));
                }
            }
        }
    }
}

#[test]
fn memory_size_can_show_a_full_kunit() {
    assert_eq!(memory_size(1024 * 1024 - 1), "1024.0 KiB");
}

#[test]
fn memory_size_shows_whole_units_exactly() {
    assert_eq!(memory_size(3 * 1024), "3.0 KiB");
    assert_eq!(memory_size(1023 * 1024 * 1024), "1023.0 MiB");
    assert_eq!(memory_size(5 << 40), "5.0 TiB");
    assert_eq!(memory_size(7 << 50), "7.0 PiB");
    assert_eq!(memory_size(15 << 60), "15.0 EiB");
}

#[test]
fn decimal_text_writes_numbers() {
    assert_eq!(decimal_text(0), "0");
    assert_eq!(decimal_text(9), "9");
    assert_eq!(decimal_text(10), "10");
    assert_eq!(decimal_text(18446744073709551615), "18446744073709551615");
}

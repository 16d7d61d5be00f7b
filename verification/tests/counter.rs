use thufood::decimal::{parse_u64, u64_to_text};
use thufood::services::counter::CounterService;

#[test]
fn u64_to_text_renders_decimal() {
    assert_eq!(u64_to_text(0), "0");
    assert_eq!(u64_to_text(7), "7");
    assert_eq!(u64_to_text(42), "42");
    assert_eq!(u64_to_text(1000), "1000");
    assert_eq!(u64_to_text(u64::MAX), "18446744073709551615");
}

#[test]
fn parse_u64_reads_decimal() {
    assert_eq!(parse_u64("0"), Some(0));
    assert_eq!(parse_u64("41"), Some(41));
    assert_eq!(parse_u64("0041"), Some(41));
    assert_eq!(parse_u64("18446744073709551615"), Some(u64::MAX));
}

#[test]
fn parse_u64_rejects_non_numbers() {
    assert_eq!(parse_u64(""), None);
    assert_eq!(parse_u64("a"), None);
    assert_eq!(parse_u64("41a"), None);
    assert_eq!(parse_u64("-1"), None);
    assert_eq!(parse_u64("+1"), None);
    assert_eq!(parse_u64("4 1"), None);
}

#[test]
fn parse_u64_rejects_values_beyond_64_bits() {
    assert_eq!(parse_u64("18446744073709551616"), None);
    assert_eq!(parse_u64("99999999999999999999999999"), None);
}

#[test]
fn decimal_round_trip() {
    for n in [0u64, 1, 9, 10, 41, 99, 100, 123456789, u64::MAX - 1, u64::MAX] {
        assert_eq!(parse_u64(&u64_to_text(n)), Some(n));
    }
}

#[test]
fn counter_loaded_from_file_text_continues_counting() {
    let mut counter = CounterService::new(String::from("meow.txt"), Some("41"));
    let value = counter.increase();
    assert_eq!(value, 42);
    assert_eq!(counter.persist_text(), "42");
    assert_eq!(counter.path(), "meow.txt");
}

#[test]
fn counter_with_missing_file_starts_from_zero() {
    let mut counter = CounterService::new(String::from("missing.txt"), None);
    assert_eq!(counter.value(), 0);
    assert_eq!(counter.increase(), 1);
    assert_eq!(counter.persist_text(), "1");
}

#[test]
fn counter_with_unparsable_file_starts_from_zero() {
    let mut counter = CounterService::new(String::from("meow.txt"), Some("not a number"));
    assert_eq!(counter.value(), 0);
    assert_eq!(counter.increase(), 1);
}

#[test]
fn increments_return_consecutive_values_without_duplicates_or_gaps() {
    let mut counter = CounterService::new(String::from("meow.txt"), Some("10"));
    let mut seen = Vec::new();
    for _ in 0..5 {
        seen.push(counter.increase());
    }
    assert_eq!(seen, vec![11, 12, 13, 14, 15]);
    for (i, a) in seen.iter().enumerate() {
        for (j, b) in seen.iter().enumerate() {
            if i != j {
                assert_ne!(a, b, "two increments observed the same value");
            }
        }
    }
}

use sysinfo::memory::{
    compute_used, find_counter, memory_report, Counter, MemStats, RawMemoryReading,
};

fn counters(pairs: &[(&str, usize)]) -> Vec<Counter> {
    pairs
        .iter()
        .map(|(name, bytes)| Counter { name: String::from(*name), bytes: *bytes })
        .collect()
}

fn reading(total: usize, free: usize, shared: usize, buffers: usize, cached: usize, reclaimable: usize) -> RawMemoryReading {
    RawMemoryReading { total, free, shared, buffers, cached, reclaimable }
}

#[test]
fn used_is_what_is_neither_free_nor_cache() {
    let stats = compute_used(&reading(1000, 400, 0, 100, 100, 0));
    assert_eq!(stats.used, 400);
    assert_eq!(stats.total, 1000);
}

#[test]
fn shared_memory_counts_as_used() {
    let stats = compute_used(&reading(8000, 1000, 300, 500, 2000, 250));
    assert_eq!(stats.used, 8000 - 1000 + 300 - 500 - 2000 - 250);
}

#[test]
fn a_balance_below_zero_gives_zero() {
    let stats = compute_used(&reading(1000, 900, 0, 100, 100, 0));
    assert_eq!(stats, MemStats { total: 1000, used: 0 });
    let stats = compute_used(&reading(0, usize::MAX, 0, usize::MAX, usize::MAX, usize::MAX));
    assert_eq!(stats, MemStats { total: 0, used: 0 });
}

#[test]
fn a_balance_above_the_total_is_kept() {
    let stats = compute_used(&reading(1000, 0, 500, 0, 0, 0));
    assert_eq!(stats, MemStats { total: 1000, used: 1500 });
    let stats = compute_used(&reading(1000, 0, 100, 0, 0, 0));
    assert_eq!(stats, MemStats { total: 1000, used: 1100 });
    let stats = compute_used(&reading(0, 0, 7, 0, 0, 0));
    assert_eq!(stats, MemStats { total: 0, used: 7 });
}

#[test]
fn a_balance_beyond_the_largest_count_is_the_largest_count() {
    let stats = compute_used(&reading(usize::MAX, 0, usize::MAX, 0, 0, 0));
    assert_eq!(stats, MemStats { total: usize::MAX, used: usize::MAX });
    let stats = compute_used(&reading(usize::MAX, 0, 1, 0, 0, 0));
    assert_eq!(stats, MemStats { total: usize::MAX, used: usize::MAX });
    let stats = compute_used(&reading(usize::MAX, 1, 1, 0, 0, 0));
    assert_eq!(stats, MemStats { total: usize::MAX, used: usize::MAX });
    let stats = compute_used(&reading(usize::MAX, 2, 1, 0, 0, 0));
    assert_eq!(stats, MemStats { total: usize::MAX, used: usize::MAX - 1 });
    let stats = compute_used(&reading(5, 0, usize::MAX, 3, 2, 1));
    assert_eq!(stats, MemStats { total: 5, used: usize::MAX - 1 });
}

#[test]
fn a_balance_of_exactly_zero_or_the_total_is_kept() {
    assert_eq!(compute_used(&reading(1000, 500, 0, 250, 250, 0)).used, 0);
    assert_eq!(compute_used(&reading(1000, 0, 0, 0, 0, 0)).used, 1000);
    assert_eq!(compute_used(&reading(0, 0, 0, 0, 0, 0)).used, 0);
}

#[test]
fn a_counter_that_is_absent_counts_as_zero() {
    let full = RawMemoryReading::from_counters(1000, Some(400), Some(5), Some(100), Some(100), Some(7));
    assert_eq!(full, reading(1000, 400, 5, 100, 100, 7));
    let bare = RawMemoryReading::from_counters(1000, None, None, None, None, None);
    assert_eq!(bare, reading(1000, 0, 0, 0, 0, 0));
    assert_eq!(compute_used(&bare).used, 1000);
    let some = RawMemoryReading::from_counters(1000, Some(400), None, None, Some(100), None);
    assert_eq!(compute_used(&some).used, 500);
}

#[test]
fn a_report_in_kibibytes_is_taken_to_bytes() {
    let r = RawMemoryReading::from_kib(16, 4, 2).unwrap();
    assert_eq!(r, reading(16 * 1024, 4 * 1024, 0, 0, 0, 2 * 1024));
    assert_eq!(compute_used(&r).used, 10 * 1024);
    assert_eq!(RawMemoryReading::from_kib(u64::MAX, 0, 0), None);
    assert_eq!(RawMemoryReading::from_kib(0, u64::MAX, 0), None);
    assert_eq!(RawMemoryReading::from_kib(0, 0, u64::MAX), None);
    let most = (usize::MAX / 1024) as u64;
    assert!(RawMemoryReading::from_kib(most, most, most).is_some());
}

#[test]
fn a_reading_is_well_formed_where_free_is_within_total() {
    assert!(reading(1000, 1000, 0, 0, 0, 0).is_well_formed());
    assert!(reading(1000, 0, 9999, 9999, 9999, 9999).is_well_formed());
    assert!(!reading(1000, 1001, 0, 0, 0, 0).is_well_formed());
}

#[test]
fn stats_hold_what_they_are_given() {
    let stats = MemStats::new(2048, 1024);
    assert_eq!(stats.total, 2048);
    assert_eq!(stats.used, 1024);
    assert_eq!(MemStats::new(0, 0), MemStats { total: 0, used: 0 });
}

#[test]
fn stats_hold_more_used_than_total_unchanged() {
    let stats = MemStats::new(1000, 1500);
    assert_eq!(stats.total, 1000);
    assert_eq!(stats.used, 1500);
    let stats = MemStats::new(0, usize::MAX);
    assert_eq!((stats.total, stats.used), (0, usize::MAX));
}

#[test]
fn the_report_shows_used_and_total() {
    let stats = MemStats::new(8 * 1024 * 1024 * 1024, 1536 * 1024 * 1024);
    assert_eq!(memory_report(&stats, false, false), "1.50G/8.00G");
    assert_eq!(memory_report(&stats, false, true), "1.50G");
    assert_eq!(memory_report(&stats, true, false), "18.8%");
    assert_eq!(memory_report(&stats, true, true), "18.8%");
}

#[test]
fn the_report_of_no_memory() {
    let stats = MemStats::new(0, 0);
    assert_eq!(memory_report(&stats, false, false), "0/0");
    assert_eq!(memory_report(&stats, false, true), "0");
    assert_eq!(memory_report(&stats, true, false), "0.0%");
}

#[test]
fn consistent_counters_use_no_more_than_there_is() {
    let r = reading(16_000, 4_000, 500, 1_000, 3_000, 250);
    assert!(r.is_well_formed());
    assert!(r.shared <= r.cached);
    let stats = compute_used(&r);
    assert_eq!(stats.used, 16_000 - 4_000 + 500 - 1_000 - 3_000 - 250);
    assert!(stats.used <= stats.total);
}

#[test]
fn used_is_the_balance_wherever_a_count_can_hold_it() {
    for total in [0usize, 1, 1000, usize::MAX] {
        for free in [0usize, 1, 1000, usize::MAX] {
            for shared in [0usize, 500, usize::MAX] {
                for held in [0usize, 400, usize::MAX] {
                    let stats = compute_used(&reading(total, free, shared, held, held, held));
                    let gained = total as i128 + shared as i128;
                    let taken = free as i128 + 3 * held as i128;
                    let balance = gained - taken;
                    let expected = balance.max(0).min(usize::MAX as i128) as usize;
                    assert_eq!(stats.total, total);
                    assert_eq!(stats.used, expected);
                }
            }
        }
    }
}

#[test]
fn the_report_of_more_used_than_total() {
    let stats = compute_used(&reading(1024, 0, 512, 0, 0, 0));
    assert_eq!(memory_report(&stats, false, false), "1.50k/1.00k");
    assert_eq!(memory_report(&stats, true, false), "150.0%");
}

#[test]
fn the_kernel_report_is_read_by_counter_names() {
    let report = counters(&[
        ("Buffers", 100),
        ("Cached", 200),
        ("MemAvailable", 9_999),
        ("MemFree", 400),
        ("MemTotal", 1_000),
        ("SReclaimable", 30),
        ("Shmem", 5),
    ]);
    let r = RawMemoryReading::from_meminfo(1_000, &report);
    assert_eq!(r, reading(1_000, 400, 5, 100, 200, 30));
    assert_eq!(compute_used(&r).used, 1_000 - 400 + 5 - 100 - 200 - 30);
}

#[test]
fn a_report_without_a_counter_reads_it_as_zero() {
    assert_eq!(RawMemoryReading::from_meminfo(1_000, &Vec::new()), reading(1_000, 0, 0, 0, 0, 0));
    let report = counters(&[("MemFree", 400), ("Cached", 100)]);
    assert_eq!(RawMemoryReading::from_meminfo(1_000, &report), reading(1_000, 400, 0, 0, 100, 0));
    let report = counters(&[("memfree", 400), ("Cached ", 100), ("Shmem:", 7)]);
    assert_eq!(RawMemoryReading::from_meminfo(1_000, &report), reading(1_000, 0, 0, 0, 0, 0));
}

#[test]
fn the_first_counter_of_a_name_is_found() {
    let report = counters(&[("A", 1), ("B", 2), ("A", 3), ("", 4)]);
    assert_eq!(find_counter(&report, "A"), Some(1));
    assert_eq!(find_counter(&report, "B"), Some(2));
    assert_eq!(find_counter(&report, ""), Some(4));
    assert_eq!(find_counter(&report, "C"), None);
    assert_eq!(find_counter(&Vec::new(), "A"), None);
}

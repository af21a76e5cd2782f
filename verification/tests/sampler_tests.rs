use buildmeter::sampler::{cpu_millis_of, parse_child_pids, CpuTimeTable, SubtreeWalk};

#[test]
fn table_records_and_totals() {
    let mut t = CpuTimeTable::new();
    assert_eq!(t.count(), 0);
    assert_eq!(t.total_millis(), 0);
    t.record(100, 40);
    t.record(101, 2);
    assert_eq!(t.count(), 2);
    assert_eq!(t.total_millis(), 42);
}

#[test]
fn dead_processes_keep_their_last_value() {
    // A process that dies is simply never sampled again; its accumulated
    // time stays in the table and keeps being billed.
    let mut t = CpuTimeTable::new();
    t.record(100, 40);
    t.record(101, 10);
    // Process 101 died; only 100 is sampled this tick.
    t.record(100, 55);
    assert_eq!(t.count(), 2);
    assert_eq!(t.total_millis(), 65);
}

#[test]
fn stale_samples_never_lower_a_reading() {
    let mut t = CpuTimeTable::new();
    t.record(100, 50);
    t.record(100, 30);
    assert_eq!(t.total_millis(), 50);
    t.record(100, 60);
    assert_eq!(t.total_millis(), 60);
}

#[test]
fn walk_visits_offered_children() {
    let mut walk = SubtreeWalk::new(1);
    assert!(!walk.is_done());
    assert_eq!(walk.next_pid(), Some(1));
    walk.offer_children(&vec![2, 3]);
    assert_eq!(walk.next_pid(), Some(3));
    // Process 3's children list could not be read: nothing is offered
    // for it, and the walk just continues with what is pending.
    assert_eq!(walk.next_pid(), Some(2));
    assert_eq!(walk.next_pid(), None);
    assert!(walk.is_done());
}

#[test]
fn parse_accepts_whitespace_separated_pids() {
    assert_eq!(parse_child_pids(b"12 345\t6\n"), Some(vec![12, 345, 6]));
    assert_eq!(parse_child_pids(b""), Some(vec![]));
    assert_eq!(parse_child_pids(b"   \n\t "), Some(vec![]));
    assert_eq!(parse_child_pids(b"7"), Some(vec![7]));
    assert_eq!(parse_child_pids(b"18446744073709551615"), Some(vec![u64::MAX]));
    assert_eq!(parse_child_pids(b"007"), Some(vec![7]));
}

#[test]
fn parse_rejects_malformed_tokens() {
    assert_eq!(parse_child_pids(b"12 x3"), None);
    assert_eq!(parse_child_pids(b"-4"), None);
    assert_eq!(parse_child_pids(b"12a"), None);
    // One past u64::MAX overflows.
    assert_eq!(parse_child_pids(b"18446744073709551616"), None);
}

#[test]
fn clock_readings_convert_to_milliseconds() {
    assert_eq!(cpu_millis_of(0, 0), 0);
    assert_eq!(cpu_millis_of(2, 345_678_901), 2_345);
    assert_eq!(cpu_millis_of(0, 999_999), 0);
    assert_eq!(cpu_millis_of(u64::MAX, 0), u64::MAX);
}

use quark::memory::store::{order_metadata, tensor_order, GetStep, IoStats, LoadOutcome, StoreIndex};

#[test]
fn second_put_evicts_the_first_changed_stage() {
    // Room for roughly one stage.
    let mut s = StoreIndex::new(5000);
    let ev = s.put("a", 4003);
    assert!(ev.is_empty());
    let ev = s.put("b", 4003);
    assert_eq!(ev, vec![("a".to_string(), 1)]);
    assert_eq!(s.ram_used(), 4003);
    assert!(s.holds("a")); // being written
    assert!(s.holds("b"));
    assert!(s.writes_pending());
}

#[test]
fn the_stored_stage_is_never_evicted() {
    let mut s = StoreIndex::new(0);
    let ev = s.put("x", 100);
    assert!(ev.is_empty());
    assert_eq!(s.ram_used(), 100);
    assert_eq!(s.begin_get("x"), GetStep::Hit);
}

#[test]
fn get_of_a_stage_being_written_serves_that_version() {
    let mut s = StoreIndex::new(10);
    s.put("a", 8);
    let ev = s.put("b", 8);
    assert_eq!(ev, vec![("a".to_string(), 1)]);
    assert_eq!(s.begin_get("a"), GetStep::Pending(1));
}

#[test]
fn concurrent_gets_share_one_load() {
    let mut s = StoreIndex::new(0);
    assert_eq!(s.begin_get("x"), GetStep::Load);
    assert_eq!(s.begin_get("x"), GetStep::Wait);
    assert_eq!(s.begin_get("x"), GetStep::Wait);
    match s.finish_load("x", Some(40)) {
        LoadOutcome::Loaded(ev) => assert!(ev.is_empty()),
        _ => panic!("expected the loaded copy to enter RAM"),
    }
    assert_eq!(s.begin_get("x"), GetStep::Hit);
}

#[test]
fn failed_load_is_retried_by_the_next_get() {
    let mut s = StoreIndex::new(100);
    assert_eq!(s.begin_get("x"), GetStep::Load);
    assert!(matches!(s.finish_load("x", None), LoadOutcome::Failed));
    assert_eq!(s.begin_get("x"), GetStep::Load);
}

#[test]
fn load_that_lost_a_race_keeps_the_newer_copy() {
    let mut s = StoreIndex::new(100);
    assert_eq!(s.begin_get("x"), GetStep::Load);
    s.put("x", 30);
    assert!(matches!(s.finish_load("x", Some(20)), LoadOutcome::Existing));
    assert_eq!(s.ram_used(), 30);
}

#[test]
fn evicts_to_disk_and_reloads() {
    let mut s = StoreIndex::new(5000);
    s.put("a", 4003);
    let ev = s.put("b", 4003);
    assert_eq!(ev, vec![("a".to_string(), 1)]);
    assert!(s.should_write("a", 1));
    s.wrote("a", 1);
    s.write_done("a", 1);
    assert!(!s.writes_pending());
    assert!(s.begin_prefetch("a", true));
    assert_eq!(s.begin_get("a"), GetStep::Wait);
    match s.finish_load("a", Some(4003)) {
        LoadOutcome::Loaded(ev) => assert_eq!(ev, vec![("b".to_string(), 1)]),
        _ => panic!("expected the loaded copy to enter RAM"),
    }
    assert_eq!(s.ram_used(), 4003);
    assert_eq!(s.begin_get("a"), GetStep::Hit);
}

#[test]
fn prefetch_skips_what_is_held_or_missing() {
    let mut s = StoreIndex::new(100);
    assert!(!s.begin_prefetch("x", false));
    s.put("x", 10);
    assert!(!s.begin_prefetch("x", true));
    assert!(s.begin_prefetch("y", true));
    assert!(!s.begin_prefetch("y", true));
}

#[test]
fn newest_version_wins_on_disk() {
    let mut s = StoreIndex::new(0);
    for _ in 0..5 {
        s.put("s", 16);
    }
    let dirty = s.take_dirty();
    assert_eq!(dirty, vec![("s".to_string(), 5)]);
    assert!(s.should_write("s", 5));
    s.wrote("s", 5);
    assert!(!s.should_write("s", 4));
    assert!(!s.should_write("s", 5));
    assert!(s.should_write("s", 6));
}

#[test]
fn stale_write_done_leaves_the_newer_write_pending() {
    let mut s = StoreIndex::new(10);
    s.put("a", 8);
    s.put("b", 8); // evicts a, version 1
    s.put("a", 8); // evicts b, version 1; a is version 2
    s.put("b", 8); // evicts a, version 2
    s.write_done("a", 1);
    assert!(s.holds("a"));
    assert_eq!(s.begin_get("a"), GetStep::Pending(2));
    s.write_done("a", 2);
    assert_eq!(s.begin_get("a"), GetStep::Load);
}

#[test]
fn flush_queues_each_changed_stage_once() {
    let mut s = StoreIndex::new(1000);
    s.put("a", 10);
    s.put("b", 20);
    s.put("a", 30);
    let dirty = s.take_dirty();
    assert_eq!(dirty, vec![("b".to_string(), 1), ("a".to_string(), 2)]);
    assert!(s.take_dirty().is_empty());
    assert_eq!(s.ram_used(), 50);
}

#[test]
fn remove_drops_the_stage_and_moves_its_version_on() {
    let mut s = StoreIndex::new(1000);
    s.put("a", 10);
    s.take_dirty();
    s.wrote("a", 1);
    s.remove("a");
    assert_eq!(s.ram_used(), 0);
    assert!(s.should_write("a", 1));
    s.put("a", 5);
    assert_eq!(s.take_dirty(), vec![("a".to_string(), 3)]);
}

#[test]
fn touch_reports_a_hit() {
    let mut s = StoreIndex::new(1000);
    assert!(!s.touch("a"));
    s.put("a", 1);
    assert!(s.touch("a"));
}

#[test]
fn io_stats_count_bytes_and_wrap() {
    let mut st = IoStats::default();
    st.record_read(10);
    st.record_write(7);
    st.record_read(5);
    assert_eq!(st.read_bytes, 15);
    assert_eq!(st.write_bytes, 7);
    st.record_write(u64::MAX);
    assert_eq!(st.write_bytes, 6);
}

#[test]
fn tensor_order_survives_the_metadata() {
    let names = vec!["w".to_string(), "ids".to_string()];
    let order = order_metadata(&names);
    assert_eq!(order, "w,ids");
    let in_file = vec!["ids".to_string(), "w".to_string()];
    assert_eq!(tensor_order(Some(order.as_str()), in_file), names);
}

#[test]
fn without_order_metadata_names_are_sorted() {
    let in_file = vec!["w".to_string(), "".to_string(), "ids".to_string()];
    assert_eq!(tensor_order(None, in_file.clone()), vec!["ids".to_string(), "w".to_string()]);
    assert_eq!(tensor_order(Some(""), in_file), vec!["ids".to_string(), "w".to_string()]);
    assert_eq!(tensor_order(Some("a,,b,"), vec![]), vec!["a".to_string(), "b".to_string()]);
}

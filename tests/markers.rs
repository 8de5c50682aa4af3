use termviz::markers::{MarkerStore, MarkerUpdate, ACTION_ADD, ACTION_DELETE, ACTION_DELETE_ALL};

fn add(ns: &str, id: i32, lines: Vec<u32>, sec: i32, nsec: i32) -> MarkerUpdate<u32> {
    MarkerUpdate {
        action: ACTION_ADD,
        ns: ns.to_string(),
        id,
        lines: Some(lines),
        lifetime_sec: sec,
        lifetime_nsec: nsec,
    }
}

fn other(action: i32, ns: &str, id: i32) -> MarkerUpdate<u32> {
    MarkerUpdate { action, ns: ns.to_string(), id, lines: None, lifetime_sec: 0, lifetime_nsec: 0 }
}

#[test]
fn repeated_upserts_keep_one_marker_with_the_last_content() {
    let mut store = MarkerStore::new();
    store.upsert("a".to_string(), 1, vec![1, 2], 0, 0);
    store.upsert("a".to_string(), 1, vec![3], 0, 0);
    store.upsert("a".to_string(), 1, vec![4, 5, 6], 0, 0);
    assert_eq!(store.lines(0), vec![4, 5, 6]);
}

#[test]
fn unresolved_frame_keeps_the_previous_state() {
    let mut store = MarkerStore::new();
    store.apply_marker(add("a", 1, vec![7], 0, 0), 0);
    let mut lost = add("a", 1, vec![8], 0, 0);
    lost.lines = None;
    store.apply_marker(lost, 0);
    assert_eq!(store.lines(0), vec![7]);
}

#[test]
fn marker_expires_after_its_lifetime() {
    let mut store = MarkerStore::new();
    let ns = "a".to_string();
    store.upsert(ns.clone(), 1, vec![1], 1_000, 500);
    assert!(store.is_live(&ns, 1, 1_000));
    assert!(store.is_live(&ns, 1, 1_499));
    assert!(!store.is_live(&ns, 1, 1_500));
    assert!(store.lines(1_600).is_empty());
    store.expire(1_600);
    assert!(!store.is_live(&ns, 1, 0));
}

#[test]
fn readding_resets_the_expiry_clock() {
    let mut store = MarkerStore::new();
    let ns = "a".to_string();
    store.upsert(ns.clone(), 1, vec![1], 0, 100);
    store.upsert(ns.clone(), 1, vec![2], 80, 100);
    store.expire(150);
    assert!(store.is_live(&ns, 1, 150));
    assert_eq!(store.lines(150), vec![2]);
    assert!(!store.is_live(&ns, 1, 180));
}

#[test]
fn lifetime_is_counted_from_seconds_and_nanoseconds() {
    let mut store = MarkerStore::new();
    store.apply_marker(add("t", 3, vec![1], 1, 500_000_000), 10);
    let ns = "t".to_string();
    assert!(store.is_live(&ns, 3, 1_500_000_009));
    assert!(!store.is_live(&ns, 3, 1_500_000_010));
}

#[test]
fn zero_lifetime_never_expires() {
    let mut store = MarkerStore::new();
    store.apply_marker(add("t", 3, vec![1], 0, 0), 10);
    store.expire(u64::MAX);
    assert_eq!(store.lines(u64::MAX), vec![1]);
}

#[test]
fn deleting_in_one_namespace_spares_the_other() {
    let mut store = MarkerStore::new();
    store.upsert("a".to_string(), 5, vec![1], 0, 0);
    store.upsert("b".to_string(), 5, vec![2], 0, 0);
    store.apply_marker(other(ACTION_DELETE, "a", 5), 0);
    assert!(!store.is_live(&"a".to_string(), 5, 0));
    assert!(store.is_live(&"b".to_string(), 5, 0));
    assert_eq!(store.lines(0), vec![2]);
    store.delete(&"a".to_string(), 5);
    assert_eq!(store.lines(0), vec![2]);
}

#[test]
fn delete_all_leaves_no_lines() {
    let mut store = MarkerStore::new();
    store.apply_marker(add("a", 1, vec![1, 2], 0, 0), 0);
    store.apply_marker(add("b", 1, vec![3], 0, 0), 0);
    assert_eq!(store.lines(0).len(), 3);
    store.apply_marker(other(ACTION_DELETE_ALL, "a", 0), 0);
    assert!(store.lines(0).is_empty());
}

#[test]
fn array_delete_all_clears_its_namespace_only() {
    let mut store = MarkerStore::new();
    store.apply_marker_array(
        vec![add("a", 1, vec![1], 0, 0), add("a", 2, vec![2], 0, 0), add("b", 1, vec![3], 0, 0)],
        0,
    );
    store.apply_marker_array(vec![other(ACTION_DELETE_ALL, "a", 0)], 0);
    assert_eq!(store.lines(0), vec![3]);
}

#[test]
fn clear_namespace_reports_the_removed_ids() {
    let mut store = MarkerStore::new();
    store.upsert("a".to_string(), 1, vec![1], 0, 0);
    store.upsert("b".to_string(), 2, vec![2], 0, 0);
    store.upsert("a".to_string(), 3, vec![3], 0, 0);
    let mut ids = store.clear_namespace(&"a".to_string());
    ids.sort();
    assert_eq!(ids, vec![1, 3]);
    assert_eq!(store.lines(0), vec![2]);
    store.clear();
    assert!(store.lines(0).is_empty());
}

#[test]
fn unknown_action_changes_nothing() {
    let mut store = MarkerStore::new();
    store.apply_marker(add("a", 1, vec![1], 0, 0), 0);
    store.apply_marker(other(7, "a", 1), 0);
    assert_eq!(store.lines(0), vec![1]);
}

#[test]
fn negative_lifetime_expires_at_once() {
    let mut store = MarkerStore::new();
    store.upsert("a".to_string(), 1, vec![1], 5, -3);
    assert!(!store.is_live(&"a".to_string(), 1, 5));
}

#[test]
fn marker_is_live_at_once_even_at_the_end_of_the_clock() {
    let mut store = MarkerStore::new();
    store.upsert("a".to_string(), 1, vec![1], u64::MAX, 5);
    assert!(store.is_live(&"a".to_string(), 1, u64::MAX));
    assert_eq!(store.lines(u64::MAX), vec![1]);
}

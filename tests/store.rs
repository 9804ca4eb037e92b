use edge_ingression::model::Event;
use edge_ingression::store::{InMemory, Store};

const T0: i64 = 1_700_000_000_000;

fn ev(t: i64) -> Event {
    Event { timestamp: t }
}

fn stamps(events: &[Event]) -> Vec<i64> {
    events.iter().map(|e| e.timestamp).collect()
}

fn all(store: &InMemory) -> Vec<i64> {
    stamps(&store.get_window_of_n(u64::MAX))
}

fn is_non_increasing(v: &[i64]) -> bool {
    v.windows(2).all(|w| w[0] >= w[1])
}

#[test]
fn lib_it_works() {
    assert_eq!(2 + 2, 4);
}

#[test]
fn add_events_to_empty_store_orders_newest_first() {
    let mut store = InMemory::new();
    store.add_events(vec![ev(T0 - 10), ev(T0 - 5)]);
    assert_eq!(all(&store), vec![T0 - 5, T0 - 10]);
}

#[test]
fn add_events_merges_into_existing_buffer() {
    let mut store = InMemory::new();
    store.add_events(vec![ev(T0 - 10), ev(T0 - 5)]);
    store.add_events(vec![ev(T0 - 8)]);
    assert_eq!(all(&store), vec![T0 - 5, T0 - 8, T0 - 10]);
}

#[test]
fn window_at_keeps_events_within_the_window() {
    let mut store = InMemory::new();
    store.add_events(vec![ev(T0 - 10), ev(T0 - 5)]);
    assert_eq!(stamps(&store.get_window_at(T0, 7)), vec![T0 - 5]);
}

#[test]
fn window_of_n_returns_the_n_most_recent() {
    let mut store = InMemory::new();
    store.add_events(vec![ev(T0 - 10), ev(T0 - 5)]);
    store.add_events(vec![ev(T0 - 8)]);
    assert_eq!(stamps(&store.get_window_of_n(2)), vec![T0 - 5, T0 - 8]);
}

#[test]
fn window_of_n_never_exceeds_n_or_size() {
    let mut store = InMemory::new();
    store.add_events(vec![ev(3), ev(1), ev(2)]);
    assert_eq!(store.get_window_of_n(0).len(), 0);
    assert_eq!(store.get_window_of_n(1).len(), 1);
    assert_eq!(stamps(&store.get_window_of_n(3)), vec![3, 2, 1]);
    assert_eq!(stamps(&store.get_window_of_n(4)), vec![3, 2, 1]);
    assert_eq!(InMemory::new().get_window_of_n(5).len(), 0);
}

#[test]
fn repeated_overlapping_batches_stay_ordered() {
    let mut store = InMemory::new();
    let batches: Vec<Vec<i64>> = vec![
        vec![5, 1, 9],
        vec![7, 7, 2],
        vec![10, 0, 5],
        vec![],
        vec![3, 8, 6, 4],
    ];
    let mut count = 0;
    for b in batches {
        count += b.len();
        store.add_events(b.into_iter().map(ev).collect());
        let now = all(&store);
        assert!(is_non_increasing(&now));
        assert_eq!(now.len(), count);
    }
    assert_eq!(all(&store), vec![10, 9, 8, 7, 7, 6, 5, 5, 4, 3, 2, 1, 0]);
}

#[test]
fn equal_timestamps_are_all_kept() {
    let mut store = InMemory::new();
    store.add_events(vec![ev(4), ev(4)]);
    store.add_events(vec![ev(4), ev(6), ev(4)]);
    assert_eq!(all(&store), vec![6, 4, 4, 4, 4]);
}

#[test]
fn empty_batch_changes_nothing() {
    let mut store = InMemory::new();
    store.add_events(vec![]);
    assert_eq!(all(&store).len(), 0);
    store.add_events(vec![ev(1)]);
    store.add_events(vec![]);
    assert_eq!(all(&store), vec![1]);
}

#[test]
fn window_bounds_are_inclusive_and_future_events_count() {
    let mut store = InMemory::new();
    store.add_events(vec![ev(T0 + 3), ev(T0 - 7), ev(T0 - 8)]);
    assert_eq!(stamps(&store.get_window_at(T0, 7)), vec![T0 + 3, T0 - 7]);
    assert_eq!(stamps(&store.get_window_at(T0, 0)), vec![T0 + 3]);
    assert_eq!(stamps(&store.get_window_at(T0, -3)), vec![T0 + 3]);
    assert_eq!(store.get_window_at(T0, -4).len(), 0);
}

#[test]
fn window_handles_extreme_times() {
    let mut store = InMemory::new();
    store.add_events(vec![ev(i64::MIN), ev(i64::MAX)]);
    assert_eq!(stamps(&store.get_window_at(i64::MAX, i64::MAX)), vec![i64::MAX]);
    assert_eq!(stamps(&store.get_window_at(i64::MIN, 0)), vec![i64::MAX, i64::MIN]);
}

#[test]
fn window_now_uses_the_clock() {
    let now = chrono::Utc::now().timestamp_millis();
    let mut store = InMemory::new();
    store.add_events(vec![ev(0), ev(now - 10)]);
    assert_eq!(stamps(&store.get_window(60_000)), vec![now - 10]);
}

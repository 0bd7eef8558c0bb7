use collision_monitor::batch::BatchCollector;

fn s(x: &str) -> String {
    x.to_string()
}

#[test]
fn batch_fills_with_one_report_per_device() {
    let mut b: BatchCollector<u32> = BatchCollector::new(2);
    assert!(b.receive(s("r1"), Some(s("q1")), Some(s("c1")), 10));
    assert!(b.take_batch().is_none());
    // A second report of r1 replaces the first in its place.
    assert!(b.receive(s("r1"), Some(s("q1b")), Some(s("c1b")), 11));
    assert_eq!(b.pending.len(), 1);
    assert_eq!(b.pending[0].report, 11);
    assert_eq!(b.pending[0].correlation_id, "c1b");
    assert!(b.take_batch().is_none());
    assert!(b.receive(s("r2"), Some(s("q2")), Some(s("c2")), 20));
    let batch = b.take_batch().unwrap();
    assert_eq!(batch.len(), 2);
    assert_eq!(batch[0].device_id, "r1");
    assert_eq!(batch[0].reply_to, "q1b");
    assert_eq!(batch[1].device_id, "r2");
    assert_eq!(batch[1].correlation_id, "c2");
    assert_eq!(batch[1].report, 20);
    assert!(b.pending.is_empty());
    assert!(b.take_batch().is_none());
}

#[test]
fn unanswerable_deliveries_are_dropped() {
    let mut b: BatchCollector<u32> = BatchCollector::new(1);
    assert!(!b.receive(s("r1"), None, Some(s("c1")), 1));
    assert!(!b.receive(s("r1"), Some(s("q1")), None, 1));
    assert!(b.pending.is_empty());
    assert!(b.take_batch().is_none());
}

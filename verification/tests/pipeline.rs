use sport_analytics::sync::pipeline::{tick_period_nanos, Pipeline};

#[test]
fn delivery_is_fifo() {
    let mut p: Pipeline<String> = Pipeline::new(5);
    assert!(p.offer("first".to_string()).is_none());
    assert!(p.offer("second".to_string()).is_none());
    assert!(p.offer("third".to_string()).is_none());

    assert_eq!(p.take(), Some("first".to_string()));
    assert_eq!(p.take(), Some("second".to_string()));
    assert!(p.offer("fourth".to_string()).is_none());
    assert_eq!(p.take(), Some("third".to_string()));
    assert_eq!(p.take(), Some("fourth".to_string()));
    assert_eq!(p.take(), None);
}

#[test]
fn a_full_queue_refuses_the_message() {
    let mut p: Pipeline<u32> = Pipeline::new(2);
    assert!(p.offer(1).is_none());
    assert!(p.offer(2).is_none());
    assert_eq!(p.offer(3), Some(3), "capacity equals the rate limit");

    assert_eq!(p.take(), Some(1));
    assert!(p.offer(3).is_none(), "draining one slot admits one message");
}

#[test]
fn shutdown_is_observed_between_iterations() {
    let mut p: Pipeline<u32> = Pipeline::new(1);
    assert!(!p.should_stop());
    assert!(p.offer(9).is_none());
    p.signal_shutdown();
    assert!(p.should_stop());
    assert_eq!(p.take(), Some(9), "an enqueued message may still drain");
}

#[test]
fn tick_period_divides_one_second_by_the_rate() {
    assert_eq!(tick_period_nanos(1), 1_000_000_000);
    assert_eq!(tick_period_nanos(5), 200_000_000);
    assert_eq!(tick_period_nanos(3), 333_333_333);
    assert_eq!(tick_period_nanos(100), 10_000_000);
}

use tick_stream::admission::{validate_unsigned, Call, TICK_LONGEVITY, TICK_PRIORITY};

#[test]
fn tick_is_admitted_with_fixed_terms() {
    let call = Call::Tick { stream_id: 1, viewer: 1, ticks: 1 };
    let v = validate_unsigned(&call).unwrap();
    assert_eq!(v.priority, TICK_PRIORITY);
    assert_eq!(v.priority, 100);
    assert_eq!(v.longevity, TICK_LONGEVITY);
    assert_eq!(v.longevity, 5);
    assert!(v.propagate);
    assert_eq!(v.provides, "tick");
}

#[test]
fn dedup_tag_ignores_the_stream() {
    let a = validate_unsigned(&Call::Tick { stream_id: 1, viewer: 1, ticks: 1 }).unwrap();
    let b = validate_unsigned(&Call::Tick { stream_id: 2, viewer: 9, ticks: 3 }).unwrap();
    assert_eq!(a.provides, b.provides);
}

#[test]
fn only_tick_is_admitted_unsigned() {
    assert!(validate_unsigned(&Call::CreateStream { stream_id: 1, price_per_second: 10 }).is_none());
    assert!(validate_unsigned(&Call::JoinStream { stream_id: 1, max_seconds: 5 }).is_none());
}

use sarconf::chronogram::{fold, FoldError, Window};

fn window(name: &str, start_time: i64, duration: i64) -> Window {
    Window {
        name: name.to_string(),
        start_time,
        duration,
        height: 1000,
        dashed: false,
        color: None,
    }
}

#[test]
fn single_window_inside_period() {
    let windows = vec![window("TX", 0, 10)];
    let out = fold(&windows, 100).unwrap();
    assert_eq!(out.replica_count, 1);
    assert_eq!(out.visible_span, 100);
    assert_eq!(out.instances.len(), 1);
    assert_eq!(out.instances[0].label, "TX");
    assert_eq!(out.instances[0].replica_index, 0);
    assert_eq!(out.instances[0].start_time, 0);
    assert_eq!(out.instances[0].duration, 10);
}

#[test]
fn window_beyond_period_folds_thrice() {
    let windows = vec![window("X", 90, 20)];
    let out = fold(&windows, 100).unwrap();
    assert_eq!(out.replica_count, 3);
    assert_eq!(out.visible_span, 300);
    assert_eq!(out.instances.len(), 3);
    assert_eq!(out.instances[0].label, "X");
    assert_eq!(out.instances[1].label, "X (Ambiguity 1)");
    assert_eq!(out.instances[2].label, "X (Ambiguity 2)");
    assert_eq!(out.instances[0].start_time, 90);
    assert_eq!(out.instances[1].start_time, 190);
    assert_eq!(out.instances[2].start_time, 290);
    assert_eq!(out.instances[0].replica_index, 0);
    assert_eq!(out.instances[1].replica_index, 1);
    assert_eq!(out.instances[2].replica_index, 2);
}

#[test]
fn zero_period_is_invalid() {
    let windows = vec![window("TX", 0, 10)];
    assert!(matches!(fold(&windows, 0), Err(FoldError::InvalidPeriod)));
}

#[test]
fn negative_period_is_invalid() {
    let windows = vec![window("TX", 0, 10)];
    assert!(matches!(fold(&windows, -50), Err(FoldError::InvalidPeriod)));
}

#[test]
fn empty_schedule_gives_one_replica() {
    let windows: Vec<Window> = Vec::new();
    let out = fold(&windows, 250).unwrap();
    assert_eq!(out.replica_count, 1);
    assert_eq!(out.visible_span, 250);
    assert!(out.instances.is_empty());
}

#[test]
fn non_positive_duration_still_folds() {
    let windows = vec![window("Degenerate", 40, -5)];
    let out = fold(&windows, 100).unwrap();
    assert_eq!(out.replica_count, 1);
    assert_eq!(out.instances.len(), 1);
    assert_eq!(out.instances[0].start_time, 40);
    assert_eq!(out.instances[0].duration, -5);
}

#[test]
fn replicas_grouped_per_window_in_input_order() {
    let windows = vec![window("A", 0, 10), window("B", 150, 10)];
    let out = fold(&windows, 100).unwrap();
    assert_eq!(out.replica_count, 3);
    let labels: Vec<&str> = out.instances.iter().map(|i| i.label.as_str()).collect();
    assert_eq!(
        labels,
        vec![
            "A",
            "A (Ambiguity 1)",
            "A (Ambiguity 2)",
            "B",
            "B (Ambiguity 1)",
            "B (Ambiguity 2)",
        ]
    );
    let starts: Vec<i64> = out.instances.iter().map(|i| i.start_time).collect();
    assert_eq!(starts, vec![0, 100, 200, 150, 250, 350]);
}

#[test]
fn two_digit_replica_labels() {
    let windows = vec![window("RX", 0, 1000)];
    let out = fold(&windows, 100).unwrap();
    assert_eq!(out.replica_count, 11);
    assert_eq!(out.instances[10].label, "RX (Ambiguity 10)");
    assert_eq!(out.instances[10].start_time, 1000);
}

#[test]
fn three_digit_replica_labels() {
    let windows = vec![window("RX", 0, 10000)];
    let out = fold(&windows, 100).unwrap();
    assert_eq!(out.replica_count, 101);
    assert_eq!(out.instances.len(), 101);
    assert_eq!(out.instances[100].label, "RX (Ambiguity 100)");
    assert_eq!(out.instances[100].start_time, 10000);
}

#[test]
fn coverage_every_end_inside_visible_span() {
    let windows = vec![window("TX", 0, 10), window("RX", 24, 21), window("Far", 230, 40)];
    let period: i64 = 100;
    let out = fold(&windows, period).unwrap();
    for w in &windows {
        let end = w.start_time + w.duration;
        assert!(0 <= end && end <= out.replica_count * period);
    }
}

#[test]
fn folding_twice_is_identical() {
    let mk = || vec![window("TX", 0, 10), window("RX", 90, 25), window("N", 15, 3)];
    let a = fold(&mk(), 100).unwrap();
    let b = fold(&mk(), 100).unwrap();
    assert_eq!(a.replica_count, b.replica_count);
    assert_eq!(a.visible_span, b.visible_span);
    assert_eq!(a.instances.len(), b.instances.len());
    for (x, y) in a.instances.iter().zip(b.instances.iter()) {
        assert_eq!(x.label, y.label);
        assert_eq!(x.replica_index, y.replica_index);
        assert_eq!(x.start_time, y.start_time);
        assert_eq!(x.duration, y.duration);
        assert_eq!(x.height, y.height);
        assert_eq!(x.dashed, y.dashed);
        assert_eq!(x.color, y.color);
    }
}

#[test]
fn growing_last_window_never_lowers_replica_count() {
    let period: i64 = 100;
    let mut previous: i64 = 0;
    for duration in [10, 110, 120, 200, 310, 510] {
        let windows = vec![window("A", 30, 40), window("B", 50, duration)];
        let out = fold(&windows, period).unwrap();
        assert!(out.replica_count >= previous);
        previous = out.replica_count;
    }
}

#[test]
fn window_accessors_and_default() {
    let w = window("TX", 7, 5);
    assert_eq!(w.start(), 7);
    assert_eq!(w.end(), 12);
    let d = Window::default();
    assert_eq!(d.name, "Untitled");
    assert_eq!(d.start_time, 0);
    assert_eq!(d.duration, 1);
    assert_eq!(d.height, 1);
    assert!(!d.dashed);
    assert!(d.color.is_none());
}

#[test]
fn style_fields_carried_through() {
    let mut w = window("TX", 0, 10);
    w.dashed = true;
    w.color = Some(0xFF0000);
    w.height = 200;
    let out = fold(&vec![w], 100).unwrap();
    assert!(out.instances[0].dashed);
    assert_eq!(out.instances[0].color, Some(0xFF0000));
    assert_eq!(out.instances[0].height, 200);
}

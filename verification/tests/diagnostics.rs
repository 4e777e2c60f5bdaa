use rakukan::diag::{
    is_slow, log_rotation_plan, rotated_log_name, span, timing_stats, DiagEvent, Ring, RotateStep,
    RING_CAP,
};

#[test]
fn ring_keeps_events_in_order() {
    let mut ring: Ring<u32> = Ring::new();
    ring.push(10, 1);
    ring.push(20, 2);
    let got: Vec<(u64, u32)> = ring.collect_asc().into_iter().copied().collect();
    assert_eq!(got, vec![(10, 1), (20, 2)]);
}

#[test]
fn ring_drops_the_oldest_when_full() {
    let mut ring: Ring<usize> = Ring::new();
    for i in 0..RING_CAP + 3 {
        ring.push(i as u64, i);
    }
    let got: Vec<usize> = ring.collect_asc().into_iter().map(|e| e.1).collect();
    assert_eq!(got.len(), RING_CAP);
    assert_eq!(got[0], 3);
    assert_eq!(got[RING_CAP - 1], RING_CAP + 2);
}

#[test]
fn span_reports_elapsed_time() {
    let s = span("Convert", 1_000);
    assert_eq!(s.finish(7_500), Some(("Convert", 6_500)));
    assert_eq!(s.finish(500), Some(("Convert", 0)));
    assert!(is_slow(6_500));
    assert!(!is_slow(5_000));
}

#[test]
fn timing_statistics_per_label_slowest_first() {
    let evs = vec![
        (1, DiagEvent::Timing { label: "a", elapsed_us: 10 }),
        (2, DiagEvent::Deactivate),
        (3, DiagEvent::Timing { label: "b", elapsed_us: 100 }),
        (4, DiagEvent::Timing { label: "a", elapsed_us: 30 }),
    ];
    let stats = timing_stats(&evs);
    assert_eq!(stats.len(), 2);
    assert_eq!((stats[0].label, stats[0].min, stats[0].max, stats[0].sum, stats[0].n), ("b", 100, 100, 100, 1));
    assert_eq!((stats[1].label, stats[1].min, stats[1].max, stats[1].sum, stats[1].n), ("a", 10, 30, 40, 2));
}

#[test]
fn small_log_is_not_rotated() {
    assert!(log_rotation_plan(16 * 1024 * 1024).is_empty());
}

#[test]
fn large_log_rotates_through_five_generations() {
    let plan = log_rotation_plan(16 * 1024 * 1024 + 1);
    assert_eq!(
        plan,
        vec![
            RotateStep::Remove(5),
            RotateStep::Rename { from: 4, to: 5 },
            RotateStep::Rename { from: 3, to: 4 },
            RotateStep::Rename { from: 2, to: 3 },
            RotateStep::Rename { from: 1, to: 2 },
            RotateStep::Rename { from: 0, to: 1 },
        ]
    );
}

#[test]
fn rotated_log_names() {
    assert_eq!(rotated_log_name("rakukan.log", 1), "rakukan.log.1");
    assert_eq!(rotated_log_name("rakukan.log", 12), "rakukan.log.12");
}

use gitlsf::counter::PARALLEL_THRESHOLD;
use gitlsf::plan::plan_batch;

#[test]
fn plan_splits_by_threshold_and_sorts_large_first() {
    let entries = vec![
        ("a".to_string(), Some(10)),
        ("big".to_string(), Some(PARALLEL_THRESHOLD + 5)),
        ("gone".to_string(), None),
        ("b".to_string(), Some(PARALLEL_THRESHOLD - 1)),
        ("edge".to_string(), Some(PARALLEL_THRESHOLD)),
        ("huge".to_string(), Some(PARALLEL_THRESHOLD * 40)),
        ("c".to_string(), Some(0)),
    ];
    let plan = plan_batch(&entries);
    let small: Vec<&str> = plan.small.iter().map(|i| i.path.as_str()).collect();
    let large: Vec<&str> = plan.large.iter().map(|i| i.path.as_str()).collect();
    assert_eq!(small, vec!["a", "b", "c"]);
    assert_eq!(large, vec!["huge", "big", "edge"]);
}

#[test]
fn plan_keeps_equal_sizes_in_order() {
    let entries = vec![
        ("x".to_string(), Some(PARALLEL_THRESHOLD)),
        ("y".to_string(), Some(PARALLEL_THRESHOLD * 2)),
        ("z".to_string(), Some(PARALLEL_THRESHOLD)),
    ];
    let plan = plan_batch(&entries);
    let large: Vec<&str> = plan.large.iter().map(|i| i.path.as_str()).collect();
    assert_eq!(large, vec!["y", "x", "z"]);
    assert!(plan.small.is_empty());
}

#[test]
fn plan_of_nothing_is_empty() {
    let plan = plan_batch(&Vec::new());
    assert!(plan.small.is_empty());
    assert!(plan.large.is_empty());
}

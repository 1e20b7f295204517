use rtosu_dataprovider::logging::plan_log_pruning;

fn names(list: &[&str]) -> Vec<String> {
    list.iter().map(|s| s.to_string()).collect()
}

#[test]
fn pruning_keeps_the_newest_logs() {
    let mut files: Vec<String> = (1..=10).rev().map(|i| format!("rtosu-2026-09-{:02}.log", i)).collect();
    files.push("other.log".to_string());
    files.push("rtosu-test.txt".to_string());
    let plan = plan_log_pruning(&files, 7);
    assert_eq!(plan.oldest_first.len(), 10);
    assert_eq!(plan.remove, 3);
    let removed: Vec<&str> = plan.oldest_first[..plan.remove]
        .iter()
        .map(|&i| files[i].as_str())
        .collect();
    assert_eq!(
        removed,
        vec!["rtosu-2026-09-01.log", "rtosu-2026-09-02.log", "rtosu-2026-09-03.log"]
    );
}

#[test]
fn pruning_is_a_noop_under_the_limit() {
    let files = names(&["rtosu-2026-09-02.log", "rtosu-2026-09-01.log", "notes.txt"]);
    let plan = plan_log_pruning(&files, 7);
    assert_eq!(plan.remove, 0);
    assert_eq!(plan.oldest_first, vec![1, 0]);
    assert_eq!(plan_log_pruning(&names(&[]), 0).remove, 0);
    assert_eq!(plan_log_pruning(&names(&["rtosu-.log", "rtosu-a.log"]), 0).remove, 2);
}

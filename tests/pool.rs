use spectre_grid::pool::GridManager;

fn grid(urls: &[&str]) -> GridManager {
    GridManager::new(urls.iter().map(|u| u.to_string()).collect())
}

#[test]
fn rotation_visits_each_node_once_in_order() {
    let mut g = grid(&["a", "b", "c"]);
    let got: Vec<Option<String>> = (0..3).map(|_| g.next_at(1_000)).collect();
    assert_eq!(got, vec![Some("a".to_string()), Some("b".to_string()), Some("c".to_string())]);
    assert_eq!(g.next_at(1_000), Some("a".to_string()));
}

#[test]
fn empty_pool_has_nothing() {
    let mut g = grid(&[]);
    assert_eq!(g.next_at(0), None);
    assert_eq!(g.get_next_node(), None);
}

#[test]
fn fourth_failure_starts_cooldown() {
    let mut g = grid(&["a", "b"]);
    for _ in 0..3 {
        g.report_failure_at("a", 1_000);
    }
    // three failures: still eligible
    assert_eq!(g.next_at(1_000), Some("a".to_string()));
    g.report_failure_at("a", 1_000);
    // fourth failure: excluded until 1_000 + 60_000
    assert_eq!(g.next_at(1_001), Some("b".to_string()));
    assert_eq!(g.next_at(1_002), Some("b".to_string()));
    assert_eq!(g.next_at(60_999), Some("b".to_string()));
}

#[test]
fn success_in_between_resets_the_count() {
    let mut g = grid(&["a"]);
    for _ in 0..3 {
        g.report_failure_at("a", 0);
    }
    g.report_success("a");
    g.report_failure_at("a", 0);
    assert_eq!(g.next_at(1), Some("a".to_string()));
}

#[test]
fn cooldown_recovers_after_deadline() {
    let mut g = grid(&["a"]);
    for _ in 0..4 {
        g.report_failure_at("a", 1_000);
    }
    assert_eq!(g.next_at(60_999), None);
    assert_eq!(g.next_at(61_000), Some("a".to_string()));
    // the failure count is back at zero: three more failures keep it eligible
    for _ in 0..3 {
        g.report_failure_at("a", 61_000);
    }
    assert_eq!(g.next_at(61_001), Some("a".to_string()));
}

#[test]
fn all_cooling_returns_none() {
    let mut g = grid(&["a", "b", "c"]);
    for u in ["a", "b", "c"] {
        for _ in 0..4 {
            g.report_failure_at(u, 5_000);
        }
    }
    assert_eq!(g.next_at(5_000), None);
    assert_eq!(g.next_at(64_999), None);
    assert_eq!(g.next_at(65_000), Some("a".to_string()));
}

#[test]
fn unknown_node_reports_change_nothing() {
    let mut g = grid(&["a", "b"]);
    for _ in 0..10 {
        g.report_failure_at("zzz", 0);
    }
    g.report_success("zzz");
    assert_eq!(g.next_at(1), Some("a".to_string()));
    assert_eq!(g.next_at(1), Some("b".to_string()));
}

#[test]
fn wall_clock_cooldown_excludes_node() {
    let mut g = grid(&["a", "b"]);
    for _ in 0..4 {
        g.report_failure("a");
    }
    assert_eq!(g.get_next_node(), Some("b".to_string()));
    assert_eq!(g.get_next_node(), Some("b".to_string()));
}

#[test]
fn success_leaves_cooldown_in_place() {
    let mut g = grid(&["a", "b"]);
    for _ in 0..4 {
        g.report_failure_at("a", 100);
    }
    g.report_success("a");
    assert_eq!(g.next_at(200), Some("b".to_string()));
    assert_eq!(g.next_at(200), Some("b".to_string()));
}

#[test]
fn deadline_saturates_at_largest_time() {
    let mut g = grid(&["a"]);
    for _ in 0..4 {
        g.report_failure_at("a", u64::MAX - 10);
    }
    assert_eq!(g.next_at(u64::MAX - 1), None);
    assert_eq!(g.next_at(u64::MAX), Some("a".to_string()));
}

use spectre_grid::dashboard::{health_percent, rps, TuiApp, HISTORY_LEN};
use spectre_grid::identity::{ClientFactory, Emulation, IdentityError};
use spectre_grid::orchestrator::{escalation_outcome, plan, settle, Step};
use spectre_grid::pool::GridManager;
use spectre_grid::solver::{BrowserSolver, PollAction, POLL_TIMEOUT_MILLIS};
use spectre_grid::telemetry::{EngineStats, Outcome, Tally};
use spectre_grid::classify::Verdict;

fn profiles() -> ClientFactory {
    ClientFactory::new(vec![
        ("desktop".to_string(), "chrome_130".to_string()),
        ("mac".to_string(), "safari_16".to_string()),
        ("odd".to_string(), "netscape_4".to_string()),
    ])
}

#[test]
fn known_profiles_pick_their_fingerprint() {
    let f = profiles();
    let p = f.create_client("desktop", Some("http://10.0.0.1:8080")).unwrap();
    assert_eq!(p.emulation, Emulation::Chrome130);
    assert_eq!(p.proxy.as_deref(), Some("http://10.0.0.1:8080"));
    let p = f.create_client("mac", None).unwrap();
    assert_eq!(p.emulation, Emulation::Safari16_5);
    assert_eq!(p.proxy, None);
}

#[test]
fn unknown_identity_falls_back_to_chrome() {
    let p = profiles().create_client("odd", None).unwrap();
    assert_eq!(p.emulation, Emulation::Chrome130);
}

#[test]
fn unknown_profile_is_an_error() {
    match profiles().create_client("phone", None) {
        Err(IdentityError::UnknownProfile(k)) => assert_eq!(k, "phone"),
        Ok(_) => panic!("expected an error"),
    }
}

#[test]
fn counters_add_up_for_built_clients() {
    let mut t = Tally::new();
    for o in [Outcome::Passed, Outcome::Blocked, Outcome::NetworkFailed, Outcome::Solved, Outcome::Unsolved] {
        t.record(o);
    }
    assert_eq!(t.total, 5);
    assert_eq!(t.total, t.success + t.blocked + t.failed);
    assert_eq!((t.success, t.blocked, t.failed), (2, 2, 1));
}

#[test]
fn build_failure_counts_only_failed() {
    let mut t = Tally::new();
    t.record(Outcome::Passed);
    t.record(Outcome::BuildFailed);
    assert_eq!(t, Tally { total: 1, success: 1, blocked: 0, failed: 1 });
    let stats = EngineStats::default();
    stats.record(Outcome::BuildFailed);
    stats.record(Outcome::Blocked);
    assert_eq!(stats.snapshot(), Tally { total: 1, success: 0, blocked: 1, failed: 1 });
}

#[test]
fn settle_reports_to_the_pool() {
    let mut g = GridManager::new(vec!["a".to_string(), "b".to_string()]);
    let stats = EngineStats::default();
    for _ in 0..4 {
        settle(&mut g, &stats, "a", Outcome::BuildFailed);
    }
    assert_eq!(g.get_next_node(), Some("a".to_string()));
    for _ in 0..4 {
        settle(&mut g, &stats, "a", Outcome::Unsolved);
    }
    assert_eq!(g.get_next_node(), Some("b".to_string()));
    assert_eq!(g.get_next_node(), Some("b".to_string()));
    assert_eq!(stats.snapshot(), Tally { total: 4, success: 0, blocked: 4, failed: 4 });
}

#[test]
fn verdicts_lead_to_steps() {
    assert_eq!(plan(&Verdict::Success), Step::Settle(Outcome::Passed));
    assert_eq!(plan(&Verdict::Blocked("HTTP 403".to_string())), Step::Settle(Outcome::Blocked));
    assert_eq!(plan(&Verdict::Challenge("Generic JS".to_string())), Step::Escalate);
    assert_eq!(escalation_outcome(true), Outcome::Solved);
    assert_eq!(escalation_outcome(false), Outcome::Unsolved);
}

#[test]
fn launch_args_strip_the_scheme() {
    let args = BrowserSolver::launch_args(Some("http://1.2.3.4:8080"));
    assert_eq!(args.len(), 5);
    assert_eq!(args[0], "--no-sandbox");
    assert_eq!(args[4], "--proxy-server=1.2.3.4:8080");
    let args = BrowserSolver::launch_args(Some("https://proxy:1"));
    assert_eq!(args[4], "--proxy-server=proxy:1");
    assert_eq!(BrowserSolver::launch_args(None).len(), 4);
}

#[test]
fn first_present_browser_is_chosen() {
    let found = BrowserSolver::find_chrome_binary(&vec![false, false, true, true, false, false]);
    assert_eq!(found.as_deref(), Some("/usr/bin/google-chrome"));
    assert_eq!(BrowserSolver::find_chrome_binary(&vec![false; 6]), None);
}

#[test]
fn pointer_moves_stay_in_range() {
    assert_eq!(BrowserSolver::pointer_path(500, 250), vec![(0, 0), (100, 50), (200, 100), (300, 150), (400, 200)]);
    let moves = BrowserSolver::plan_pointer_moves();
    assert_eq!(moves.len(), 5);
    assert_eq!((moves[0].x, moves[0].y), (0, 0));
    for m in &moves {
        assert!(m.pause_millis >= 50 && m.pause_millis < 150);
        assert!(m.x < 800 && m.y < 600);
    }
    assert!(moves[4].x >= 80 && moves[4].y >= 80);
}

#[test]
fn cookies_join_into_one_header() {
    let cs = vec![("a".to_string(), "1".to_string()), ("sid".to_string(), "xyz".to_string())];
    assert_eq!(BrowserSolver::join_cookies(&cs), "a=1; sid=xyz");
    assert_eq!(BrowserSolver::join_cookies(&vec![]), "");
}

#[test]
fn polling_solves_times_out_or_waits() {
    let cs = vec![("cf_clearance".to_string(), "ok".to_string())];
    match BrowserSolver::poll_step(1_000, Some("<app-root></app-root>"), Some(&cs)) {
        PollAction::Solved(c) => assert_eq!(c, "cf_clearance=ok"),
        _ => panic!("expected solved"),
    }
    assert!(matches!(BrowserSolver::poll_step(1_000, Some("still checking"), Some(&cs)), PollAction::Wait));
    assert!(matches!(BrowserSolver::poll_step(1_000, Some("Access Granted"), Some(&vec![])), PollAction::Wait));
    assert!(matches!(BrowserSolver::poll_step(1_000, None, None), PollAction::Wait));
    assert!(matches!(
        BrowserSolver::poll_step(POLL_TIMEOUT_MILLIS, Some("Access Granted"), Some(&cs)),
        PollAction::TimedOut
    ));
}

#[test]
fn dashboard_keeps_a_bounded_history() {
    let mut app = TuiApp::new(EngineStats::default());
    assert_eq!(app.latency_history().len(), HISTORY_LEN);
    app.push_latency(42);
    assert_eq!(app.latency_history().len(), HISTORY_LEN);
    assert_eq!(*app.latency_history().last().unwrap(), 42);
    assert_eq!(rps(57), 5);
    assert_eq!(health_percent(0, 0), 100);
    assert_eq!(health_percent(1, 3), 33);
    assert_eq!(health_percent(3, 3), 100);
}

use spectre_grid::classify::{ResponseAnalyzer, Verdict};

fn reason(v: &Verdict) -> String {
    match v {
        Verdict::Success => "success".to_string(),
        Verdict::Blocked(r) => format!("blocked:{}", r),
        Verdict::Challenge(k) => format!("challenge:{}", k),
    }
}

#[test]
fn success_marker_wins_over_block_keyword() {
    let v = ResponseAnalyzer::analyze(200, "...Access Granted...captcha...");
    assert!(matches!(v, Verdict::Success));
    let v = ResponseAnalyzer::analyze(403, "<app-root>access denied</app-root>");
    assert!(matches!(v, Verdict::Success));
}

#[test]
fn forbidden_status_is_blocked() {
    assert_eq!(reason(&ResponseAnalyzer::analyze(403, "plain text")), "blocked:HTTP 403");
    assert_eq!(reason(&ResponseAnalyzer::analyze(429, "")), "blocked:HTTP 429");
}

#[test]
fn browser_check_is_a_challenge() {
    let v = ResponseAnalyzer::analyze(200, "Checking your browser before accessing");
    assert!(matches!(v, Verdict::Challenge(_)));
    assert_eq!(reason(&v), "challenge:Generic JS");
}

#[test]
fn challenge_markers_ignore_case() {
    assert_eq!(
        reason(&ResponseAnalyzer::analyze(503, "Please ENABLE JAVASCRIPT")),
        "challenge:Generic JS"
    );
    assert_eq!(
        reason(&ResponseAnalyzer::analyze(403, "CloudFlare ... Ray ID: 1234")),
        "challenge:Cloudflare"
    );
}

#[test]
fn provider_needs_both_markers() {
    assert_eq!(reason(&ResponseAnalyzer::analyze(200, "cloudflare cdn")), "success");
}

#[test]
fn challenge_beats_forbidden_status() {
    assert_eq!(
        reason(&ResponseAnalyzer::analyze(403, "checking your browser")),
        "challenge:Generic JS"
    );
}

#[test]
fn block_keywords_in_order() {
    assert_eq!(
        reason(&ResponseAnalyzer::analyze(200, "ACCESS DENIED")),
        "blocked:keyword: access denied"
    );
    assert_eq!(
        reason(&ResponseAnalyzer::analyze(200, "Attention Required! security check")),
        "blocked:keyword: attention required"
    );
    assert_eq!(
        reason(&ResponseAnalyzer::analyze(200, "a Security Check")),
        "blocked:keyword: security check"
    );
}

#[test]
fn status_decides_last() {
    assert_eq!(reason(&ResponseAnalyzer::analyze(204, "hello")), "success");
    assert_eq!(reason(&ResponseAnalyzer::analyze(299, "")), "success");
    assert_eq!(reason(&ResponseAnalyzer::analyze(300, "")), "blocked:status 300");
    assert_eq!(reason(&ResponseAnalyzer::analyze(500, "oops")), "blocked:status 500");
    assert_eq!(reason(&ResponseAnalyzer::analyze(0, "")), "blocked:status 0");
    assert_eq!(reason(&ResponseAnalyzer::analyze(65535, "")), "blocked:status 65535");
}

#[test]
fn lowered_body_is_what_rules_read() {
    assert_eq!(
        reason(&ResponseAnalyzer::analyze_lowered(200, "X", "access denied")),
        "blocked:keyword: access denied"
    );
    assert_eq!(
        reason(&ResponseAnalyzer::analyze_lowered(200, "ACCESS DENIED", "nothing")),
        "success"
    );
}

use rand::Rng;
use vstd::prelude::*;

use crate::classify::has_success_marker;
use crate::text::{chars_of, contains_chars};

verus! {

/// Longest wait for a challenge to clear, in milliseconds.
pub const POLL_TIMEOUT_MILLIS: u64 = 30000;

/// Pause between two looks at the page, in milliseconds.
pub const POLL_INTERVAL_MILLIS: u64 = 500;

/// Number of pointer moves in a simulated approach.
pub const POINTER_STEPS: u64 = 5;

/// `s` with every occurrence of `pat`, taken left to right without overlap,
/// removed.
pub open spec fn remove_all(s: Seq<char>, pat: Seq<char>) -> Seq<char>
    decreases s.len(),
{
    if pat.len() == 0 || s.len() < pat.len() {
        s
    } else if s.subrange(0, pat.len() as int) == pat {
        remove_all(s.skip(pat.len() as int), pat)
    } else {
        seq![s[0]] + remove_all(s.drop_first(), pat)
    }
}

/// Relies on `str::replace` with an empty replacement: every non-overlapping
/// match of a non-empty pattern, left to right, is removed.
#[verifier::external_body]
fn remove_pattern(s: &str, pat: &str) -> (r: String)
    requires
        pat@.len() > 0,
    ensures
        r@ == remove_all(s@, pat@),
{
    s.replace(pat, "")
}

/// The fixed startup flags of an isolated browser session.
pub open spec fn base_flags() -> Seq<Seq<char>> {
    seq![
        "--no-sandbox"@,
        "--disable-gpu"@,
        "--window-size=1920,1080"@,
        "--disable-blink-features=AutomationControlled"@,
    ]
}

/// A proxy address without its scheme prefixes.
pub open spec fn proxy_host(p: Seq<char>) -> Seq<char> {
    remove_all(remove_all(p, "http://"@), "https://"@)
}

/// The flags of a session, routed through `proxy` when there is one.
pub open spec fn launch_flags(proxy: Option<Seq<char>>) -> Seq<Seq<char>> {
    match proxy {
        None => base_flags(),
        Some(p) => base_flags().push("--proxy-server="@ + proxy_host(p)),
    }
}

/// The views of a list of strings.
pub open spec fn views(v: Seq<String>) -> Seq<Seq<char>> {
    v.map_values(|s: String| s@)
}

/// The places where a browser executable is looked for, in order.
pub open spec fn browser_candidates_spec() -> Seq<Seq<char>> {
    seq![
        "/usr/bin/chromium"@,
        "/usr/bin/chromium-browser"@,
        "/usr/bin/google-chrome"@,
        "/snap/bin/chromium"@,
        "C:\\Program Files\\Google\\Chrome\\Application\\chrome.exe"@,
        "C:\\Program Files (x86)\\Google\\Chrome\\Application\\chrome.exe"@,
    ]
}

/// One cookie as `name=value`.
pub open spec fn cookie_pair(c: (Seq<char>, Seq<char>)) -> Seq<char> {
    c.0 + "="@ + c.1
}

/// Cookies joined into one header-style string: `a=1; b=2`.
pub open spec fn join_cookies(cs: Seq<(Seq<char>, Seq<char>)>) -> Seq<char>
    decreases cs.len(),
{
    if cs.len() == 0 {
        Seq::empty()
    } else if cs.len() == 1 {
        cookie_pair(cs[0])
    } else {
        join_cookies(cs.drop_last()) + "; "@ + cookie_pair(cs.last())
    }
}

/// The views of a list of cookies.
pub open spec fn cookie_views(cs: Seq<(String, String)>) -> Seq<(Seq<char>, Seq<char>)> {
    cs.map_values(|c: (String, String)| (c.0@, c.1@))
}

/// What the session does after one look at the page.
pub enum PollAction {
    /// The challenge cleared; this is the credential.
    Solved(String),
    /// Look again after the poll interval.
    Wait,
    /// The time is up.
    TimedOut,
}

/// A step of the simulated pointer approach.
#[derive(Clone, Copy, Debug, PartialEq, Eq, Structural)]
pub struct PointerStep {
    pub x: u32,
    pub y: u32,
    pub pause_millis: u64,
}

/// Relies on rand's `thread_rng().gen_range(lo..hi)`: a value in `[lo, hi)`.
/// It panics on an empty range, which `requires` rules out.
#[verifier::external_body]
fn random_in(lo: u64, hi: u64) -> (r: u64)
    requires
        lo < hi,
    ensures
        lo <= r < hi,
{
    rand::thread_rng().gen_range(lo..hi)
}

/// `steps` approach `(ex, ey)`, drawn in `[100, 800) x [100, 600)`: step `i`
/// stands at `i / 5` of the way and pauses for `[50, 150)` ms.
pub open spec fn approaches(steps: Seq<PointerStep>, ex: u32, ey: u32) -> bool {
    &&& 100 <= ex < 800
    &&& 100 <= ey < 600
    &&& steps.len() == POINTER_STEPS
    &&& forall|i: int|
        0 <= i < POINTER_STEPS ==> {
            &&& (#[trigger] steps[i]).x == (ex * i / 5) as u32
            &&& steps[i].y == (ey * i / 5) as u32
            &&& 50 <= steps[i].pause_millis < 150
        }
}

/// Marker type for the browser escalation.
pub struct BrowserSolver;

impl BrowserSolver {
    /// The browser's startup flags, with a proxy flag when `proxy` is given.
    pub fn launch_args(proxy: Option<&str>) -> (r: Vec<String>)
        ensures
            views(r@) == launch_flags(
                match proxy {
                    Some(p) => Some(p@),
                    None => None,
                },
            ),
    {
        let mut args: Vec<String> = Vec::new();
        args.push(String::from_str("--no-sandbox"));
        args.push(String::from_str("--disable-gpu"));
        args.push(String::from_str("--window-size=1920,1080"));
        args.push(String::from_str("--disable-blink-features=AutomationControlled"));
        proof {
            reveal_strlit("http://");
            reveal_strlit("https://");
        }
        match proxy {
            Some(p) => {
                let no_http = remove_pattern(p, "http://");
                let host = remove_pattern(no_http.as_str(), "https://");
                let mut flag = String::from_str("--proxy-server=");
                flag.append(host.as_str());
                args.push(flag);
            },
            None => {},
        }
        proof {
            assert(views(args@) =~= launch_flags(
                match proxy {
                    Some(p) => Some(p@),
                    None => None,
                },
            ));
        }
        args
    }

    /// The places where a browser executable is looked for, in order.
    pub fn browser_candidates() -> (r: Vec<String>)
        ensures
            views(r@) == browser_candidates_spec(),
    {
        let mut v: Vec<String> = Vec::new();
        v.push(String::from_str("/usr/bin/chromium"));
        v.push(String::from_str("/usr/bin/chromium-browser"));
        v.push(String::from_str("/usr/bin/google-chrome"));
        v.push(String::from_str("/snap/bin/chromium"));
        v.push(String::from_str("C:\\Program Files\\Google\\Chrome\\Application\\chrome.exe"));
        v.push(
            String::from_str("C:\\Program Files (x86)\\Google\\Chrome\\Application\\chrome.exe"),
        );
        proof {
            assert(views(v@) =~= browser_candidates_spec());
        }
        v
    }

    /// The first candidate that is present, given which of the candidates of
    /// `browser_candidates` exist.
    pub fn find_chrome_binary(present: &Vec<bool>) -> (r: Option<String>)
        requires
            present@.len() == browser_candidates_spec().len(),
        ensures
            match r {
                None => forall|i: int| 0 <= i < present@.len() ==> !present@[i],
                Some(p) => exists|i: int|
                    0 <= i < present@.len() && present@[i] && p@ == browser_candidates_spec()[i]
                        && forall|k: int| 0 <= k < i ==> !present@[k],
            },
    {
        let candidates = Self::browser_candidates();
        let mut i: usize = 0;
        while i < present.len()
            invariant
                i <= present@.len(),
                present@.len() == candidates@.len(),
                views(candidates@) == browser_candidates_spec(),
                forall|k: int| 0 <= k < i ==> !present@[k],
            decreases present@.len() - i,
        {
            if present[i] {
                let p = candidates[i].clone();
                proof {
                    assert(views(candidates@)[i as int] == candidates@[i as int]@);
                }
                return Some(p);
            }
            i = i + 1;
        }
        None
    }

    /// The pointer positions of an approach from the origin towards
    /// `(end_x, end_y)`: step `i` of five stands at `i / 5` of the way.
    pub fn pointer_path(end_x: u32, end_y: u32) -> (r: Vec<(u32, u32)>)
        ensures
            r@.len() == POINTER_STEPS,
            forall|i: int|
                0 <= i < POINTER_STEPS ==> #[trigger] r@[i] == ((end_x * i / 5) as u32, (end_y * i
                    / 5) as u32),
    {
        let mut r: Vec<(u32, u32)> = Vec::new();
        let mut i: u64 = 0;
        while i < POINTER_STEPS
            invariant
                i <= POINTER_STEPS,
                r@.len() == i,
                forall|k: int|
                    0 <= k < i ==> #[trigger] r@[k] == ((end_x * k / 5) as u32, (end_y * k
                        / 5) as u32),
            decreases POINTER_STEPS - i,
        {
            proof {
                assert((end_x as int) * (i as int) <= 4294967295 * 5) by (nonlinear_arith)
                    requires
                        end_x <= 4294967295,
                        i <= 5,
                ;
                assert((end_y as int) * (i as int) <= 4294967295 * 5) by (nonlinear_arith)
                    requires
                        end_y <= 4294967295,
                        i <= 5,
                ;
                assert((end_x as int) * (i as int) / 5 <= end_x) by (nonlinear_arith)
                    requires
                        i <= 5,
                ;
                assert((end_y as int) * (i as int) / 5 <= end_y) by (nonlinear_arith)
                    requires
                        i <= 5,
                ;
            }
            let x: u64 = (end_x as u64) * i / 5;
            let y: u64 = (end_y as u64) * i / 5;
            r.push((x as u32, y as u32));
            i = i + 1;
        }
        r
    }

    /// A randomised approach: a destination drawn in `[100, 800) x [100, 600)`,
    /// five positions towards it, and a pause in `[50, 150)` ms after each.
    pub fn plan_pointer_moves() -> (r: Vec<PointerStep>)
        ensures
            r@.len() == POINTER_STEPS,
            exists|ex: u32, ey: u32| #[trigger] approaches(r@, ex, ey),
    {
        let ex = random_in(100, 800) as u32;
        let ey = random_in(100, 600) as u32;
        let path = Self::pointer_path(ex, ey);
        let mut r: Vec<PointerStep> = Vec::new();
        let mut i: usize = 0;
        while i < path.len()
            invariant
                path@.len() == POINTER_STEPS,
                i <= path@.len(),
                r@.len() == i,
                100 <= ex < 800,
                100 <= ey < 600,
                forall|k: int|
                    0 <= k < POINTER_STEPS ==> #[trigger] path@[k] == ((ex * k / 5) as u32, (ey
                        * k / 5) as u32),
                forall|k: int|
                    0 <= k < i ==> {
                        &&& (#[trigger] r@[k]).x == (ex * k / 5) as u32
                        &&& r@[k].y == (ey * k / 5) as u32
                        &&& 50 <= r@[k].pause_millis < 150
                    },
            decreases path@.len() - i,
        {
            let (x, y) = path[i];
            let pause = random_in(50, 150);
            r.push(PointerStep { x, y, pause_millis: pause });
            i = i + 1;
        }
        assert(approaches(r@, ex, ey));
        r
    }

    /// Whether a page shows the real content.
    pub fn page_shows_success(content: &str) -> (r: bool)
        ensures
            r == has_success_marker(content@),
    {
        let c = chars_of(content);
        let a = chars_of("OWASP Juice Shop");
        let b = chars_of("app-root");
        let g = chars_of("Access Granted");
        contains_chars(&c, &a) || contains_chars(&c, &b) || contains_chars(&c, &g)
    }

    /// All cookies joined into one header-style credential: `a=1; b=2`.
    pub fn join_cookies(cookies: &Vec<(String, String)>) -> (r: String)
        ensures
            r@ == join_cookies(cookie_views(cookies@)),
    {
        let ghost cv = cookie_views(cookies@);
        let mut out = String::new();
        let mut i: usize = 0;
        while i < cookies.len()
            invariant
                i <= cookies@.len(),
                cv == cookie_views(cookies@),
                out@ == join_cookies(cv.take(i as int)),
            decreases cookies@.len() - i,
        {
            proof {
                reveal_strlit("; ");
                reveal_strlit("=");
            }
            if i > 0 {
                out.append("; ");
            }
            out.append(cookies[i].0.as_str());
            out.append("=");
            out.append(cookies[i].1.as_str());
            proof {
                let t = cv.take(i + 1);
                assert(t.drop_last() =~= cv.take(i as int));
                assert(t.last() == (cookies@[i as int].0@, cookies@[i as int].1@));
                if i == 0 {
                    assert(out@ =~= cookie_pair(t[0]));
                } else {
                    assert(out@ =~= join_cookies(t.drop_last()) + "; "@ + cookie_pair(t.last()));
                }
            }
            i = i + 1;
        }
        proof {
            assert(cv.take(cookies@.len() as int) =~= cv);
        }
        out
    }

    /// One look at the page, `elapsed_ms` after navigation, given its content
    /// and its cookies (either may be unavailable): solved when the page shows
    /// the real content and the cookies join into a non-empty credential;
    /// otherwise wait, until the timeout.
    pub fn poll_step(
        elapsed_ms: u64,
        content: Option<&str>,
        cookies: Option<&Vec<(String, String)>>,
    ) -> (r: PollAction)
        ensures
            elapsed_ms >= POLL_TIMEOUT_MILLIS ==> r is TimedOut,
            elapsed_ms < POLL_TIMEOUT_MILLIS ==> match r {
                PollAction::Solved(c) => {
                    &&& content is Some
                    &&& has_success_marker(content->0@)
                    &&& cookies is Some
                    &&& c@ == join_cookies(cookie_views(cookies->0@))
                    &&& c@.len() > 0
                },
                PollAction::Wait => !(content is Some && has_success_marker(content->0@)
                    && cookies is Some && join_cookies(cookie_views(cookies->0@)).len() > 0),
                PollAction::TimedOut => false,
            },
    {
        if elapsed_ms >= POLL_TIMEOUT_MILLIS {
            return PollAction::TimedOut;
        }
        match content {
            Some(page) => {
                if Self::page_shows_success(page) {
                    match cookies {
                        Some(cs) => {
                            let joined = Self::join_cookies(cs);
                            if joined.unicode_len() > 0 {
                                return PollAction::Solved(joined);
                            }
                        },
                        None => {},
                    }
                }
            },
            None => {},
        }
        PollAction::Wait
    }
}

} // verus!

use vstd::prelude::*;

use crate::text::{chars_of, contains_chars, seq_contains};

verus! {

/// The decimal digit character for `d < 10`.
pub open spec fn digit_char(d: nat) -> char {
    if d == 0 {
        '0'
    } else if d == 1 {
        '1'
    } else if d == 2 {
        '2'
    } else if d == 3 {
        '3'
    } else if d == 4 {
        '4'
    } else if d == 5 {
        '5'
    } else if d == 6 {
        '6'
    } else if d == 7 {
        '7'
    } else if d == 8 {
        '8'
    } else {
        '9'
    }
}

/// The decimal numeral of `n`, without leading zeros.
pub open spec fn decimal(n: nat) -> Seq<char>
    decreases n,
{
    if n < 10 {
        seq![digit_char(n)]
    } else {
        decimal(n / 10).push(digit_char(n % 10))
    }
}

fn digit_str(d: u16) -> (r: &'static str)
    requires
        d < 10,
    ensures
        r@ == seq![digit_char(d as nat)],
{
    proof {
        reveal_strlit("0");
        reveal_strlit("1");
        reveal_strlit("2");
        reveal_strlit("3");
        reveal_strlit("4");
        reveal_strlit("5");
        reveal_strlit("6");
        reveal_strlit("7");
        reveal_strlit("8");
        reveal_strlit("9");
    }
    let r = if d == 0 {
        "0"
    } else if d == 1 {
        "1"
    } else if d == 2 {
        "2"
    } else if d == 3 {
        "3"
    } else if d == 4 {
        "4"
    } else if d == 5 {
        "5"
    } else if d == 6 {
        "6"
    } else if d == 7 {
        "7"
    } else if d == 8 {
        "8"
    } else {
        "9"
    };
    proof {
        assert(r@ =~= seq![digit_char(d as nat)]);
    }
    r
}

/// Appends the decimal numeral of `n` to `out`.
pub fn push_decimal(out: &mut String, n: u16)
    ensures
        final(out)@ == old(out)@ + decimal(n as nat),
    decreases n,
{
    if n >= 10 {
        push_decimal(out, n / 10);
    }
    out.append(digit_str(n % 10));
    proof {
        if n >= 10 {
            assert(old(out)@ + decimal(n as nat) =~= old(out)@ + decimal((n / 10) as nat) + seq![
                digit_char((n % 10) as nat),
            ]);
        } else {
            assert(decimal(n as nat) =~= seq![digit_char((n % 10) as nat)]);
        }
    }
}

/// A string made of a fixed prefix followed by the decimal numeral of `n`.
fn labelled_number(prefix: &str, n: u16) -> (r: String)
    ensures
        r@ == prefix@ + decimal(n as nat),
{
    let mut s = String::from_str(prefix);
    push_decimal(&mut s, n);
    s
}

/// A name for `str::to_lowercase` of a text.
pub uninterp spec fn lower_of(s: Seq<char>) -> Seq<char>;

/// Relies on `str::to_lowercase`: the result depends on the characters alone.
#[verifier::external_body]
fn lowercase(s: &str) -> (r: String)
    ensures
        r@ == lower_of(s@),
{
    s.to_lowercase()
}

/// The meaning of a verdict.
pub enum Judgement {
    Success,
    Blocked(Seq<char>),
    Challenge(Seq<char>),
}

/// The outcome of classifying one response.
#[derive(Debug)]
pub enum Verdict {
    Success,
    Blocked(String),
    Challenge(String),
}

impl View for Verdict {
    type V = Judgement;

    open spec fn view(&self) -> Judgement {
        match self {
            Verdict::Success => Judgement::Success,
            Verdict::Blocked(s) => Judgement::Blocked(s@),
            Verdict::Challenge(s) => Judgement::Challenge(s@),
        }
    }
}

/// A body that carries one of the markers of the real content.
pub open spec fn has_success_marker(body: Seq<char>) -> bool {
    seq_contains(body, "OWASP Juice Shop"@) || seq_contains(body, "app-root"@) || seq_contains(
        body,
        "Access Granted"@,
    )
}

/// A lowered body that carries the generic script-check interstitial.
pub open spec fn has_generic_challenge(lower: Seq<char>) -> bool {
    seq_contains(lower, "checking your browser"@) || seq_contains(lower, "enable javascript"@)
}

/// A lowered body that carries both markers of the named provider's interstitial.
pub open spec fn has_provider_challenge(lower: Seq<char>) -> bool {
    seq_contains(lower, "cloudflare"@) && seq_contains(lower, "ray id"@)
}

/// The verdict on a response, given its status, its body and its lowered body:
/// the first rule that matches decides.
pub open spec fn judge(status: u16, body: Seq<char>, lower: Seq<char>) -> Judgement {
    if has_success_marker(body) {
        Judgement::Success
    } else if has_generic_challenge(lower) {
        Judgement::Challenge("Generic JS"@)
    } else if has_provider_challenge(lower) {
        Judgement::Challenge("Cloudflare"@)
    } else if status == 403 || status == 429 {
        Judgement::Blocked("HTTP "@ + decimal(status as nat))
    } else if seq_contains(lower, "access denied"@) {
        Judgement::Blocked("keyword: access denied"@)
    } else if seq_contains(lower, "attention required"@) {
        Judgement::Blocked("keyword: attention required"@)
    } else if seq_contains(lower, "security check"@) {
        Judgement::Blocked("keyword: security check"@)
    } else if 200 <= status < 300 {
        Judgement::Success
    } else {
        Judgement::Blocked("status "@ + decimal(status as nat))
    }
}

/// Whether `lit` occurs in `text`.
fn has(text: &Vec<char>, lit: &str) -> (r: bool)
    ensures
        r == seq_contains(text@, lit@),
{
    let needle = chars_of(lit);
    contains_chars(text, &needle)
}

/// Marker type for the response classifier.
pub struct ResponseAnalyzer;

impl ResponseAnalyzer {
    /// Classifies a response from its status, its body and the body in lower case.
    pub fn analyze_lowered(status: u16, body: &str, lower: &str) -> (r: Verdict)
        ensures
            r@ == judge(status, body@, lower@),
    {
        let b = chars_of(body);
        let l = chars_of(lower);
        if has(&b, "OWASP Juice Shop") || has(&b, "app-root") || has(&b, "Access Granted") {
            return Verdict::Success;
        }
        if has(&l, "checking your browser") || has(&l, "enable javascript") {
            return Verdict::Challenge(String::from_str("Generic JS"));
        }
        if has(&l, "cloudflare") && has(&l, "ray id") {
            return Verdict::Challenge(String::from_str("Cloudflare"));
        }
        if status == 403 || status == 429 {
            return Verdict::Blocked(labelled_number("HTTP ", status));
        }
        if has(&l, "access denied") {
            return Verdict::Blocked(String::from_str("keyword: access denied"));
        }
        if has(&l, "attention required") {
            return Verdict::Blocked(String::from_str("keyword: attention required"));
        }
        if has(&l, "security check") {
            return Verdict::Blocked(String::from_str("keyword: security check"));
        }
        if 200 <= status && status < 300 {
            Verdict::Success
        } else {
            Verdict::Blocked(labelled_number("status ", status))
        }
    }

    /// Classifies a response from its status and body; the challenge and
    /// keyword rules read the body in lower case.
    pub fn analyze(status: u16, body: &str) -> (r: Verdict)
        ensures
            r@ == judge(status, body@, lower_of(body@)),
    {
        let lower = lowercase(body);
        Self::analyze_lowered(status, body, lower.as_str())
    }
}

} // verus!

//! Device-integrity evaluation: turn the evidence a host collects into a
//! verdict, a risk score and human-readable findings, and render a report as
//! JSON for attestation signing.

use vstd::prelude::*;
use vstd::string::{StrSliceExecFns, StringExecFns};
use crate::trusted::json_strings_of;

verus! {

/// The overall verdict over a device.
#[derive(Clone, Copy, Debug, PartialEq, Eq, Structural)]
pub enum IntegrityVerdict {
    /// Hardware-backed confidence.
    Genuine,
    /// Soft indicators were found.
    Suspicious,
    /// Hard rooting or tampering indicators were found.
    Compromised,
}

/// An integrity report: the verdict, readable findings, and a risk score
/// from 0 (safe) to 100.
#[derive(Debug)]
pub struct IntegrityReport {
    pub verdict: IntegrityVerdict,
    pub details: Vec<String>,
    pub risk_score: u8,
}

/// Whether a string contains another as a contiguous substring.
pub open spec fn spec_contains(h: Seq<char>, n: Seq<char>) -> bool {
    exists|k: int| 0 <= k <= h.len() - n.len() && #[trigger] h.subrange(k, k + n.len()) == n
}

/// The score contribution of the platform verdict token, fail-closed: an
/// absent token scores 10; a token carrying the device-integrity verdict
/// scores nothing; one carrying only the basic-integrity verdict scores 15;
/// every other supplied token is treated as a failed check and scores 35.
pub open spec fn spec_play_score(verdict: Option<Seq<char>>) -> int {
    match verdict {
        Option::None => 10,
        Option::Some(v) => if spec_contains(v, "MEETS_DEVICE_INTEGRITY"@) {
            0
        } else if spec_contains(v, "MEETS_BASIC_INTEGRITY"@) {
            15
        } else {
            35
        },
    }
}

/// The total risk score: file findings 40, property findings 30, rooting
/// indicators 20, plus the platform-verdict contribution, capped at 100.
pub open spec fn spec_risk_score(
    n_files: int,
    n_props: int,
    magisk: bool,
    verdict: Option<Seq<char>>,
) -> int {
    let s = (if n_files > 0 { 40int } else { 0int }) + (if n_props > 0 { 30int } else { 0int }) + (
    if magisk { 20int } else { 0int }) + spec_play_score(verdict);
    if s > 100 {
        100
    } else {
        s
    }
}

/// How many findings the evidence produces (one per scoring condition).
pub open spec fn spec_detail_count(
    n_files: int,
    n_props: int,
    magisk: bool,
    verdict: Option<Seq<char>>,
) -> int {
    (if n_files > 0 { 1int } else { 0int }) + (if n_props > 0 { 1int } else { 0int }) + (if magisk {
        1int
    } else {
        0int
    }) + (if spec_play_score(verdict) != 0 { 1int } else { 0int })
}

/// The verdict a score maps to: 0 is genuine, below 50 suspicious, the rest
/// compromised.
pub open spec fn spec_verdict_of(score: int) -> IntegrityVerdict {
    if score == 0 {
        IntegrityVerdict::Genuine
    } else if score < 50 {
        IntegrityVerdict::Suspicious
    } else {
        IntegrityVerdict::Compromised
    }
}

/// The view of an optional token.
pub open spec fn token_view(v: &Option<String>) -> Option<Seq<char>> {
    match v {
        Option::Some(s) => Option::Some(s@),
        Option::None => Option::None,
    }
}

/// Evaluate the evidence a host collects (suspicious file paths, tampered
/// system properties, rooting-framework indicators, and the platform
/// integrity verdict it obtained) into an integrity report.
pub fn evaluate_integrity(
    suspicious_files: Vec<String>,
    suspicious_props: Vec<String>,
    magisk_indicators: bool,
    play_integrity_verdict: Option<String>,
) -> (r: IntegrityReport)
    ensures
        r.risk_score as int == spec_risk_score(
            suspicious_files@.len() as int,
            suspicious_props@.len() as int,
            magisk_indicators,
            token_view(&play_integrity_verdict),
        ),
        r.verdict == spec_verdict_of(r.risk_score as int),
        r.details@.len() == spec_detail_count(
            suspicious_files@.len() as int,
            suspicious_props@.len() as int,
            magisk_indicators,
            token_view(&play_integrity_verdict),
        ),
{
    let mut details: Vec<String> = Vec::new();
    let mut score: u16 = 0;

    if suspicious_files.len() > 0 {
        score = score + 40;
        details.push("Suspicious files detected".to_owned());
    }
    if suspicious_props.len() > 0 {
        score = score + 30;
        details.push("Tamper props detected".to_owned());
    }
    if magisk_indicators {
        score = score + 20;
        details.push("Magisk/Zygisk indicators found".to_owned());
    }
    match &play_integrity_verdict {
        Some(pi) => {
            if str_contains(pi.as_str(), "MEETS_DEVICE_INTEGRITY") {
                // hardware-backed confidence: nothing to add
            } else if str_contains(pi.as_str(), "MEETS_BASIC_INTEGRITY") {
                score = score + 15;
                details.push(
                    "Basic integrity only \u{2014} possible emulator/soft root".to_owned(),
                );
            } else {
                score = score + 35;
                details.push("Play Integrity failed \u{2014} compromised".to_owned());
            }
        },
        None => {
            score = score + 10;
            details.push("Play Integrity unavailable".to_owned());
        },
    }
    let capped: u8 = if score > 100 {
        100
    } else {
        score as u8
    };
    let verdict: IntegrityVerdict = if capped == 0 {
        IntegrityVerdict::Genuine
    } else if capped < 50 {
        IntegrityVerdict::Suspicious
    } else {
        IntegrityVerdict::Compromised
    };
    IntegrityReport { verdict, details, risk_score: capped }
}

/// The name of a verdict as it appears in the JSON rendering.
pub open spec fn spec_verdict_name(v: IntegrityVerdict) -> Seq<char> {
    match v {
        IntegrityVerdict::Genuine => "Genuine"@,
        IntegrityVerdict::Suspicious => "Suspicious"@,
        IntegrityVerdict::Compromised => "Compromised"@,
    }
}

/// The decimal digit character for a value below ten.
pub open spec fn spec_digit(d: int) -> char {
    if d == 0 {
        '0'
    } else if d == 1 {
        '1'
    } else if d == 2 {
        '2'
    } else if d == 3 {
        '3'
    } else if d == 4 {
        '4'
    } else if d == 5 {
        '5'
    } else if d == 6 {
        '6'
    } else if d == 7 {
        '7'
    } else if d == 8 {
        '8'
    } else {
        '9'
    }
}

/// The decimal rendering of a byte value.
pub open spec fn spec_u8_dec(v: int) -> Seq<char> {
    if v < 10 {
        seq![spec_digit(v)]
    } else if v < 100 {
        seq![spec_digit(v / 10), spec_digit(v % 10)]
    } else {
        seq![spec_digit(v / 100), spec_digit((v / 10) % 10), spec_digit(v % 10)]
    }
}

/// Whether the haystack contains the needle as a contiguous substring,
/// checked position by position.
fn str_contains(h: &str, n: &str) -> (r: bool)
    ensures
        r == spec_contains(h@, n@),
{
    let hl: usize = h.unicode_len();
    let nl: usize = n.unicode_len();
    if nl > hl {
        return false;
    }
    let mut k: usize = 0;
    while k <= hl - nl
        invariant
            nl <= hl,
            hl == h@.len(),
            nl == n@.len(),
            k <= hl - nl + 1,
            forall|k2: int| 0 <= k2 < k ==> #[trigger] h@.subrange(k2, k2 + nl as int) != n@,
        decreases hl - nl + 1 - k,
    {
        let mut matched: bool = true;
        for j in 0..nl
            invariant
                nl <= hl,
                hl == h@.len(),
                nl == n@.len(),
                k <= hl - nl,
                matched <==> (forall|i: int| 0 <= i < j ==> h@[k + i] == n@[i]),
        {
            let same: bool = h.get_char(k + j) == n.get_char(j);
            matched = matched && same;
        }
        if matched {
            proof {
                assert(h@.subrange(k as int, k + nl as int) =~= n@);
            }
            return true;
        }
        proof {
            assert(h@.subrange(k as int, k + nl as int) != n@) by {
                let i = choose|i: int| 0 <= i < nl && h@[k + i] != n@[i];
                assert(h@.subrange(k as int, k + nl as int)[i] != n@[i]);
            }
        }
        k = k + 1;
    }
    false
}

/// One decimal digit as a string.
fn digit_str(d: u8) -> (r: &'static str)
    requires
        d < 10,
    ensures
        r@ == seq![spec_digit(d as int)],
{
    proof {
        reveal_strlit("0");
        reveal_strlit("1");
        reveal_strlit("2");
        reveal_strlit("3");
        reveal_strlit("4");
        reveal_strlit("5");
        reveal_strlit("6");
        reveal_strlit("7");
        reveal_strlit("8");
        reveal_strlit("9");
    }
    let r: &'static str = if d == 0 {
        "0"
    } else if d == 1 {
        "1"
    } else if d == 2 {
        "2"
    } else if d == 3 {
        "3"
    } else if d == 4 {
        "4"
    } else if d == 5 {
        "5"
    } else if d == 6 {
        "6"
    } else if d == 7 {
        "7"
    } else if d == 8 {
        "8"
    } else {
        "9"
    };
    proof {
        assert(r@ =~= seq![spec_digit(d as int)]);
    }
    r
}

/// Render a byte value in decimal.
fn u8_to_dec(v: u8) -> (r: String)
    ensures
        r@ == spec_u8_dec(v as int),
{
    let mut out: String = String::new();
    if v >= 100 {
        out.append(digit_str(v / 100));
        out.append(digit_str((v / 10) % 10));
        out.append(digit_str(v % 10));
    } else if v >= 10 {
        out.append(digit_str(v / 10));
        out.append(digit_str(v % 10));
    } else {
        out.append(digit_str(v));
    }
    proof {
        assert(out@ =~= spec_u8_dec(v as int));
    }
    out
}

/// The JSON rendering of a report, over the verdict name, the decimal score
/// and the JSON list of detail strings.
pub open spec fn spec_report_json(
    verdict: IntegrityVerdict,
    risk: int,
    details_json: Seq<char>,
) -> Seq<char> {
    "{\"verdict\":\""@ + spec_verdict_name(verdict) + "\",\"risk_score\":"@ + spec_u8_dec(risk)
        + ",\"details\":"@ + details_json + "}"@
}

/// Render a report as a JSON string for attestation signing.
pub fn report_to_json(report: IntegrityReport) -> (r: String)
    ensures
        r@ == spec_report_json(
            report.verdict,
            report.risk_score as int,
            json_strings_of(report.details@.map_values(|s: String| s@)),
        ),
{
    let mut out: String = String::new();
    out.append("{\"verdict\":\"");
    match report.verdict {
        IntegrityVerdict::Genuine => out.append("Genuine"),
        IntegrityVerdict::Suspicious => out.append("Suspicious"),
        IntegrityVerdict::Compromised => out.append("Compromised"),
    }
    out.append("\",\"risk_score\":");
    let dec: String = u8_to_dec(report.risk_score);
    out.append(dec.as_str());
    out.append(",\"details\":");
    let dj: String = crate::trusted::json_strings(&report.details);
    out.append(dj.as_str());
    out.append("}");
    out
}

} // verus!

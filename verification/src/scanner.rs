//! Security scan bookkeeping: severity counts from tool output, secret
//! markers, and the gates a scan policy sets.

use vstd::prelude::*;
use crate::config::{ScanPolicy, Severity};
use crate::error::EngineError;
use crate::workspace::{path_join, path_join_exec};
use crate::text::{
    cat, cat3, contains, contains_seq, count_from, count_occurrences, decimal, decimal_string,
    lowercase, owned, strs, to_lowercase, utf8_lossy, utf8_lossy_exec,
};

verus! {

/// Findings by severity.
#[derive(Clone, Copy, Debug, PartialEq, Eq, Structural)]
pub struct SeverityCount {
    pub critical: u64,
    pub high: u64,
    pub medium: u64,
    pub low: u64,
}

/// No findings at all.
pub open spec fn no_findings() -> SeverityCount {
    SeverityCount { critical: 0, high: 0, medium: 0, low: 0 }
}

impl Default for SeverityCount {
    fn default() -> (r: Self)
        ensures
            r == no_findings(),
    {
        SeverityCount { critical: 0, high: 0, medium: 0, low: 0 }
    }
}

/// The count after one more finding named `marker`.
pub open spec fn with_marker(c: SeverityCount, marker: Seq<char>) -> SeverityCount {
    if marker == "critical"@ {
        SeverityCount { critical: (c.critical + 1) as u64, ..c }
    } else if marker == "high"@ {
        SeverityCount { high: (c.high + 1) as u64, ..c }
    } else if marker == "medium"@ {
        SeverityCount { medium: (c.medium + 1) as u64, ..c }
    } else if marker == "low"@ {
        SeverityCount { low: (c.low + 1) as u64, ..c }
    } else {
        c
    }
}

/// Some finding is at `threshold` or above.
pub open spec fn at_or_above(c: SeverityCount, threshold: Severity) -> bool {
    match threshold {
        Severity::Critical => c.critical > 0,
        Severity::High => c.critical > 0 || c.high > 0,
        Severity::Medium => c.critical > 0 || c.high > 0 || c.medium > 0,
        Severity::Low => c.critical > 0 || c.high > 0 || c.medium > 0 || c.low > 0,
    }
}

/// How many levels a severity is above the lowest.
pub open spec fn severity_rank(s: Severity) -> int {
    match s {
        Severity::Low => 0,
        Severity::Medium => 1,
        Severity::High => 2,
        Severity::Critical => 3,
    }
}

impl SeverityCount {
    /// Count one finding named `marker` (`critical`, `high`, `medium` or
    /// `low`); other names are ignored.
    pub fn add_marker(&mut self, marker: &str)
        requires
            marker@ == "critical"@ ==> old(self).critical < u64::MAX,
            marker@ == "high"@ ==> old(self).high < u64::MAX,
            marker@ == "medium"@ ==> old(self).medium < u64::MAX,
            marker@ == "low"@ ==> old(self).low < u64::MAX,
        ensures
            *final(self) == with_marker(*old(self), marker@),
    {
        if crate::text::str_eq(marker, "critical") {
            self.critical = self.critical + 1;
        } else if crate::text::str_eq(marker, "high") {
            self.high = self.high + 1;
        } else if crate::text::str_eq(marker, "medium") {
            self.medium = self.medium + 1;
        } else if crate::text::str_eq(marker, "low") {
            self.low = self.low + 1;
        }
    }

    /// Whether some finding is at `threshold` or above.
    pub fn meets_or_exceeds(&self, threshold: Severity) -> (b: bool)
        ensures
            b == at_or_above(*self, threshold),
    {
        match threshold {
            Severity::Critical => self.critical > 0,
            Severity::High => self.critical > 0 || self.high > 0,
            Severity::Medium => self.critical > 0 || self.high > 0 || self.medium > 0,
            Severity::Low => self.critical > 0 || self.high > 0 || self.medium > 0 || self.low > 0,
        }
    }
}

/// A count that meets a threshold meets every lower one.
pub proof fn law_severity_gate_monotone(c: SeverityCount, hi: Severity, lo: Severity)
    requires
        severity_rank(lo) <= severity_rank(hi),
        at_or_above(c, hi),
    ensures
        at_or_above(c, lo),
{
}

/// How many findings of severity `s` a count holds.
pub open spec fn count_of(c: SeverityCount, s: Severity) -> u64 {
    match s {
        Severity::Critical => c.critical,
        Severity::High => c.high,
        Severity::Medium => c.medium,
        Severity::Low => c.low,
    }
}

/// A count meets a threshold exactly when it holds a finding of that
/// severity or of a higher one; findings below the threshold never trip it.
pub proof fn law_gate_means_finding_at_or_above(c: SeverityCount, t: Severity)
    ensures
        at_or_above(c, t) <==> exists|s: Severity|
            severity_rank(s) >= severity_rank(t) && #[trigger] count_of(c, s) > 0,
{
    if at_or_above(c, t) {
        if c.critical > 0 {
            assert(count_of(c, Severity::Critical) > 0);
        } else if c.high > 0 {
            assert(count_of(c, Severity::High) > 0);
        } else if c.medium > 0 {
            assert(count_of(c, Severity::Medium) > 0);
        } else {
            assert(count_of(c, Severity::Low) > 0);
        }
    }
}

/// The report of one scanning tool. `output` is where its report was saved.
#[derive(Clone, Debug)]
pub struct ToolReport {
    pub tool: String,
    pub success: bool,
    pub output: String,
    pub message: String,
    pub severities: SeverityCount,
}

#[derive(Clone, Debug)]
pub struct ScanSummary {
    pub sbom_spdx: Option<String>,
    pub sbom_cyclonedx: Option<String>,
    pub reports: Vec<ToolReport>,
    pub warnings: Vec<String>,
    pub strict_failed: bool,
}

pub open spec fn sum_critical(r: Seq<ToolReport>) -> nat
    decreases r.len(),
{
    if r.len() == 0 {
        0
    } else {
        sum_critical(r.drop_last()) + r.last().severities.critical as nat
    }
}

pub open spec fn sum_high(r: Seq<ToolReport>) -> nat
    decreases r.len(),
{
    if r.len() == 0 {
        0
    } else {
        sum_high(r.drop_last()) + r.last().severities.high as nat
    }
}

pub open spec fn sum_medium(r: Seq<ToolReport>) -> nat
    decreases r.len(),
{
    if r.len() == 0 {
        0
    } else {
        sum_medium(r.drop_last()) + r.last().severities.medium as nat
    }
}

pub open spec fn sum_low(r: Seq<ToolReport>) -> nat
    decreases r.len(),
{
    if r.len() == 0 {
        0
    } else {
        sum_low(r.drop_last()) + r.last().severities.low as nat
    }
}

/// The findings of all reports together.
pub open spec fn totals_of(r: Seq<ToolReport>) -> SeverityCount {
    SeverityCount {
        critical: sum_critical(r) as u64,
        high: sum_high(r) as u64,
        medium: sum_medium(r) as u64,
        low: sum_low(r) as u64,
    }
}

/// The totals fit in the counters.
pub open spec fn totals_fit(r: Seq<ToolReport>) -> bool {
    sum_critical(r) <= u64::MAX && sum_high(r) <= u64::MAX && sum_medium(r) <= u64::MAX && sum_low(
        r,
    ) <= u64::MAX
}

proof fn lemma_sums_grow(r: Seq<ToolReport>, k: int)
    requires
        0 <= k <= r.len(),
    ensures
        sum_critical(r.take(k)) <= sum_critical(r),
        sum_high(r.take(k)) <= sum_high(r),
        sum_medium(r.take(k)) <= sum_medium(r),
        sum_low(r.take(k)) <= sum_low(r),
    decreases r.len() - k,
{
    if k < r.len() {
        lemma_sums_grow(r.drop_last(), k);
        assert(r.drop_last().take(k) =~= r.take(k));
    } else {
        assert(r.take(k) =~= r);
    }
}

/// Whether the findings of all reports together fit in the counters, as
/// `scan_gate` needs.
pub fn severity_totals_fit(reports: &Vec<ToolReport>) -> (b: bool)
    ensures
        b == totals_fit(reports@),
{
    let mut c: u64 = 0;
    let mut h: u64 = 0;
    let mut m: u64 = 0;
    let mut l: u64 = 0;
    let mut i: usize = 0;
    while i < reports.len()
        invariant
            i <= reports@.len(),
            c == sum_critical(reports@.take(i as int)),
            h == sum_high(reports@.take(i as int)),
            m == sum_medium(reports@.take(i as int)),
            l == sum_low(reports@.take(i as int)),
        decreases reports.len() - i,
    {
        assert(reports@.take(i + 1).drop_last() =~= reports@.take(i as int));
        proof {
            lemma_sums_grow(reports@, i + 1);
        }
        let s = reports[i].severities;
        match (c.checked_add(s.critical), h.checked_add(s.high), m.checked_add(s.medium), l.checked_add(s.low)) {
            (Some(c2), Some(h2), Some(m2), Some(l2)) => {
                c = c2;
                h = h2;
                m = m2;
                l = l2;
            },
            _ => {
                return false;
            },
        }
        i = i + 1;
    }
    assert(reports@.take(reports@.len() as int) =~= reports@);
    true
}

/// The findings of all reports together.
pub fn summarize_severity(reports: &Vec<ToolReport>) -> (total: SeverityCount)
    requires
        totals_fit(reports@),
    ensures
        total.critical == sum_critical(reports@),
        total.high == sum_high(reports@),
        total.medium == sum_medium(reports@),
        total.low == sum_low(reports@),
{
    let mut total = SeverityCount::default();
    let mut i: usize = 0;
    while i < reports.len()
        invariant
            i <= reports@.len(),
            totals_fit(reports@),
            total.critical == sum_critical(reports@.take(i as int)),
            total.high == sum_high(reports@.take(i as int)),
            total.medium == sum_medium(reports@.take(i as int)),
            total.low == sum_low(reports@.take(i as int)),
        decreases reports.len() - i,
    {
        assert(reports@.take(i + 1).drop_last() =~= reports@.take(i as int));
        proof {
            lemma_sums_grow(reports@, i + 1);
        }
        let s = reports[i].severities;
        total.critical = total.critical + s.critical;
        total.high = total.high + s.high;
        total.medium = total.medium + s.medium;
        total.low = total.low + s.low;
        i = i + 1;
    }
    assert(reports@.take(reports@.len() as int) =~= reports@);
    total
}

/// Occurrences of each severity word in lower-cased tool output.
pub open spec fn marker_count(lower: Seq<char>, marker: Seq<char>) -> nat {
    count_from(lower, marker, 0)
}

/// The severity words of a tool's output, lower-cased, counted onto `sev`.
pub open spec fn with_markers(c: SeverityCount, lower: Seq<char>) -> SeverityCount {
    SeverityCount {
        critical: (c.critical + marker_count(lower, "critical"@)) as u64,
        high: (c.high + marker_count(lower, "high"@)) as u64,
        medium: (c.medium + marker_count(lower, "medium"@)) as u64,
        low: (c.low + marker_count(lower, "low"@)) as u64,
    }
}

pub open spec fn markers_fit(c: SeverityCount, lower: Seq<char>) -> bool {
    &&& c.critical + marker_count(lower, "critical"@) <= u64::MAX
    &&& c.high + marker_count(lower, "high"@) <= u64::MAX
    &&& c.medium + marker_count(lower, "medium"@) <= u64::MAX
    &&& c.low + marker_count(lower, "low"@) <= u64::MAX
}

/// The count with `k` more findings named `marker`.
pub open spec fn bumped(c: SeverityCount, marker: Seq<char>, k: nat) -> SeverityCount {
    if marker == "critical"@ {
        SeverityCount { critical: (c.critical + k) as u64, ..c }
    } else if marker == "high"@ {
        SeverityCount { high: (c.high + k) as u64, ..c }
    } else if marker == "medium"@ {
        SeverityCount { medium: (c.medium + k) as u64, ..c }
    } else if marker == "low"@ {
        SeverityCount { low: (c.low + k) as u64, ..c }
    } else {
        c
    }
}

/// `k` more findings named `marker` fit in the counter.
pub open spec fn bump_fits(c: SeverityCount, marker: Seq<char>, k: nat) -> bool {
    &&& marker == "critical"@ ==> c.critical + k <= u64::MAX
    &&& marker == "high"@ ==> c.high + k <= u64::MAX
    &&& marker == "medium"@ ==> c.medium + k <= u64::MAX
    &&& marker == "low"@ ==> c.low + k <= u64::MAX
}

fn add_marker_times(sev: &mut SeverityCount, marker: &str, count: u64)
    requires
        bump_fits(*old(sev), marker@, count as nat),
    ensures
        *final(sev) == bumped(*old(sev), marker@, count as nat),
{
    let ghost start = *sev;
    let mut k: u64 = 0;
    while k < count
        invariant
            k <= count,
            bump_fits(start, marker@, count as nat),
            *sev == bumped(start, marker@, k as nat),
        decreases count - k,
    {
        sev.add_marker(marker);
        k = k + 1;
    }
}

/// Count the severity words of lower-cased text onto `sev`.
pub fn add_severity_markers(lower: &str, sev: &mut SeverityCount)
    requires
        markers_fit(*old(sev), lower@),
    ensures
        *final(sev) == with_markers(*old(sev), lower@),
{
    proof {
        reveal_strlit("critical");
        reveal_strlit("high");
        reveal_strlit("medium");
        reveal_strlit("low");
    }
    let ghost start = *sev;
    let c = count_occurrences(lower, "critical");
    add_marker_times(sev, "critical", c);
    let h = count_occurrences(lower, "high");
    add_marker_times(sev, "high", h);
    let m = count_occurrences(lower, "medium");
    add_marker_times(sev, "medium", m);
    let l = count_occurrences(lower, "low");
    add_marker_times(sev, "low", l);
    assert(*sev == with_markers(start, lower@));
}

/// Count the severity words in a tool's output (decoded, lower-cased) onto
/// `sev`.
pub fn infer_severity_markers(data: &[u8], sev: &mut SeverityCount)
    requires
        markers_fit(*old(sev), lowercase(utf8_lossy(data@))),
    ensures
        *final(sev) == with_markers(*old(sev), lowercase(utf8_lossy(data@))),
{
    let text = utf8_lossy_exec(data);
    let lower = to_lowercase(text.as_str());
    add_severity_markers(lower.as_str(), sev);
}

/// The severity counts of a tool's output.
pub fn severities_of_output(data: &[u8]) -> (r: SeverityCount)
    ensures
        r == with_markers(no_findings(), lowercase(utf8_lossy(data@))),
{
    let text = utf8_lossy_exec(data);
    let lower = to_lowercase(text.as_str());
    let n = lower.as_str().unicode_len();
    let mut sev = SeverityCount::default();
    proof {
        assert(count_from(lower@, "critical"@, 0) <= lower@.len()) by {
            lemma_count_bound(lower@, "critical"@, 0);
        }
        assert(count_from(lower@, "high"@, 0) <= lower@.len()) by {
            lemma_count_bound(lower@, "high"@, 0);
        }
        assert(count_from(lower@, "medium"@, 0) <= lower@.len()) by {
            lemma_count_bound(lower@, "medium"@, 0);
        }
        assert(count_from(lower@, "low"@, 0) <= lower@.len()) by {
            lemma_count_bound(lower@, "low"@, 0);
        }
    }
    infer_severity_markers(data, &mut sev);
    sev
}

proof fn lemma_count_bound(s: Seq<char>, p: Seq<char>, i: int)
    requires
        0 <= i,
    ensures
        count_from(s, p, i) <= s.len(),
        i <= s.len() ==> count_from(s, p, i) <= s.len() - i,
    decreases s.len() - i,
{
    if i < s.len() && p.len() > 0 {
        if crate::text::occurs_at(s, p, i) {
            lemma_count_bound(s, p, i + p.len());
        } else {
            lemma_count_bound(s, p, i + 1);
        }
    }
}

/// The report of a tool that is not installed.
pub fn stub_tool_report(tool: &str, output: &str) -> (r: ToolReport)
    ensures
        r.tool@ == tool@,
        r.success,
        r.output@ == output@,
        r.message@ == tool@ + " not found; emitted stub report"@,
        r.severities == no_findings(),
{
    ToolReport {
        tool: owned(tool),
        success: true,
        output: owned(output),
        message: cat(tool, " not found; emitted stub report"),
        severities: SeverityCount::default(),
    }
}

/// The report of a tool that ran: its stderr is the message, its stdout the
/// source of the severity counts.
pub fn tool_report_from_output(
    tool: &str,
    success: bool,
    output: &str,
    stdout: &[u8],
    stderr: &[u8],
) -> (r: ToolReport)
    ensures
        r.tool@ == tool@,
        r.success == success,
        r.output@ == output@,
        r.message@ == utf8_lossy(stderr@),
        r.severities == with_markers(no_findings(), lowercase(utf8_lossy(stdout@))),
{
    ToolReport {
        tool: owned(tool),
        success,
        output: owned(output),
        message: utf8_lossy_exec(stderr),
        severities: severities_of_output(stdout),
    }
}

/// The secret markers looked for, in order.
pub open spec fn secret_markers() -> Seq<Seq<char>> {
    seq!["BEGIN PRIVATE KEY"@, "AKIA"@, "ghp_"@, "xoxb-"@, "token="@]
}

/// The markers a file's text contains, in marker order.
pub open spec fn markers_in(content: Seq<char>, k: int) -> Seq<Seq<char>>
    decreases k,
{
    if k <= 0 || k > secret_markers().len() {
        Seq::empty()
    } else if contains_seq(content, secret_markers()[k - 1]) {
        markers_in(content, k - 1).push(secret_markers()[k - 1])
    } else {
        markers_in(content, k - 1)
    }
}

/// The secret markers found in one file's text.
pub fn secret_markers_in(content: &str) -> (r: Vec<String>)
    ensures
        strs(r@) == markers_in(content@, 5),
{
    let mut markers: Vec<String> = Vec::new();
    markers.push(owned("BEGIN PRIVATE KEY"));
    markers.push(owned("AKIA"));
    markers.push(owned("ghp_"));
    markers.push(owned("xoxb-"));
    markers.push(owned("token="));
    assert(strs(markers@) =~= secret_markers());
    let mut found: Vec<String> = Vec::new();
    let mut i: usize = 0;
    assert(strs(found@) =~= Seq::<Seq<char>>::empty());
    while i < 5
        invariant
            i <= 5,
            markers@.len() == 5,
            strs(markers@) == secret_markers(),
            strs(found@) == markers_in(content@, i as int),
        decreases 5 - i,
    {
        assert(markers@[i as int]@ == secret_markers()[i as int]);
        if contains(content, markers[i].as_str()) {
            crate::text::push_line(&mut found, markers[i].clone());
        }
        i = i + 1;
    }
    found
}

/// What the secrets scan adds: its tool report and, with findings, a
/// warning; strict mode fails the scan on any finding.
#[derive(Clone, Debug)]
pub struct SecretsOutcome {
    pub report: ToolReport,
    pub warning: Option<String>,
    pub strict_failed: bool,
}

pub fn secrets_outcome(findings: usize, strict: bool, output: &str) -> (r: SecretsOutcome)
    ensures
        r.report.tool@ == "secrets"@,
        r.report.success == (!strict || findings == 0),
        r.report.output@ == output@,
        r.report.message@ == "Local secrets pattern scan"@,
        r.report.severities == (if findings == 0 {
            no_findings()
        } else {
            (SeverityCount { high: findings as u64, ..no_findings() })
        }),
        r.strict_failed == (strict && findings > 0),
        findings == 0 ==> r.warning is None,
        findings > 0 && strict ==> (r.warning matches Some(w) && w@
            == "Strict secrets mode found "@ + decimal(findings as nat) + " potential secret(s)"@),
        findings > 0 && !strict ==> (r.warning matches Some(w) && w@
            == "Potential secrets found: "@ + decimal(findings as nat)),
{
    let mut sev = SeverityCount::default();
    let mut warning: Option<String> = None;
    let mut strict_failed = false;
    if findings > 0 {
        sev.high = findings as u64;
        let n = decimal_string(findings as u64);
        if strict {
            strict_failed = true;
            warning = Some(cat3("Strict secrets mode found ", n.as_str(), " potential secret(s)"));
        } else {
            warning = Some(cat("Potential secrets found: ", n.as_str()));
        }
    }
    SecretsOutcome {
        report: ToolReport {
            tool: owned("secrets"),
            success: !strict || findings == 0,
            output: owned(output),
            message: owned("Local secrets pattern scan"),
            severities: sev,
        },
        warning,
        strict_failed,
    }
}

/// The `Debug` name of a severity.
pub open spec fn severity_name(s: Severity) -> Seq<char> {
    match s {
        Severity::Critical => "Critical"@,
        Severity::High => "High"@,
        Severity::Medium => "Medium"@,
        Severity::Low => "Low"@,
    }
}

/// The gates at the end of a scan: strict secrets first, then the
/// severity threshold over all reports.
pub fn scan_gate(summary: &ScanSummary, policy: &ScanPolicy) -> (r: Result<(), EngineError>)
    requires
        totals_fit(summary.reports@),
    ensures
        summary.strict_failed ==> (r matches Err(EngineError::PolicyViolation(m)) && m@
            == "Strict secrets policy failed"@),
        !summary.strict_failed ==> match policy.fail_on_severity {
            Some(t) => {
                if at_or_above(totals_of(summary.reports@), t) {
                    r matches Err(EngineError::PolicyViolation(m)) && m@
                        == "Severity gate failed at threshold "@ + severity_name(t)
                } else {
                    r is Ok
                }
            },
            None => r is Ok,
        },
{
    if summary.strict_failed {
        return Err(EngineError::PolicyViolation(owned("Strict secrets policy failed")));
    }
    if let Some(threshold) = policy.fail_on_severity {
        let total = summarize_severity(&summary.reports);
        if total.meets_or_exceeds(threshold) {
            let name = match threshold {
                Severity::Critical => "Critical",
                Severity::High => "High",
                Severity::Medium => "Medium",
                Severity::Low => "Low",
            };
            return Err(
                EngineError::PolicyViolation(cat("Severity gate failed at threshold ", name)),
            );
        }
    }
    Ok(())
}

/// An external scanner run: the tool, its arguments and the file its
/// output is saved to.
#[derive(Clone, Debug)]
pub struct ExternalScan {
    pub tool: String,
    pub args: Vec<String>,
    pub output: String,
}

pub open spec fn scan_view(s: ExternalScan) -> (Seq<char>, Seq<Seq<char>>, Seq<char>) {
    (s.tool@, strs(s.args@), s.output@)
}

pub open spec fn scans_view(v: Seq<ExternalScan>) -> Seq<(Seq<char>, Seq<Seq<char>>, Seq<char>)> {
    Seq::new(v.len(), |i: int| scan_view(v[i]))
}

/// The external scanners a policy turns on, in the order they run: Trivy,
/// then Syft and Grype, then OpenSCAP, each saving under `out_dir`.
pub open spec fn external_scan_plan(policy: ScanPolicy, target: Seq<char>, out_dir: Seq<char>) -> Seq<
    (Seq<char>, Seq<Seq<char>>, Seq<char>),
> {
    (if policy.enable_trivy {
        seq![
            (
                "trivy"@,
                seq!["fs"@, "--quiet"@, "--format"@, "json"@, target],
                path_join(out_dir, "trivy.json"@),
            ),
        ]
    } else {
        Seq::empty()
    }) + (if policy.enable_syft_grype {
        seq![
            ("syft"@, seq![target, "-o"@, "json"@], path_join(out_dir, "syft.json"@)),
            ("grype"@, seq![target, "-o"@, "json"@], path_join(out_dir, "grype.json"@)),
        ]
    } else {
        Seq::empty()
    }) + (if policy.enable_open_scap {
        seq![("oscap"@, seq!["--version"@], path_join(out_dir, "oscap.txt"@))]
    } else {
        Seq::empty()
    })
}

fn words(a: &str, b: &str, c: &str) -> (r: Vec<String>)
    ensures
        strs(r@) == seq![a@, b@, c@],
{
    let mut v: Vec<String> = Vec::new();
    v.push(owned(a));
    v.push(owned(b));
    v.push(owned(c));
    assert(strs(v@) =~= seq![a@, b@, c@]);
    v
}

/// The external scanner runs of a policy for `target`.
pub fn external_scans(policy: &ScanPolicy, target: &str, out_dir: &str) -> (r: Vec<ExternalScan>)
    ensures
        scans_view(r@) == external_scan_plan(*policy, target@, out_dir@),
{
    let mut r: Vec<ExternalScan> = Vec::new();
    if policy.enable_trivy {
        let mut args: Vec<String> = Vec::new();
        args.push(owned("fs"));
        args.push(owned("--quiet"));
        args.push(owned("--format"));
        args.push(owned("json"));
        args.push(owned(target));
        assert(strs(args@) =~= seq!["fs"@, "--quiet"@, "--format"@, "json"@, target@]);
        r.push(ExternalScan { tool: owned("trivy"), args, output: path_join_exec(out_dir, "trivy.json") });
    }
    let ghost after_trivy = scans_view(r@);
    assert(after_trivy =~= (if policy.enable_trivy {
        seq![
            (
                "trivy"@,
                seq!["fs"@, "--quiet"@, "--format"@, "json"@, target@],
                path_join(out_dir@, "trivy.json"@),
            ),
        ]
    } else {
        Seq::empty()
    }));
    if policy.enable_syft_grype {
        let ghost before = r@;
        r.push(ExternalScan { tool: owned("syft"), args: words(target, "-o", "json"), output: path_join_exec(out_dir, "syft.json") });
        r.push(ExternalScan { tool: owned("grype"), args: words(target, "-o", "json"), output: path_join_exec(out_dir, "grype.json") });
        assert(scans_view(r@) =~= scans_view(before) + seq![
            ("syft"@, seq![target@, "-o"@, "json"@], path_join(out_dir@, "syft.json"@)),
            ("grype"@, seq![target@, "-o"@, "json"@], path_join(out_dir@, "grype.json"@)),
        ]);
    } else {
        assert(scans_view(r@) =~= after_trivy + Seq::empty());
    }
    let ghost after_grype = scans_view(r@);
    if policy.enable_open_scap {
        let ghost before = r@;
        let mut args: Vec<String> = Vec::new();
        args.push(owned("--version"));
        assert(strs(args@) =~= seq!["--version"@]);
        r.push(ExternalScan { tool: owned("oscap"), args, output: path_join_exec(out_dir, "oscap.txt") });
        assert(scans_view(r@) =~= scans_view(before) + seq![("oscap"@, seq!["--version"@], path_join(out_dir@, "oscap.txt"@))]);
    } else {
        assert(scans_view(r@) =~= after_grype + Seq::empty());
    }
    r
}

} // verus!

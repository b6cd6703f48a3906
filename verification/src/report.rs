//! Build report pieces: boot test summaries and HTML escaping.

use vstd::prelude::*;
use crate::orchestrator::TestResult;
use crate::error::EngineError;
use crate::policy::PolicyWarning;
use crate::text::{join, join_strings, owned, push_line, strs};
use crate::config::{BuildConfig, ProfileKind};
use crate::iso::IsoMetadata;
use crate::tui::{distro_name, distro_text};

verus! {

/// The boot tests of a build, as recorded in its report.
#[derive(Clone, Debug)]
pub struct TestSummary {
    pub bios: bool,
    pub uefi: bool,
    pub logs: Vec<String>,
    pub screenshots: Vec<String>,
    pub passed: bool,
}

impl TestSummary {
    /// The summary of a test run; runs record no screenshots.
    pub fn from_result(value: TestResult) -> (r: TestSummary)
        ensures
            r.bios == value.bios,
            r.uefi == value.uefi,
            strs(r.logs@) == strs(value.logs@),
            r.screenshots@.len() == 0,
            r.passed == value.passed,
    {
        TestSummary {
            bios: value.bios,
            uefi: value.uefi,
            logs: value.logs,
            screenshots: Vec::new(),
            passed: value.passed,
        }
    }
}

/// The HTML text of one char.
pub open spec fn escaped_char(c: char) -> Seq<char> {
    if c == '&' {
        "&amp;"@
    } else if c == '<' {
        "&lt;"@
    } else if c == '>' {
        "&gt;"@
    } else if c == '"' {
        "&quot;"@
    } else {
        seq![c]
    }
}

/// `s` with `&`, `<`, `>` and `"` written as entities.
pub open spec fn html_escaped(s: Seq<char>) -> Seq<char>
    decreases s.len(),
{
    if s.len() == 0 {
        Seq::empty()
    } else {
        html_escaped(s.drop_last()) + escaped_char(s.last())
    }
}

pub fn html_escape(input: &str) -> (r: String)
    ensures
        r@ == html_escaped(input@),
{
    proof {
        reveal_strlit("&amp;");
        reveal_strlit("&lt;");
        reveal_strlit("&gt;");
        reveal_strlit("&quot;");
    }
    let n = input.unicode_len();
    let mut out = String::new();
    let mut i: usize = 0;
    assert(input@.take(0) =~= Seq::<char>::empty());
    while i < n
        invariant
            n == input@.len(),
            i <= n,
            out@ == html_escaped(input@.take(i as int)),
        decreases n - i,
    {
        let c = input.get_char(i);
        assert(input@.take(i + 1).drop_last() =~= input@.take(i as int));
        assert(input@.take(i + 1).last() == c);
        if c == '&' {
            out.append("&amp;");
        } else if c == '<' {
            out.append("&lt;");
        } else if c == '>' {
            out.append("&gt;");
        } else if c == '"' {
            out.append("&quot;");
        } else {
            crate::text::string_push(&mut out, c);
        }
        i = i + 1;
    }
    assert(input@.take(n as int) =~= input@);
    out
}

/// Escaped text has no raw `<`, `>` or `"`, so it cannot open or close a
/// tag or an attribute.
pub proof fn law_html_escape_no_markup(s: Seq<char>)
    ensures
        forall|i: int|
            0 <= i < html_escaped(s).len() ==> #[trigger] html_escaped(s)[i] != '<'
                && html_escaped(s)[i] != '>' && html_escaped(s)[i] != '"',
    decreases s.len(),
{
    reveal_strlit("&amp;");
    reveal_strlit("&lt;");
    reveal_strlit("&gt;");
    reveal_strlit("&quot;");
    if s.len() > 0 {
        law_html_escape_no_markup(s.drop_last());
        let a = html_escaped(s.drop_last());
        let b = escaped_char(s.last());
        assert forall|i: int| 0 <= i < (a + b).len() implies #[trigger] (a + b)[i] != '<' && (a
            + b)[i] != '>' && (a + b)[i] != '"' by {
            if i >= a.len() {
                assert((a + b)[i] == b[i - a.len()]);
            } else {
                assert((a + b)[i] == a[i]);
            }
        }
    }
}

/// What a build report records besides its artifacts. `distro` and
/// `build_mode` are the names they are shown under; `generated_at` is the
/// time stamp as text.
#[derive(Clone, Debug)]
pub struct BuildMetadata {
    pub generated_at: String,
    pub tool_name: String,
    pub tool_version: String,
    pub distro: String,
    pub release: String,
    pub build_mode: String,
    pub base_iso_url: Option<String>,
    pub base_iso_checksum: Option<String>,
    pub warnings: Vec<String>,
    pub policy_warnings: Vec<PolicyWarning>,
    pub tool_versions: Vec<(String, String)>,
}

#[derive(Clone, Debug)]
pub struct BuildReport {
    pub metadata: BuildMetadata,
    pub artifacts: Vec<String>,
    pub scan_summary: Option<crate::scanner::ScanSummary>,
    pub test_summary: Option<TestSummary>,
}

/// Each text as an escaped list item.
pub open spec fn item_lines(items: Seq<Seq<char>>) -> Seq<Seq<char>> {
    Seq::new(items.len(), |i: int| "<li>"@ + html_escaped(items[i]) + "</li>"@)
}

/// Each policy warning as a list item: its code in bold, then its message.
pub open spec fn policy_lines(w: Seq<PolicyWarning>) -> Seq<Seq<char>> {
    Seq::new(
        w.len(),
        |i: int| "<li><b>"@ + html_escaped(w[i].code@) + "</b>: "@ + html_escaped(w[i].message@) + "</li>"@,
    )
}

pub open spec fn or_not_specified(o: Option<String>) -> Seq<char> {
    match o {
        Some(s) => s@,
        None => "not specified"@,
    }
}

pub open spec fn report_head() -> Seq<char> {
    "<!doctype html><html><head><meta charset='utf-8'><title>ForgeISO Report</title><style>body{font-family:Inter,Segoe UI,Arial,sans-serif;background:#0b1020;color:#eaf0ff;padding:24px;line-height:1.5}section{background:#141b33;border:1px solid #27345c;border-radius:12px;padding:16px;margin:12px 0}h1,h2{margin:0 0 12px}ul{margin:8px 0 0 18px}</style></head><body><h1>ForgeISO Build Report</h1><section><h2>Metadata</h2><p><b>Generated:</b> "@
}

/// The HTML page of a report.
pub open spec fn report_page(r: BuildReport) -> Seq<char> {
    report_head() + r.metadata.generated_at@ + "</p><p><b>Distro:</b> "@ + r.metadata.distro@ + " "@
        + html_escaped(r.metadata.release@) + "</p><p><b>Mode:</b> "@ + r.metadata.build_mode@
        + "</p><p><b>Base ISO URL:</b> "@ + html_escaped(or_not_specified(r.metadata.base_iso_url))
        + "</p><p><b>Base ISO Checksum:</b> "@ + html_escaped(
        or_not_specified(r.metadata.base_iso_checksum),
    ) + "</p></section><section><h2>Artifacts</h2><ul>"@ + join(
        item_lines(strs(r.artifacts@)),
        "\n"@,
    ) + "</ul></section><section><h2>Warnings</h2><ul>"@ + join(
        item_lines(strs(r.metadata.warnings@)),
        "\n"@,
    ) + "</ul></section><section><h2>Policy Warnings</h2><ul>"@ + join(
        policy_lines(r.metadata.policy_warnings@),
        "\n"@,
    ) + "</ul></section></body></html>"@
}

fn escaped_items(items: &Vec<String>) -> (r: Vec<String>)
    ensures
        strs(r@) == item_lines(strs(items@)),
{
    let mut out: Vec<String> = Vec::new();
    let mut i: usize = 0;
    while i < items.len()
        invariant
            i <= items@.len(),
            strs(out@) == item_lines(strs(items@).take(i as int)),
        decreases items.len() - i,
    {
        let e = html_escape(items[i].as_str());
        let mut line = String::new();
        line.append("<li>");
        line.append(e.as_str());
        line.append("</li>");
        push_line(&mut out, line);
        assert(strs(out@) =~= item_lines(strs(items@).take(i + 1)));
        i = i + 1;
    }
    assert(strs(items@).take(items@.len() as int) =~= strs(items@));
    out
}

fn policy_items(w: &Vec<PolicyWarning>) -> (r: Vec<String>)
    ensures
        strs(r@) == policy_lines(w@),
{
    let mut out: Vec<String> = Vec::new();
    let mut i: usize = 0;
    while i < w.len()
        invariant
            i <= w@.len(),
            strs(out@) == policy_lines(w@.take(i as int)),
        decreases w.len() - i,
    {
        let c = html_escape(w[i].code.as_str());
        let m = html_escape(w[i].message.as_str());
        let mut line = String::new();
        line.append("<li><b>");
        line.append(c.as_str());
        line.append("</b>: ");
        line.append(m.as_str());
        line.append("</li>");
        push_line(&mut out, line);
        assert(strs(out@) =~= policy_lines(w@.take(i + 1)));
        i = i + 1;
    }
    assert(w@.take(w@.len() as int) =~= w@);
    out
}

fn not_specified(o: &Option<String>) -> (r: String)
    ensures
        r@ == or_not_specified(*o),
{
    match o {
        Some(s) => s.clone(),
        None => crate::text::owned("not specified"),
    }
}

impl BuildReport {
    /// The report as an HTML page; every text from the build is escaped.
    pub fn html(&self) -> (r: String)
        ensures
            r@ == report_page(*self),
    {
        let m = &self.metadata;
        let artifacts = join_strings(&escaped_items(&self.artifacts), "\n");
        let warnings = join_strings(&escaped_items(&m.warnings), "\n");
        let policy = join_strings(&policy_items(&m.policy_warnings), "\n");
        let url = html_escape(not_specified(&m.base_iso_url).as_str());
        let sum = html_escape(not_specified(&m.base_iso_checksum).as_str());
        let release = html_escape(m.release.as_str());
        let mut out = String::new();
        out.append("<!doctype html><html><head><meta charset='utf-8'><title>ForgeISO Report</title><style>body{font-family:Inter,Segoe UI,Arial,sans-serif;background:#0b1020;color:#eaf0ff;padding:24px;line-height:1.5}section{background:#141b33;border:1px solid #27345c;border-radius:12px;padding:16px;margin:12px 0}h1,h2{margin:0 0 12px}ul{margin:8px 0 0 18px}</style></head><body><h1>ForgeISO Build Report</h1><section><h2>Metadata</h2><p><b>Generated:</b> ");
        out.append(m.generated_at.as_str());
        out.append("</p><p><b>Distro:</b> ");
        out.append(m.distro.as_str());
        out.append(" ");
        out.append(release.as_str());
        out.append("</p><p><b>Mode:</b> ");
        out.append(m.build_mode.as_str());
        out.append("</p><p><b>Base ISO URL:</b> ");
        out.append(url.as_str());
        out.append("</p><p><b>Base ISO Checksum:</b> ");
        out.append(sum.as_str());
        out.append("</p></section><section><h2>Artifacts</h2><ul>");
        out.append(artifacts.as_str());
        out.append("</ul></section><section><h2>Warnings</h2><ul>");
        out.append(warnings.as_str());
        out.append("</ul></section><section><h2>Policy Warnings</h2><ul>");
        out.append(policy.as_str());
        out.append("</ul></section></body></html>");
        out
    }
}

/// The formats a saved build report can be rendered in.
#[derive(Clone, Copy, Debug, PartialEq, Eq, Structural)]
pub enum ReportFormat {
    Json,
    Html,
}

/// The format named `json` or `html`; any other name is refused.
pub fn report_format(format: &str) -> (r: Result<ReportFormat, EngineError>)
    ensures
        format@ == "json"@ ==> r == Ok::<ReportFormat, EngineError>(ReportFormat::Json),
        format@ == "html"@ ==> r == Ok::<ReportFormat, EngineError>(ReportFormat::Html),
        format@ != "json"@ && format@ != "html"@ ==> (r matches Err(EngineError::InvalidConfig(m))
            && m@ == "unsupported format: "@ + format@),
{
    proof {
        reveal_strlit("json");
        reveal_strlit("html");
        assert("json"@[0] != "html"@[0]);
    }
    if crate::text::str_eq(format, "json") {
        Ok(ReportFormat::Json)
    } else if crate::text::str_eq(format, "html") {
        Ok(ReportFormat::Html)
    } else {
        Err(EngineError::InvalidConfig(crate::text::cat("unsupported format: ", format)))
    }
}

/// The name a build profile is recorded under.
pub open spec fn profile_text(p: ProfileKind) -> Seq<char> {
    match p {
        ProfileKind::Minimal => "Minimal"@,
        ProfileKind::Desktop => "Desktop"@,
    }
}

/// The name a build profile is recorded under.
pub fn profile_name(p: ProfileKind) -> (r: String)
    ensures
        r@ == profile_text(p),
{
    match p {
        ProfileKind::Minimal => owned("Minimal"),
        ProfileKind::Desktop => owned("Desktop"),
    }
}

/// The report of a finished build: what was built from which image, with
/// the build's warnings and the one artifact it wrote; no scan or test
/// results yet.
pub fn build_report_of(
    cfg: &BuildConfig,
    iso: &IsoMetadata,
    warnings: Vec<String>,
    artifact: String,
    generated_at: String,
    tool_version: String,
    host_os: String,
) -> (r: BuildReport)
    ensures
        r.metadata.generated_at == generated_at,
        r.metadata.tool_name@ == "forgeiso"@,
        r.metadata.tool_version == tool_version,
        r.metadata.distro@ == distro_text(iso.distro),
        r.metadata.release@ == (match iso.release {
            Some(x) => x@,
            None => Seq::<char>::empty(),
        }),
        r.metadata.build_mode@ == profile_text(cfg.profile),
        r.metadata.base_iso_url matches Some(u) ==> cfg.source is Url && u@ == cfg.source.raw_text(),
        cfg.source is Url ==> r.metadata.base_iso_url is Some,
        r.metadata.base_iso_checksum matches Some(c) && c == iso.sha256,
        r.metadata.warnings == warnings,
        r.metadata.policy_warnings@.len() == 0,
        r.metadata.tool_versions@.len() == 2,
        r.metadata.tool_versions@[0].0@ == "engine"@ && r.metadata.tool_versions@[0].1 == tool_version,
        r.metadata.tool_versions@[1].0@ == "host_os"@ && r.metadata.tool_versions@[1].1 == host_os,
        r.artifacts@ == seq![artifact],
        r.scan_summary is None,
        r.test_summary is None,
{
    let base_iso_url = if cfg.source.is_remote() {
        Some(cfg.source.display_value())
    } else {
        None
    };
    let release = match &iso.release {
        Some(x) => x.clone(),
        None => String::new(),
    };
    let mut tool_versions: Vec<(String, String)> = Vec::new();
    tool_versions.push((owned("engine"), tool_version.clone()));
    tool_versions.push((owned("host_os"), host_os));
    let mut artifacts: Vec<String> = Vec::new();
    artifacts.push(artifact);
    BuildReport {
        metadata: BuildMetadata {
            generated_at,
            tool_name: owned("forgeiso"),
            tool_version,
            distro: distro_name(iso.distro),
            release,
            build_mode: profile_name(cfg.profile),
            base_iso_url,
            base_iso_checksum: Some(iso.sha256.clone()),
            warnings,
            policy_warnings: Vec::new(),
            tool_versions,
        },
        artifacts,
        scan_summary: None,
        test_summary: None,
    }
}

} // verus!

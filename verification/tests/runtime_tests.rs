use forgeiso_engine::error::EngineError;
use forgeiso_engine::events::{phase_name, EventPhase};
use forgeiso_engine::orchestrator::TestResult;
use forgeiso_engine::policy::PolicyWarning;
use forgeiso_engine::config::{
    BuildConfig, Distro, IsoSource, ProfileKind, ScanPolicy, TestingPolicy,
};
use forgeiso_engine::iso::{BootSupport, IsoMetadata, SourceKind};
use forgeiso_engine::report::{
    build_report_of, html_escape, report_format, BuildMetadata, BuildReport, ReportFormat, TestSummary,
};
use forgeiso_engine::runtime::{
    default_timeout_seconds, parse_uid_gid, run_args, ContainerRunSpec, RuntimeManager,
    RuntimePreference,
};

#[test]
fn runtime_choice_prefers_the_requested_binary() {
    let docker_first = RuntimeManager::new(RuntimePreference::Docker);
    assert_eq!(docker_first.select_binary(true, true).unwrap(), "docker");
    assert_eq!(docker_first.select_binary(false, true).unwrap(), "podman");
    let podman_first = RuntimeManager::new(RuntimePreference::Podman);
    assert_eq!(podman_first.select_binary(true, true).unwrap(), "podman");
    assert_eq!(podman_first.select_binary(true, false).unwrap(), "docker");
    match podman_first.select_binary(false, false) {
        Err(EngineError::MissingTool(m)) => assert_eq!(m, "neither docker nor podman is available"),
        _ => panic!("no runtime must be an error"),
    }
}

#[test]
fn selected_binary_is_one_of_the_two() {
    match RuntimeManager::new(RuntimePreference::Docker).selected_binary() {
        Ok(b) => assert!(b == "docker" || b == "podman"),
        Err(e) => assert!(matches!(e, EngineError::MissingTool(_))),
    }
}

#[test]
fn run_arguments() {
    let spec = ContainerRunSpec {
        image: "ubuntu:24.04".to_string(),
        args: vec!["bash".to_string(), "-lc".to_string(), "true".to_string()],
        env: vec![("A".to_string(), "1".to_string())],
        mounts: vec![("/host".to_string(), "/workspace".to_string())],
        workdir: Some("/workspace".to_string()),
        uid_gid_map: Some((1000, 1000)),
        timeout_seconds: default_timeout_seconds(),
    };
    assert_eq!(
        run_args(&spec),
        vec![
            "run", "--rm", "--user", "1000:1000", "-v", "/host:/workspace", "-w", "/workspace",
            "-e", "A=1", "ubuntu:24.04", "bash", "-lc", "true"
        ]
    );
    assert_eq!(spec.timeout_seconds, 3600);
}

#[test]
fn uid_gid_parsing() {
    assert_eq!(parse_uid_gid(Some("1000"), Some("100")), Some((1000, 100)));
    assert_eq!(parse_uid_gid(Some("x"), Some("100")), None);
    assert_eq!(parse_uid_gid(None, Some("100")), None);
    assert_eq!(parse_uid_gid(Some("4294967296"), Some("1")), None);
}

#[test]
fn html_escaping() {
    assert_eq!(html_escape("<a href=\"x\">&</a>"), "&lt;a href=&quot;x&quot;&gt;&amp;&lt;/a&gt;");
    assert_eq!(html_escape("plain"), "plain");
}

#[test]
fn test_summary_from_result() {
    let r = TestResult { bios: true, uefi: false, logs: vec!["bios.log".to_string()], passed: true };
    let s = TestSummary::from_result(r);
    assert!(s.bios && !s.uefi && s.passed);
    assert_eq!(s.logs, vec!["bios.log".to_string()]);
    assert!(s.screenshots.is_empty());
}

#[test]
fn phase_names() {
    assert_eq!(phase_name(EventPhase::ReleaseLookup), "ReleaseLookup");
    assert_eq!(phase_name(EventPhase::Complete), "Complete");
}

#[test]
fn report_page_escapes_build_text() {
    let report = BuildReport {
        metadata: BuildMetadata {
            generated_at: "2026-01-01 00:00:00 UTC".to_string(),
            tool_name: "forgeiso".to_string(),
            tool_version: "0.3.2".to_string(),
            distro: "Ubuntu".to_string(),
            release: "24.04 <LTS>".to_string(),
            build_mode: "Local".to_string(),
            base_iso_url: None,
            base_iso_checksum: Some("abc".to_string()),
            warnings: vec!["a & b".to_string()],
            policy_warnings: vec![PolicyWarning {
                code: "c".to_string(),
                message: "m\"q".to_string(),
            }],
            tool_versions: vec![],
        },
        artifacts: vec!["/out/x.iso".to_string(), "/out/y.iso".to_string()],
        scan_summary: None,
        test_summary: None,
    };
    let html = report.html();
    assert!(html.starts_with("<!doctype html>"));
    assert!(html.contains("<p><b>Distro:</b> Ubuntu 24.04 &lt;LTS&gt;</p>"));
    assert!(html.contains("<p><b>Base ISO URL:</b> not specified</p>"));
    assert!(html.contains("<ul><li>/out/x.iso</li>\n<li>/out/y.iso</li></ul>"));
    assert!(html.contains("<li>a &amp; b</li>"));
    assert!(html.contains("<li><b>c</b>: m&quot;q</li>"));
    assert!(html.ends_with("</ul></section></body></html>"));
}

#[test]
fn report_formats() {
    assert_eq!(report_format("json").unwrap(), ReportFormat::Json);
    assert_eq!(report_format("html").unwrap(), ReportFormat::Html);
    match report_format("pdf") {
        Err(EngineError::InvalidConfig(m)) => assert_eq!(m, "unsupported format: pdf"),
        _ => panic!("pdf is not a report format"),
    }
}

#[test]
fn build_reports_record_the_image_and_the_artifact() {
    let cfg = BuildConfig {
        name: "demo".to_string(),
        source: IsoSource::from_raw("https://example.org/u.iso"),
        overlay_dir: None,
        output_label: None,
        profile: ProfileKind::Desktop,
        auto_scan: false,
        auto_test: false,
        scanning: ScanPolicy::default(),
        testing: TestingPolicy::default(),
        keep_workdir: false,
    };
    let iso = IsoMetadata {
        source_path: "/tmp/u.iso".to_string(),
        source_kind: SourceKind::DownloadedUrl,
        source_value: "https://example.org/u.iso".to_string(),
        size_bytes: 1,
        sha256: "abc".to_string(),
        volume_id: None,
        distro: Some(Distro::Ubuntu),
        release: Some("24.04".to_string()),
        edition: None,
        architecture: None,
        rootfs_path: None,
        boot: BootSupport::default(),
        inspected_at: "now".to_string(),
        warnings: vec![],
    };
    let r = build_report_of(
        &cfg,
        &iso,
        vec!["w".to_string()],
        "/out/demo.iso".to_string(),
        "2025-01-01T00:00:00Z".to_string(),
        "0.3.2".to_string(),
        "linux".to_string(),
    );
    assert_eq!(r.metadata.tool_name, "forgeiso");
    assert_eq!(r.metadata.distro, "Ubuntu");
    assert_eq!(r.metadata.release, "24.04");
    assert_eq!(r.metadata.build_mode, "Desktop");
    assert_eq!(r.metadata.base_iso_url.as_deref(), Some("https://example.org/u.iso"));
    assert_eq!(r.metadata.base_iso_checksum.as_deref(), Some("abc"));
    assert_eq!(r.metadata.warnings, vec!["w".to_string()]);
    assert_eq!(
        r.metadata.tool_versions,
        vec![
            ("engine".to_string(), "0.3.2".to_string()),
            ("host_os".to_string(), "linux".to_string())
        ]
    );
    assert_eq!(r.artifacts, vec!["/out/demo.iso".to_string()]);
}

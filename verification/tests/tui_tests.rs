use forgeiso_engine::config::ProfileKind;
use forgeiso_engine::iso::{BootSupport, IsoMetadata, SourceKind};
use forgeiso_engine::orchestrator::{BuildResult, DoctorReport};
use forgeiso_engine::tui::{App, Key, KeyAction, TuiMsg};

fn doctor() -> DoctorReport {
    DoctorReport {
        host_os: "linux".to_string(),
        host_arch: "x86_64".to_string(),
        linux_supported: true,
        tooling: vec![("xorriso".to_string(), true), ("qemu".to_string(), false)],
        warnings: vec![],
        timestamp: "now".to_string(),
    }
}

fn metadata() -> IsoMetadata {
    IsoMetadata {
        source_path: "/isos/a.iso".to_string(),
        source_kind: SourceKind::LocalPath,
        source_value: "/isos/a.iso".to_string(),
        size_bytes: 0,
        sha256: String::new(),
        volume_id: Some("UBUNTU".to_string()),
        distro: None,
        release: None,
        edition: None,
        architecture: Some("x86_64".to_string()),
        rootfs_path: None,
        boot: BootSupport::default(),
        inspected_at: String::new(),
        warnings: Vec::new(),
    }
}

#[test]
fn new_form_shows_the_doctor() {
    let app = App::new(&doctor());
    assert_eq!(app.status, "Ready");
    assert_eq!(app.profile, "minimal");
    assert_eq!(
        app.logs,
        vec![
            "doctor: host=linux arch=x86_64 linux_supported=true".to_string(),
            "tool xorriso: true".to_string(),
            "tool qemu: false".to_string()
        ]
    );
    let fields = app.fields();
    assert_eq!(fields.len(), 5);
    assert_eq!(fields[1], ("Output".to_string(), "/tmp/forgeoutput".to_string()));
}

#[test]
fn navigation_wraps_around() {
    let mut app = App::new(&doctor());
    app.previous_field();
    assert_eq!(app.selected_field, 4);
    app.next_field();
    assert_eq!(app.selected_field, 0);
    app.on_key(Key::Down);
    app.on_key(Key::Up);
    assert_eq!(app.selected_field, 0);
}

#[test]
fn editing_a_field() {
    let mut app = App::new(&doctor());
    assert!(matches!(app.on_key(Key::Enter), KeyAction::Nothing));
    assert!(app.editing);
    app.on_key(Key::Char('/'));
    app.on_key(Key::Char('x'));
    app.on_key(Key::Char('y'));
    app.on_key(Key::Backspace);
    assert!(matches!(app.on_key(Key::Char('q')), KeyAction::Nothing));
    assert_eq!(app.source, "/xq");
    app.on_key(Key::Esc);
    assert!(!app.editing);
    assert!(matches!(app.on_key(Key::Char('q')), KeyAction::Quit));
}

#[test]
fn jobs_need_input() {
    let mut app = App::new(&doctor());
    assert!(matches!(app.on_key(Key::Char('i')), KeyAction::Nothing));
    assert_eq!(app.status, "Source is required");
    assert!(matches!(app.on_key(Key::Char('s')), KeyAction::Nothing));
    assert_eq!(app.status, "Build an ISO before running scan");
    assert!(matches!(app.on_key(Key::Char('t')), KeyAction::Nothing));
    assert_eq!(app.status, "Build an ISO before running tests");
    app.source = "/isos/a.iso".to_string();
    app.profile = "server".to_string();
    assert!(matches!(app.on_key(Key::Char('b')), KeyAction::Nothing));
    assert_eq!(app.status, "Unsupported profile 'server'");
    assert!(!app.busy);
}

#[test]
fn jobs_start_and_finish() {
    let mut app = App::new(&doctor());
    app.source = "/isos/a.iso".to_string();
    app.profile = " desktop ".to_string();
    match app.on_key(Key::Char('b')) {
        KeyAction::Build(cfg, out) => {
            assert_eq!(cfg.profile, ProfileKind::Desktop);
            assert_eq!(cfg.name, "forgeiso-local");
            assert_eq!(out, "/tmp/forgeoutput");
        }
        _ => panic!("a complete form must start a build"),
    }
    assert!(app.busy);
    assert_eq!(app.status, "Building\u{2026}");
    assert!(matches!(app.on_key(Key::Char('i')), KeyAction::Nothing));

    app.apply_msg(TuiMsg::BuildOk(BuildResult {
        workspace_root: "/tmp/ws".to_string(),
        output_dir: "/tmp/forgeoutput".to_string(),
        report_json: String::new(),
        report_html: String::new(),
        artifacts: vec!["/tmp/forgeoutput/a.iso".to_string()],
        iso: metadata(),
    }));
    assert!(!app.busy);
    assert_eq!(app.last_iso.as_deref(), Some("/tmp/forgeoutput/a.iso"));
    assert_eq!(app.status, "Build completed: /tmp/forgeoutput/a.iso");
    match app.on_key(Key::Char('s')) {
        KeyAction::Scan(p) => assert_eq!(p, "/tmp/forgeoutput/a.iso"),
        _ => panic!("a built image can be scanned"),
    }
    app.apply_msg(TuiMsg::TestOk(true));
    assert_eq!(app.status, "Test completed: passed=true");
    app.apply_msg(TuiMsg::OpError("x".to_string()));
    assert_eq!(app.status, "Error: x");
    app.apply_msg(TuiMsg::InspectOk(metadata()));
    assert_eq!(app.status, "Inspection completed");
    assert_eq!(app.inspection[0], "Source: /isos/a.iso");
    assert_eq!(app.inspection[4], "Volume: UBUNTU");
}

#[test]
fn log_keeps_the_latest_lines() {
    let mut app = App::new(&doctor());
    for i in 0..20 {
        app.push_log(format!("line {i}"));
    }
    assert_eq!(app.logs.len(), 12);
    assert_eq!(app.logs.last().unwrap(), "line 19");
    assert_eq!(app.logs[0], "line 8");
}

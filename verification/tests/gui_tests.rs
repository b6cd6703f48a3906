use forgeiso_engine::config::{Distro, IsoSource, ProfileKind};
use forgeiso_engine::gui::{
    all_artifacts, build_config_from, build_inject_config, cache_dir, can_proceed, can_start,
    diff_rows, distro_label, fmt_bytes, lines, opt, swap_size_invalid, BuildState, DiffFilter, DiffState, InjectState,
    LogLevel, PickTarget, Stage, StatusMsg, VerifyState, WizardState, WorkerMsg,
};
use forgeiso_engine::iso::{BootSupport, IsoMetadata, SourceKind};
use forgeiso_engine::orchestrator::{BuildResult, DiffEntry, IsoDiff, VerifyResult};

fn metadata() -> IsoMetadata {
    IsoMetadata {
        source_path: "/tmp/a.iso".to_string(),
        source_kind: SourceKind::LocalPath,
        source_value: "/tmp/a.iso".to_string(),
        size_bytes: 0,
        sha256: String::new(),
        volume_id: None,
        distro: None,
        release: None,
        edition: None,
        architecture: None,
        rootfs_path: None,
        boot: BootSupport::default(),
        inspected_at: String::new(),
        warnings: Vec::new(),
    }
}

fn build_result(artifacts: &[&str]) -> BuildResult {
    BuildResult {
        workspace_root: "/tmp/ws".to_string(),
        output_dir: "/tmp/out".to_string(),
        report_json: "/tmp/out/report.json".to_string(),
        report_html: "/tmp/out/report.html".to_string(),
        artifacts: artifacts.iter().map(|s| s.to_string()).collect(),
        iso: metadata(),
    }
}

fn wizard() -> WizardState {
    let mut inject = InjectState::with_output_dir("/tmp/out".to_string());
    inject.source = "/isos/ubuntu.iso".to_string();
    WizardState::new(
        inject,
        VerifyState { source: String::new(), sums_url: String::new() },
        DiffState { base: String::new(), target: String::new() },
        BuildState::default(),
    )
}

#[test]
fn stages_in_order() {
    let all = Stage::all();
    assert_eq!(all.len(), 5);
    let nums: Vec<usize> = all.iter().map(|s| s.step_num()).collect();
    assert_eq!(nums, vec![1, 2, 3, 4, 5]);
    assert_eq!(Stage::Completion.label(), "Complete");
    assert_eq!(Stage::Verify.sublabel(), "SHA-256 integrity");
}

#[test]
fn text_area_helpers() {
    assert_eq!(lines("  a \n\n b\n   \n"), vec!["a".to_string(), "b".to_string()]);
    assert_eq!(opt("   "), None);
    assert_eq!(opt(" x "), Some("x".to_string()));
    assert_eq!(cache_dir(Some("/home/u")), "/home/u/.cache/forgeiso");
    assert_eq!(cache_dir(None), "/tmp/forgeiso");
}

#[test]
fn inject_form_to_config() {
    let mut f = InjectState::with_output_dir("/tmp/out".to_string());
    assert_eq!(f.out_name, "forgeiso-local");
    f.source = "https://mirror.test/ubuntu.iso".to_string();
    f.hostname = "  box ".to_string();
    f.ssh_keys = "ssh-ed25519 AAA\n\n".to_string();
    f.swap_size_mb = "2048".to_string();
    f.distro = "fedora".to_string();
    let cfg = build_inject_config(&f);
    assert!(matches!(cfg.source, IsoSource::Url(_)));
    assert_eq!(cfg.hostname.as_deref(), Some("box"));
    assert_eq!(cfg.ssh.authorized_keys, vec!["ssh-ed25519 AAA".to_string()]);
    assert_eq!(cfg.ssh.install_server, Some(true));
    assert_eq!(cfg.swap.as_ref().map(|s| s.size_mb), Some(2048));
    assert_eq!(cfg.distro, Some(Distro::Fedora));
    f.swap_size_mb = "0".to_string();
    assert!(build_inject_config(&f).swap.is_none());
}

#[test]
fn build_form_to_config() {
    let mut b = BuildState::default();
    b.source = "/isos/a.iso".to_string();
    b.profile = "desktop".to_string();
    let cfg = build_config_from(&b);
    assert_eq!(cfg.name, "forgeiso-local");
    assert_eq!(cfg.profile, ProfileKind::Desktop);
    assert!(cfg.overlay_dir.is_none());
}

#[test]
fn start_and_swap_checks() {
    assert!(can_start(false, &vec!["a", " b "]));
    assert!(!can_start(true, &vec!["a"]));
    assert!(!can_start(false, &vec!["a", "  "]));
    assert!(swap_size_invalid("abc"));
    assert!(!swap_size_invalid(""));
    assert!(!swap_size_invalid(" 512 "));
}

#[test]
fn engine_events_are_logged() {
    let mut w = wizard();
    let set = w.handle_msg(
        WorkerMsg::EngineEvent {
            phase: "Build".to_string(),
            message: "copying".to_string(),
            is_error: false,
            is_warn: true,
        },
        "12:00:00",
    );
    assert!(!set);
    assert_eq!(w.job_phase, "Build");
    assert_eq!(w.log_entries.len(), 1);
    assert_eq!(w.log_entries[0].level, LogLevel::Warn);
    assert_eq!(w.log_entries[0].timestamp, "12:00:00");
}

#[test]
fn inject_result_fills_empty_fields() {
    let mut w = wizard();
    w.start_job("Inject");
    assert!(w.job_running);
    assert!(w.handle_msg(WorkerMsg::InjectOk(build_result(&["/tmp/out/new.iso"])), "t"));
    assert!(!w.job_running && w.inject_done && w.stage_done(Stage::Inject));
    assert_eq!(w.verify.source, "/tmp/out/new.iso");
    assert_eq!(w.diff.base, "/isos/ubuntu.iso");
    assert_eq!(w.diff.target, "/tmp/out/new.iso");
    assert_eq!(w.build.source, "/tmp/out/new.iso");
    assert_eq!(w.status.as_ref().unwrap().text, "Inject complete");
}

#[test]
fn job_outcomes_set_the_status() {
    let mut w = wizard();
    let bad = VerifyResult {
        filename: "a.iso".to_string(),
        expected: "aa".to_string(),
        actual: "bb".to_string(),
        matched: false,
    };
    w.handle_msg(WorkerMsg::VerifyOk(bad), "t");
    let st = w.status.clone().unwrap();
    assert!(st.is_error);
    assert_eq!(st.text, "Checksum MISMATCH");

    let d = IsoDiff {
        added: vec!["a".to_string()],
        removed: vec![],
        modified: vec![DiffEntry { path: "m".to_string(), base_size: 1, target_size: 2 }],
        unchanged: 4,
    };
    w.handle_msg(WorkerMsg::DiffOk(d), "t");
    assert_eq!(w.status.clone().unwrap().text, "Diff complete \u{2014} 2 changed files");

    w.handle_msg(WorkerMsg::OpError("boom".to_string()), "t");
    let st = w.status.clone().unwrap();
    assert!(st.is_error);
    assert_eq!(st.text, "boom");
    assert_eq!(w.log_entries.last().unwrap().phase, "Error");

    w.handle_msg(WorkerMsg::FilePicked { target: PickTarget::DiffBase, path: "/x.iso".to_string() }, "t");
    assert_eq!(w.diff.base, "/x.iso");
    w.handle_msg(WorkerMsg::ReportOk("/r.html".to_string()), "t");
    assert_eq!(w.status.clone().unwrap().text, "Report: /r.html");
}

#[test]
fn status_messages() {
    let ok = StatusMsg::ok("fine".to_string());
    assert!(!ok.is_error);
    let err = StatusMsg::err("bad".to_string());
    assert!(err.is_error && err.text == "bad");
}

#[test]
fn diff_view_rows() {
    let d = IsoDiff {
        added: vec!["/Boot/A.cfg".to_string(), "/b".to_string()],
        removed: vec!["/boot/old".to_string()],
        modified: vec![DiffEntry { path: "/boot/grub.cfg".to_string(), base_size: 1, target_size: 9 }],
        unchanged: 0,
    };
    let all = diff_rows(&d, DiffFilter::All, "boot");
    let tags: Vec<char> = all.iter().map(|r| r.tag).collect();
    assert_eq!(tags, vec!['A', 'R', 'M']);
    assert_eq!(all[2].size, Some(9));
    assert_eq!(diff_rows(&d, DiffFilter::Added, "").len(), 2);
    assert_eq!(diff_rows(&d, DiffFilter::Modified, "zzz").len(), 0);
}

#[test]
fn artifacts_and_proceeding() {
    let a = all_artifacts(&Some(build_result(&["/a.iso"])), &Some(build_result(&["/b.iso"])));
    assert_eq!(a, vec!["/a.iso".to_string(), "/b.iso".to_string()]);
    assert!(all_artifacts(&None, &None).is_empty());
    let ok = VerifyResult {
        filename: "a".to_string(),
        expected: "x".to_string(),
        actual: "x".to_string(),
        matched: true,
    };
    assert!(can_proceed(&Some(ok.clone()), Some(true)));
    assert!(!can_proceed(&Some(ok), None));
    assert!(!can_proceed(&None, Some(true)));
}

fn float_rendering(n: u64) -> String {
    if n < 1024 {
        format!("{n} B")
    } else if n < 1024 * 1024 {
        format!("{:.1} KB", n as f64 / 1024.0)
    } else if n < 1024 * 1024 * 1024 {
        format!("{:.1} MB", n as f64 / 1_048_576.0)
    } else {
        format!("{:.2} GB", n as f64 / 1_073_741_824.0)
    }
}

#[test]
fn byte_sizes() {
    assert_eq!(fmt_bytes(512), "512 B");
    assert_eq!(fmt_bytes(1536), "1.5 KB");
    assert_eq!(fmt_bytes(734_003_200), "700.0 MB");
    assert_eq!(fmt_bytes(4_700_000_000), "4.38 GB");
    assert_eq!(distro_label(&Distro::Arch), "Arch Linux");
    assert_eq!(distro_label(&Distro::Mint), "Linux Mint");
}

#[test]
fn byte_sizes_match_the_float_rendering() {
    for n in 0..(1u64 << 20) + 2048 {
        assert_eq!(fmt_bytes(n), float_rendering(n), "n = {n}");
    }
    let mut x: u64 = 0x9E37_79B9_7F4A_7C15;
    for _ in 0..200_000 {
        x = x.wrapping_mul(6364136223846793005).wrapping_add(1442695040888963407);
        for n in [x >> 34, x >> 20, x >> 8, x, (x >> 30) << 29, ((x >> 40) << 20) | (1 << 19)] {
            assert_eq!(fmt_bytes(n), float_rendering(n), "n = {n}");
        }
    }
    for n in [
        u64::MAX,
        u64::MAX - 1024,
        1 << 53,
        (1 << 53) + 1,
        (1 << 54) + 3,
        1 << 63,
        (1 << 30) * 5 + (1 << 29) / 25,
        1_073_741_824,
        1_073_741_823,
    ] {
        assert_eq!(fmt_bytes(n), float_rendering(n), "n = {n}");
    }
}

#[test]
fn lines_of_joined_lines_are_the_same_lines() {
    for text in ["  a \n\n b\n   \n", "x\r\ny\r\n", "\t one two \n\u{a0}three", "", "\n\n"] {
        let l = lines(text);
        assert!(l.iter().all(|x| !x.is_empty() && x.trim() == x && !x.contains('\n')));
        assert_eq!(lines(&l.join("\n")), l);
    }
}

#[test]
fn event_and_error_messages_keep_the_earlier_log() {
    let mut w = wizard();
    w.handle_msg(
        WorkerMsg::EngineEvent {
            phase: "Build".to_string(),
            message: "first".to_string(),
            is_error: false,
            is_warn: false,
        },
        "t1",
    );
    w.handle_msg(WorkerMsg::OpError("boom".to_string()), "t2");
    assert_eq!(w.log_entries.len(), 2);
    assert_eq!(w.log_entries[0].message, "first");
    assert_eq!(w.log_entries[1].message, "boom");
    assert_eq!(w.log_entries[1].timestamp, "t2");
    assert_eq!(w.job_phase, "Build");
    assert!(!w.job_running);
}

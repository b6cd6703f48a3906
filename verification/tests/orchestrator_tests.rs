use forgeiso_engine::config::Distro;
use forgeiso_engine::error::EngineError;
use forgeiso_engine::orchestrator::{
    doctor_report, doctor_tooling, rootfs_decision,
    boot_log_passed, checksum_verdict, command_status_error, diff_file_lists, doctor_tools,
    doctor_warnings, download_filename, download_filename_at, effective_sums_url,
    expected_checksum, is_squashfs_path, kernel_append, missing_tools_error, output_iso_name,
    parse_file_list, parse_mkisofs_report, patch_grub_cfg, patch_isolinux_cfg, qemu_smoke_args,
    repack_args, repack_args_from_report, sanitize_filename, smoke_test_passed,
    strip_volume_args,
};

#[test]
fn parses_xorriso_mkisofs_report() {
    let report = "\
-V 'ISOIMAGE'\n\
--grub2-mbr --interval:local_fs:0s-15s:zero_mbrpt,zero_gpt,zero_apm:'/tmp/source.iso'\n\
-efi-boot-part --efi-boot-image\n\
-c '/boot.catalog'\n";

    let args = parse_mkisofs_report(report).expect("report should parse");

    assert_eq!(args[0], "-V");
    assert_eq!(args[1], "ISOIMAGE");
    assert_eq!(args[2], "--grub2-mbr");
    assert_eq!(
        args[3],
        "--interval:local_fs:0s-15s:zero_mbrpt,zero_gpt,zero_apm:/tmp/source.iso"
    );
    assert_eq!(args[4], "-efi-boot-part");
    assert_eq!(args[5], "--efi-boot-image");
    assert_eq!(args[6], "-c");
    assert_eq!(args[7], "/boot.catalog");
}

#[test]
fn strips_existing_volume_flag_before_override() {
    let args = vec![
        "-V".to_string(),
        "OLDLABEL".to_string(),
        "--grub2-mbr".to_string(),
        "payload".to_string(),
    ];

    let stripped = strip_volume_args(&args);

    assert_eq!(
        stripped,
        vec!["--grub2-mbr".to_string(), "payload".to_string()]
    );
}

#[test]
fn strip_volume_args_handles_volid_and_trailing_flag() {
    let args = vec![
        "-r".to_string(),
        "-volid".to_string(),
        "X".to_string(),
        "-J".to_string(),
        "-V".to_string(),
    ];
    assert_eq!(strip_volume_args(&args), vec!["-r".to_string(), "-J".to_string()]);
}

#[test]
fn unclosed_quote_is_reported() {
    match parse_mkisofs_report("  \n-V 'BROKEN\n") {
        Err(EngineError::Runtime(m)) => assert_eq!(
            m,
            "failed to parse xorriso mkisofs report line '-V 'BROKEN': missing closing quote"
        ),
        _ => panic!("unclosed quote must be refused"),
    }
}

#[test]
fn repack_arguments_with_and_without_label() {
    let boot = vec!["-V".to_string(), "OLD".to_string(), "-r".to_string()];
    let with = repack_args(&boot, "/out/a.iso", "/work/tree", Some("NEW"));
    assert_eq!(
        with,
        vec!["-as", "mkisofs", "-o", "/out/a.iso", "-r", "-V", "NEW", "/work/tree"]
    );
    let without = repack_args(&boot, "/out/a.iso", "/work/tree", None);
    assert_eq!(
        without,
        vec!["-as", "mkisofs", "-o", "/out/a.iso", "-V", "OLD", "-r", "/work/tree"]
    );
    let from_report =
        repack_args_from_report("-V 'SRC'\n-J\n", "/o.iso", "/t", Some("L")).unwrap();
    assert_eq!(from_report, vec!["-as", "mkisofs", "-o", "/o.iso", "-J", "-V", "L", "/t"]);
}

#[test]
fn squashfs_detection() {
    assert!(is_squashfs_path("casper/filesystem.squashfs"));
    assert!(is_squashfs_path("arch/x86_64/airootfs.sfs"));
    assert!(is_squashfs_path("root.erofs"));
    assert!(!is_squashfs_path("LiveOS/squashfs.img"));
}

#[test]
fn file_names_are_sanitized() {
    assert_eq!(sanitize_filename("My Build/1.0!"), "My-Build-1.0");
    assert_eq!(sanitize_filename("--x--"), "x");
    assert_eq!(sanitize_filename("ok_name-1.iso"), "ok_name-1.iso");
    assert_eq!(output_iso_name("demo build"), "demo-build.iso");
}

#[test]
fn download_names() {
    assert_eq!(
        download_filename_at("https://releases.ubuntu.com/24.04/ubuntu-24.04-live-server-amd64.iso", 7),
        "ubuntu-24.04-live-server-amd64.iso"
    );
    assert_eq!(download_filename_at("https://host/dir/", 1700000000), "download-1700000000.iso");
    assert_eq!(download_filename_at("https://host/%%%", -5), "download--5.iso");
    assert!(download_filename("https://host/").starts_with("download-"));
}

#[test]
fn qemu_arguments() {
    let bios = qemu_smoke_args("/a.iso", None, "/logs/bios.log");
    assert_eq!(bios.len(), 13);
    assert_eq!(bios[5], "/a.iso");
    assert_eq!(bios[9], "file:/logs/bios.log");
    let uefi = qemu_smoke_args("/a.iso", Some("/ovmf.fd"), "/logs/uefi.log");
    assert_eq!(&uefi[13..], &["-bios".to_string(), "/ovmf.fd".to_string()]);
}

#[test]
fn smoke_log_verdicts() {
    assert!(boot_log_passed(100, "Booting Linux...\nlogin:"));
    assert!(!boot_log_passed(0, ""));
    assert!(!boot_log_passed(10, "Kernel Panic - not syncing"));
    assert!(!boot_log_passed(10, "No bootable device."));
    assert!(smoke_test_passed(&vec![(5, "ok".to_string()), (6, "fine".to_string())]));
    assert!(!smoke_test_passed(&vec![(5, "ok".to_string()), (0, String::new())]));
    assert!(smoke_test_passed(&vec![]));
}

#[test]
fn boot_config_patching() {
    let a = kernel_append();
    assert_eq!(a, " autoinstall ds=nocloud;s=/cdrom/nocloud/");
    let grub = "menuentry {\n\tlinux\t/boot/vmlinuz quiet\n}\n";
    assert_eq!(
        patch_grub_cfg(grub, &a),
        "menuentry {\n\tlinux\t/boot/vmlinuz autoinstall ds=nocloud;s=/cdrom/nocloud/ quiet\n}\n"
    );
    let iso = "kernel /casper/vmlinuz\nappend initrd=/casper/initrd\n";
    assert_eq!(
        patch_isolinux_cfg(iso, " x"),
        "kernel /casper/vmlinuz x\nappend initrd=/casper/initrd\n"
    );
}

#[test]
fn checksum_lookup() {
    let sums = "abc123 *ubuntu-24.04-desktop-amd64.iso\n\
                def456 *ubuntu-24.04-live-server-amd64.iso\n";
    assert_eq!(
        expected_checksum(sums, "ubuntu-24.04-live-server-amd64.iso").unwrap(),
        "def456"
    );
    match expected_checksum(sums, "other.iso") {
        Err(EngineError::NotFound(m)) => assert_eq!(m, "No checksum found for other.iso"),
        _ => panic!("a missing file must be reported"),
    }
    let v = checksum_verdict("a.iso".to_string(), "x".to_string(), "x".to_string());
    assert!(v.matched);
    let v = checksum_verdict("a.iso".to_string(), "x".to_string(), "y".to_string());
    assert!(!v.matched);
}

#[test]
fn sums_url_choice() {
    assert_eq!(
        effective_sums_url(Some("https://x/SUMS"), None, None).unwrap(),
        "https://x/SUMS"
    );
    assert_eq!(
        effective_sums_url(None, Some(Distro::Ubuntu), Some("24.04")).unwrap(),
        "https://releases.ubuntu.com/24.04/SHA256SUMS"
    );
    match effective_sums_url(None, Some(Distro::Fedora), Some("41")) {
        Err(EngineError::InvalidConfig(m)) => {
            assert_eq!(m, "Auto-detection of sums URL not supported for this distro")
        }
        _ => panic!(),
    }
    match effective_sums_url(None, Some(Distro::Ubuntu), None) {
        Err(EngineError::InvalidConfig(m)) => {
            assert_eq!(m, "Release information not available for auto-detection")
        }
        _ => panic!(),
    }
    match effective_sums_url(None, None, None) {
        Err(EngineError::InvalidConfig(m)) => {
            assert_eq!(m, "sums_url must be provided or ISO must be recognized as Ubuntu")
        }
        _ => panic!(),
    }
}

#[test]
fn file_lists_and_their_difference() {
    let base = parse_file_list("100 /a.txt\n200 /b with space.txt\nbad line\n300 /c\n");
    assert_eq!(
        base,
        vec![
            ("/a.txt".to_string(), 100),
            ("/b with space.txt".to_string(), 200),
            ("/c".to_string(), 300)
        ]
    );
    let target = parse_file_list("100 /a.txt\n250 /b with space.txt\n5 /d\n7 /d\n");
    assert_eq!(target.len(), 3);
    assert_eq!(target[2], ("/d".to_string(), 7));
    let diff = diff_file_lists(&base, &target);
    assert_eq!(diff.added, vec!["/d".to_string()]);
    assert_eq!(diff.removed, vec!["/c".to_string()]);
    assert_eq!(diff.modified.len(), 1);
    assert_eq!(diff.modified[0].path, "/b with space.txt");
    assert_eq!(diff.modified[0].base_size, 200);
    assert_eq!(diff.modified[0].target_size, 250);
    assert_eq!(diff.unchanged, 1);
    assert_eq!(diff.added.len() + diff.modified.len() + diff.unchanged, target.len());
}

#[test]
fn diff_lists_are_set_differences() {
    let base = vec![("/a".to_string(), 1), ("/b".to_string(), 2), ("/c".to_string(), 3)];
    let target = vec![("/b".to_string(), 2), ("/c".to_string(), 4), ("/e".to_string(), 5)];
    let diff = diff_file_lists(&base, &target);
    assert_eq!(diff.added, vec!["/e".to_string()]);
    assert_eq!(diff.removed, vec!["/a".to_string()]);
    let modified: Vec<&str> = diff.modified.iter().map(|m| m.path.as_str()).collect();
    assert_eq!(modified, vec!["/c"]);
    assert_eq!(diff.unchanged, 1);
}

#[test]
fn required_tools() {
    let tools = vec!["xorriso".to_string(), "mksquashfs".to_string(), "qemu".to_string()];
    assert!(missing_tools_error(&tools, &vec![true, true, true]).is_ok());
    match missing_tools_error(&tools, &vec![false, true, false]) {
        Err(EngineError::MissingTool(m)) => assert_eq!(m, "missing local tools: xorriso, qemu"),
        _ => panic!(),
    }
}

#[test]
fn doctor_output() {
    let tools = doctor_tools();
    assert_eq!(tools.len(), 9);
    assert_eq!(tools[0], "grype");
    assert_eq!(tools[8], "xorriso");
    assert!(doctor_warnings(true, true).is_empty());
    assert_eq!(
        doctor_warnings(false, false),
        vec![
            "ISO build and VM test flows are only supported on Linux hosts".to_string(),
            "xorriso is required for deep ISO inspection and repacking".to_string()
        ]
    );
}

#[test]
fn failed_command_message() {
    match command_status_error("xorriso", Some(5), "  bad input \n") {
        EngineError::Runtime(m) => assert_eq!(m, "xorriso failed with status Some(5): bad input"),
        _ => panic!(),
    }
    match command_status_error("qemu", None, "") {
        EngineError::Runtime(m) => assert_eq!(m, "qemu failed with status None: "),
        _ => panic!(),
    }
    match command_status_error("x", Some(-2), "e") {
        EngineError::Runtime(m) => assert_eq!(m, "x failed with status Some(-2): e"),
        _ => panic!(),
    }
}

#[test]
fn rootfs_decisions() {
    let d = rootfs_decision(Some("casper/filesystem.squashfs"), true);
    assert!(d.rewrite && d.warning.is_none());
    let d = rootfs_decision(Some("images/install.img"), true);
    assert!(!d.rewrite);
    assert_eq!(
        d.warning.unwrap(),
        "Root filesystem image 'images/install.img' is not yet rewriteable offline; only top-level ISO files will be updated"
    );
    let d = rootfs_decision(Some("casper/filesystem.squashfs"), false);
    assert!(!d.rewrite && d.warning.is_none());
    let d = rootfs_decision(None, false);
    assert_eq!(d.warning.unwrap(), "No known root filesystem image was detected inside the ISO");
}

#[test]
fn doctor_reports() {
    let tooling = doctor_tooling(true);
    let names: Vec<&str> = tooling.iter().map(|(n, _)| n.as_str()).collect();
    assert_eq!(
        names,
        vec![
            "grype",
            "mtools",
            "oscap",
            "ovmf",
            "qemu-system-x86_64",
            "squashfs-tools",
            "syft",
            "trivy",
            "xorriso"
        ]
    );
    assert!(tooling[3].1);
    assert!(!doctor_tooling(false)[3].1);
    let r = doctor_report(
        "macos".to_string(),
        "aarch64".to_string(),
        vec![("xorriso".to_string(), false)],
        "now".to_string(),
    );
    assert!(!r.linux_supported);
    assert_eq!(
        r.warnings,
        vec![
            "ISO build and VM test flows are only supported on Linux hosts".to_string(),
            "xorriso is required for deep ISO inspection and repacking".to_string()
        ]
    );
    let r = doctor_report(
        "linux".to_string(),
        "x86_64".to_string(),
        vec![("xorriso".to_string(), true)],
        "now".to_string(),
    );
    assert!(r.linux_supported);
    assert!(r.warnings.is_empty());
}

#[test]
fn download_names_are_plain_file_names() {
    for (url, t) in [("https://h/a b?c=d", 1), ("https://h/../..", 2), ("/", -30), ("", 0)] {
        let name = download_filename_at(url, t);
        assert!(!name.is_empty());
        assert!(name
            .chars()
            .all(|c| c.is_ascii_alphanumeric() || c == '.' || c == '-' || c == '_'));
    }
    assert_eq!(download_filename_at("https://h/a b?c=d", 1), "a-b-c-d");
}

use forgeiso_engine::config::Distro;
use forgeiso_engine::iso::{
    boot_support_from_report, capture_version, infer_architecture, infer_from_arch_version,
    infer_from_disk_info, infer_from_label, infer_from_treeinfo, listing_mentions,
    rootfs_candidates, rootfs_relative, volume_id_from_sector, BootSupport, IsoMetadata,
    SourceKind,
};

fn blank_metadata() -> IsoMetadata {
    IsoMetadata {
        source_path: "/tmp/a.iso".to_string(),
        source_kind: SourceKind::LocalPath,
        source_value: "/tmp/a.iso".to_string(),
        size_bytes: 0,
        sha256: String::new(),
        volume_id: None,
        distro: None,
        release: None,
        edition: None,
        architecture: None,
        rootfs_path: None,
        boot: BootSupport::default(),
        inspected_at: String::new(),
        warnings: Vec::new(),
    }
}

#[test]
fn parses_version_from_label() {
    assert_eq!(
        capture_version("Ubuntu 24.04.1 LTS"),
        Some("24.04".to_string())
    );
    assert_eq!(
        capture_version("Arch Linux 2026.03.05"),
        Some("2026.03.05".to_string())
    );
}

#[test]
fn infers_arch_from_label() {
    assert_eq!(
        infer_architecture("Ubuntu amd64"),
        Some("x86_64".to_string())
    );
    assert_eq!(
        infer_architecture("Fedora aarch64"),
        Some("aarch64".to_string())
    );
}

#[test]
fn unknown_architecture_and_version() {
    assert_eq!(infer_architecture("Some Linux"), None);
    assert_eq!(infer_architecture("DEBIAN ARM64"), Some("aarch64".to_string()));
    assert_eq!(capture_version("no digits here"), None);
    assert_eq!(capture_version("Fedora 41"), Some("41".to_string()));
}

#[test]
fn label_sets_distro_arch_and_release() {
    let mut info = blank_metadata();
    infer_from_label("Ubuntu-Server 24.04 amd64", &mut info);
    assert_eq!(info.distro, Some(Distro::Ubuntu));
    assert_eq!(info.architecture.as_deref(), Some("x86_64"));
    assert_eq!(info.release.as_deref(), Some("24.04"));

    // Known fields are kept; the distro is replaced.
    infer_from_label("Linux Mint 21.3 aarch64", &mut info);
    assert_eq!(info.distro, Some(Distro::Mint));
    assert_eq!(info.architecture.as_deref(), Some("x86_64"));
    assert_eq!(info.release.as_deref(), Some("24.04"));
}

#[test]
fn disk_info_sets_edition() {
    let mut info = blank_metadata();
    infer_from_disk_info("  Ubuntu-Server 24.04.1 LTS \"Noble Numbat\" - Release amd64\n", &mut info);
    assert_eq!(info.distro, Some(Distro::Ubuntu));
    assert_eq!(
        info.edition.as_deref(),
        Some("Ubuntu-Server 24.04.1 LTS \"Noble Numbat\" - Release amd64")
    );
    let mut blank = blank_metadata();
    infer_from_disk_info("   \n ", &mut blank);
    assert_eq!(blank.distro, None);
    assert_eq!(blank.edition, None);
}

#[test]
fn treeinfo_fields() {
    let mut info = blank_metadata();
    let body = "[general]\nfamily = Fedora\nversion = 41\narch = x86_64\nvariant = Workstation\n";
    infer_from_treeinfo(body, &mut info);
    assert_eq!(info.distro, Some(Distro::Fedora));
    assert_eq!(info.release.as_deref(), Some("41"));
    assert_eq!(info.architecture.as_deref(), Some("x86_64"));
    assert_eq!(info.edition.as_deref(), Some("Workstation"));
    assert_eq!(info.rootfs_path.as_deref(), Some("LiveOS/squashfs.img"));
}

#[test]
fn arch_version_file() {
    let mut info = blank_metadata();
    infer_from_arch_version("2026.03.05\nextra\n", &mut info);
    assert_eq!(info.distro, Some(Distro::Arch));
    assert_eq!(info.release.as_deref(), Some("2026.03.05"));
    assert_eq!(info.rootfs_path.as_deref(), Some("arch/x86_64/airootfs.sfs"));

    let mut kept = blank_metadata();
    kept.rootfs_path = Some("custom.sfs".to_string());
    infer_from_arch_version("   \n", &mut kept);
    assert_eq!(kept.release, None);
    assert_eq!(kept.rootfs_path.as_deref(), Some("custom.sfs"));
}

#[test]
fn boot_support_from_el_torito() {
    let b = boot_support_from_report("Boot record  : El Torito\nPltf  BIOS\n", "");
    assert!(b.bios);
    assert!(!b.uefi);
    let b = boot_support_from_report("", "boot img :   2  UEFI");
    assert!(!b.bios);
    assert!(b.uefi);
}

#[test]
fn rootfs_candidates_and_paths() {
    let c = rootfs_candidates();
    assert_eq!(c.len(), 4);
    assert_eq!(c[0], "/casper/filesystem.squashfs");
    assert_eq!(rootfs_relative("/casper/filesystem.squashfs"), "casper/filesystem.squashfs");
    assert_eq!(rootfs_relative("//x"), "x");
    assert!(listing_mentions("Report: /casper/filesystem.squashfs", "", "/casper/filesystem.squashfs"));
    assert!(!listing_mentions("", "", "/live/filesystem.squashfs"));
}

#[test]
fn volume_id_of_descriptor() {
    let mut sector = vec![0u8; 2048];
    sector[1..6].copy_from_slice(b"CD001");
    let label = b"Ubuntu 24.04 LTS amd64";
    sector[40..40 + label.len()].copy_from_slice(label);
    for b in sector[40 + label.len()..72].iter_mut() {
        *b = b' ';
    }
    assert_eq!(
        volume_id_from_sector("/tmp/a.iso", &sector).unwrap(),
        Some("Ubuntu 24.04 LTS amd64".to_string())
    );

    let mut blank = vec![0u8; 2048];
    blank[1..6].copy_from_slice(b"CD001");
    assert_eq!(volume_id_from_sector("/tmp/a.iso", &blank).unwrap(), None);

    let not_iso = vec![0u8; 2048];
    match volume_id_from_sector("/tmp/x.img", &not_iso) {
        Err(e) => assert_eq!(e.message(), "invalid config: /tmp/x.img is not an ISO-9660 image"),
        Ok(_) => panic!("a sector without CD001 must be refused"),
    }
}

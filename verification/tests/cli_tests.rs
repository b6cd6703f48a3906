use forgeiso_engine::cli::{parse_distro_flag, parse_profile, parse_sysctl_pairs, test_targets};
use forgeiso_engine::config::{Distro, ProfileKind};

#[test]
fn profiles() {
    assert_eq!(parse_profile("minimal").unwrap(), ProfileKind::Minimal);
    assert_eq!(parse_profile("desktop").unwrap(), ProfileKind::Desktop);
    assert_eq!(
        parse_profile("server").unwrap_err(),
        "unsupported profile 'server': expected minimal|desktop"
    );
}

#[test]
fn distro_flags() {
    assert_eq!(parse_distro_flag(None).unwrap(), None);
    assert_eq!(parse_distro_flag(Some("ubuntu")).unwrap(), None);
    assert_eq!(parse_distro_flag(Some("fedora")).unwrap(), Some(Distro::Fedora));
    assert_eq!(parse_distro_flag(Some("arch")).unwrap(), Some(Distro::Arch));
    assert_eq!(parse_distro_flag(Some("mint")).unwrap(), Some(Distro::Mint));
    assert_eq!(
        parse_distro_flag(Some("gentoo")).unwrap_err(),
        "ERROR: unknown distro 'gentoo'. Valid: ubuntu, fedora, arch, mint"
    );
}

#[test]
fn sysctl_pairs_split_at_first_equals() {
    let items = vec![
        "vm.swappiness=10".to_string(),
        "broken".to_string(),
        "a=b=c".to_string(),
    ];
    assert_eq!(
        parse_sysctl_pairs(&items),
        vec![
            ("vm.swappiness".to_string(), "10".to_string()),
            ("a".to_string(), "b=c".to_string())
        ]
    );
}

#[test]
fn boot_test_targets() {
    assert_eq!(test_targets(false, false), (true, true));
    assert_eq!(test_targets(true, false), (true, false));
    assert_eq!(test_targets(false, true), (false, true));
    assert_eq!(test_targets(true, true), (true, true));
}

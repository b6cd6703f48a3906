use forgeiso_engine::config::{
    default_profile, default_true, BuildConfig, IsoSource, PathStatus, ProfileKind, ScanPolicy,
    TestingPolicy,
};
use forgeiso_engine::error::EngineError;

fn demo_config() -> BuildConfig {
    BuildConfig {
        name: "demo".to_string(),
        source: IsoSource::from_raw("/tmp/base.iso"),
        overlay_dir: None,
        output_label: None,
        profile: ProfileKind::Minimal,
        auto_scan: false,
        auto_test: false,
        scanning: ScanPolicy::default(),
        testing: TestingPolicy::default(),
        keep_workdir: false,
    }
}

const PRESENT_DIR: PathStatus = PathStatus { exists: true, is_dir: true };

#[test]
fn detects_url_source() {
    let source = IsoSource::from_raw("https://example.test/test.iso");
    assert!(matches!(source, IsoSource::Url(_)));
}

#[test]
fn rejects_missing_overlay_dir() {
    let mut cfg = demo_config();
    cfg.overlay_dir = Some("/definitely/missing".to_string());
    let missing = PathStatus { exists: false, is_dir: false };
    assert!(cfg.validate(missing).is_err());
}

#[test]
fn scan_policy_defaults_enable_local_checks() {
    let policy = ScanPolicy::default();

    assert!(policy.enable_sbom);
    assert!(policy.enable_trivy);
    assert!(policy.enable_secrets_scan);
    assert!(!policy.enable_syft_grype);
    assert!(!policy.enable_open_scap);
}

#[test]
fn plain_paths_are_local_sources() {
    let source = IsoSource::from_raw("/isos/ubuntu.iso");
    assert!(!source.is_remote());
    assert_eq!(source.display_value(), "/isos/ubuntu.iso");
    let url = IsoSource::from_raw("http://mirror.test/a.iso");
    assert!(url.is_remote());
    assert_eq!(url.display_value(), "http://mirror.test/a.iso");
}

#[test]
fn valid_build_config_passes() {
    assert!(demo_config().validate(PRESENT_DIR).is_ok());
}

#[test]
fn validation_messages_follow_the_rules() {
    let mut cfg = demo_config();
    cfg.name = "   ".to_string();
    match cfg.validate(PRESENT_DIR) {
        Err(EngineError::InvalidConfig(m)) => assert_eq!(m, "name cannot be empty"),
        _ => panic!("blank name must be refused"),
    }

    let mut cfg = demo_config();
    cfg.source = IsoSource::Path(String::new());
    match cfg.validate(PRESENT_DIR) {
        Err(EngineError::InvalidConfig(m)) => assert_eq!(m, "source path cannot be empty"),
        _ => panic!("empty path must be refused"),
    }

    let mut cfg = demo_config();
    cfg.source = IsoSource::Url("ftp://x/a.iso".to_string());
    match cfg.validate(PRESENT_DIR) {
        Err(EngineError::InvalidConfig(m)) => {
            assert_eq!(m, "source URL must start with http:// or https://")
        }
        _ => panic!("ftp URL must be refused"),
    }

    let mut cfg = demo_config();
    cfg.overlay_dir = Some("/etc/hosts".to_string());
    match cfg.validate(PathStatus { exists: true, is_dir: false }) {
        Err(EngineError::InvalidConfig(m)) => {
            assert_eq!(m, "overlay_dir must be a directory: /etc/hosts")
        }
        _ => panic!("a file overlay must be refused"),
    }

    let mut cfg = demo_config();
    cfg.output_label = Some("  ".to_string());
    match cfg.validate(PRESENT_DIR) {
        Err(EngineError::InvalidConfig(m)) => assert_eq!(m, "output_label cannot be blank"),
        _ => panic!("blank label must be refused"),
    }

    let mut cfg = demo_config();
    cfg.output_label = Some("A".repeat(33));
    match cfg.validate(PRESENT_DIR) {
        Err(EngineError::InvalidConfig(m)) => {
            assert_eq!(m, "output_label must be 32 characters or fewer")
        }
        _ => panic!("long label must be refused"),
    }

    let mut cfg = demo_config();
    cfg.output_label = Some("A".repeat(32));
    assert!(cfg.validate(PRESENT_DIR).is_ok());

    let mut cfg = demo_config();
    cfg.auto_test = true;
    cfg.testing.smoke = false;
    match cfg.validate(PRESENT_DIR) {
        Err(EngineError::InvalidConfig(m)) => assert_eq!(m, "auto_test requires testing.smoke=true"),
        _ => panic!("auto_test without smoke must be refused"),
    }
}

#[test]
fn label_length_counts_bytes() {
    let mut cfg = demo_config();
    // 17 two-byte chars: 34 bytes.
    cfg.output_label = Some("é".repeat(17));
    assert!(cfg.validate(PRESENT_DIR).is_err());
}

#[test]
fn serde_defaults() {
    assert!(default_true());
    assert_eq!(default_profile(), ProfileKind::Minimal);
    let t = TestingPolicy::default();
    assert!(t.bios && t.uefi && t.smoke);
    assert!(ScanPolicy::default().fail_on_severity.is_none());
}

#[test]
fn error_messages_carry_their_category() {
    let e = EngineError::PolicyViolation("x".to_string());
    assert_eq!(e.message(), "policy violation: x");
    let e = EngineError::MissingTool("xorriso".to_string());
    assert_eq!(e.message(), "tooling missing: xorriso");
}

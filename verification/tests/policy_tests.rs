use forgeiso_engine::config::Distro;
use forgeiso_engine::error::EngineError;
use forgeiso_engine::policy::{
    enforce_arch_at, enforce_fedora_at, enforce_release_policy, enforce_release_policy_at,
    fedora_stable_for, inferred_fedora_stable, policy_warnings, policy_warnings_at,
    ubuntu_lts_verdict,
};
use forgeiso_engine::release_tracker::{date_text_exec, ubuntu_lts_versions, ReleaseTracker};

#[test]
fn ubuntu_lts_only() {
    assert!(enforce_release_policy(&Distro::Ubuntu, "24.04").is_ok());
    assert!(enforce_release_policy(&Distro::Ubuntu, "23.10").is_err());
}

#[test]
fn mint_lts_only() {
    assert!(enforce_release_policy(&Distro::Mint, "21.3").is_ok());
    assert!(enforce_release_policy(&Distro::Mint, "19.3").is_err());
}

#[test]
fn arch_must_not_be_future() {
    let future = chrono::Utc::now().date_naive() + chrono::Duration::days(1);
    assert!(enforce_release_policy(
        &Distro::Arch,
        &future.format("%Y.%m.%d").to_string()
    )
    .is_err());
}

#[test]
fn ubuntu_verdict_message() {
    assert!(ubuntu_lts_verdict("22.04", true).is_ok());
    match ubuntu_lts_verdict("23.10", false) {
        Err(EngineError::PolicyViolation(m)) => {
            assert_eq!(m, "Ubuntu release '23.10' violates LTS-only policy")
        }
        _ => panic!(),
    }
    assert!(enforce_release_policy(&Distro::Ubuntu, "20.04").is_ok());
    assert!(enforce_release_policy(&Distro::Ubuntu, "24.04.1").is_err());
}

#[test]
fn fedora_window() {
    assert!(enforce_fedora_at("41", 43).is_ok());
    match enforce_fedora_at("40", 43) {
        Err(EngineError::PolicyViolation(m)) => {
            assert_eq!(m, "Fedora release '40' is outside supported stable window")
        }
        _ => panic!(),
    }
    match enforce_fedora_at("rawhide", 43) {
        Err(EngineError::PolicyViolation(m)) => {
            assert_eq!(m, "Fedora release 'rawhide' must be a numeric stable release")
        }
        _ => panic!(),
    }
    assert!(enforce_fedora_at("+43", 43).is_ok());
    assert_eq!(fedora_stable_for(2025, 3), 41);
    assert_eq!(fedora_stable_for(2025, 7), 42);
    assert_eq!(fedora_stable_for(2026, 11), 45);
    assert_eq!(fedora_stable_for(2030, 1), 46);
    let now = inferred_fedora_stable();
    assert!((41..=46).contains(&now));
}

#[test]
fn arch_snapshot_dates() {
    assert!(enforce_arch_at("2026.03.05", (2026, 3, 5)).is_ok());
    assert!(enforce_arch_at("2026.03.06", (2026, 3, 5)).is_err());
    match enforce_arch_at("2026-03-05", (2026, 3, 5)) {
        Err(EngineError::PolicyViolation(m)) => {
            assert_eq!(m, "Arch release must use YYYY.MM.DD snapshot format")
        }
        _ => panic!(),
    }
    assert!(enforce_release_policy_at(&Distro::Arch, "2025.12.31", 43, (2026, 1, 1)).is_ok());
}

#[test]
fn lifecycle_warnings() {
    let w = policy_warnings_at(&Distro::Fedora, "40", 43);
    assert_eq!(w.len(), 1);
    assert_eq!(w[0].code, "fedora_lifecycle");
    assert_eq!(
        w[0].message,
        "Fedora 40 may be at or near EOL. Fedora is short lifecycle and not LTS."
    );
    let w = policy_warnings_at(&Distro::Fedora, "42", 43);
    assert_eq!(
        w[0].message,
        "Fedora is short lifecycle and not LTS; monitor support windows in production."
    );
    let w = policy_warnings(&Distro::Arch, "2026.01.01");
    assert_eq!(w[0].code, "arch_rolling");
    assert!(policy_warnings(&Distro::Ubuntu, "24.04").is_empty());
}

#[test]
fn release_lists() {
    let body = "Dist: noble\nVersion: 24.04.1 LTS\nDist: jammy\nVersion: 22.04.5 LTS\nVersion: 24.04.1 LTS\n";
    assert_eq!(
        ubuntu_lts_versions(body),
        vec!["24.04.1".to_string(), "22.04.5".to_string()]
    );
    assert_eq!(
        ubuntu_lts_versions("nothing"),
        vec!["24.04".to_string(), "22.04".to_string()]
    );
    let t = ReleaseTracker::new();
    let mint = t.releases_from(Distro::Mint, None, 43, (2026, 1, 2)).unwrap();
    assert_eq!(mint.len(), 3);
    assert_eq!(mint[0].version, "22");
    let fedora = t.releases_from(Distro::Fedora, None, 43, (2026, 1, 2)).unwrap();
    assert_eq!(fedora[0].version, "43");
    assert!(!fedora[0].lts);
    let arch = t.releases_from(Distro::Arch, None, 43, (2026, 1, 2)).unwrap();
    assert_eq!(arch[0].version, "2026.01.02");
    assert_eq!(date_text_exec((-5, 12, 31)), "-005.12.31");
}

#[test]
fn the_largest_fedora_number_still_gets_one_lifecycle_warning() {
    let w = policy_warnings(&Distro::Fedora, "65535");
    assert_eq!(w.len(), 1);
    assert_eq!(w[0].code, "fedora_lifecycle");
    let w = policy_warnings_at(&Distro::Fedora, "65535", 46);
    assert_eq!(
        w[0].message,
        "Fedora is short lifecycle and not LTS; monitor support windows in production."
    );
    assert_eq!(policy_warnings(&Distro::Ubuntu, "24.04").len(), 0);
    assert_eq!(policy_warnings(&Distro::Arch, "2024.01.01")[0].code, "arch_rolling");
}

#[test]
fn ubuntu_accepts_exactly_the_even_april_releases() {
    for ok in ["20.04", "22.04", "24.04", "26.04", "28.04", "30.04"] {
        assert!(enforce_release_policy(&Distro::Ubuntu, ok).is_ok(), "{ok}");
    }
    for bad in ["23.04", "24.10", "32.04", "24.04.1", " 24.04", "24.04\n", "2404", ""] {
        match enforce_release_policy(&Distro::Ubuntu, bad) {
            Err(EngineError::PolicyViolation(m)) => {
                assert_eq!(m, format!("Ubuntu release '{bad}' violates LTS-only policy"))
            }
            _ => panic!("{bad:?} accepted"),
        }
    }
}

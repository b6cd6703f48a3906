use forgeiso_engine::backends::{
    arch_plan, default_env, fedora_plan, mint_plan, module_snippets, plan_build, render_kickstart,
    render_packages, shared_mounts, shell_escape, spec, ubuntu_plan, PlanRequest, ReleaseSpec,
};
use forgeiso_engine::config::Distro;
use forgeiso_engine::error::EngineError;
use forgeiso_engine::modules::{build_action, evaluate_modules, ModuleAction, ModuleSpec, ModuleType};
use forgeiso_engine::workspace::Workspace;
use forgeiso_engine::yaml::{YamlEntry, YamlValue};

fn config(entries: Vec<(&str, YamlValue)>) -> YamlValue {
    YamlValue::Mapping(
        entries
            .into_iter()
            .map(|(k, v)| YamlEntry { key: YamlValue::Str(k.to_string()), value: v })
            .collect(),
    )
}

fn strings(items: &[&str]) -> YamlValue {
    YamlValue::List(items.iter().map(|s| YamlValue::Str(s.to_string())).collect())
}

fn module(t: ModuleType, dangerous: bool, enabled: bool, cfg: YamlValue) -> ModuleSpec {
    ModuleSpec { module_type: t, enabled, dangerous, config: cfg }
}

#[test]
fn package_module_lists_install_and_remove() {
    let m = module(
        ModuleType::Packages,
        false,
        true,
        config(vec![("install", strings(&["vim", "git"])), ("remove", strings(&["nano"]))]),
    );
    let a = build_action(&m, false).unwrap();
    assert_eq!(a.module_type, ModuleType::Packages);
    assert_eq!(a.description, "Package operations");
    assert_eq!(a.shell_snippets, vec!["# install: vim,git", "# remove: nano"]);
}

#[test]
fn dangerous_modules_need_dangerous_mode() {
    let m = module(ModuleType::Fonts, true, true, YamlValue::Null);
    match build_action(&m, false) {
        Err(EngineError::PolicyViolation(msg)) => {
            assert_eq!(msg, "dangerous module requested while dangerous mode is disabled")
        }
        _ => panic!("dangerous module must be refused"),
    }
    let a = build_action(&m, true).unwrap();
    assert_eq!(a.description, "Font pack policy");
}

#[test]
fn custom_scripts_need_a_path() {
    let bare = module(ModuleType::CustomScript, false, true, YamlValue::Null);
    match build_action(&bare, false) {
        Err(EngineError::InvalidConfig(msg)) => {
            assert_eq!(msg, "custom_script module requires config.path")
        }
        _ => panic!("custom script without a path must be refused"),
    }
    let with_path = module(
        ModuleType::CustomScript,
        false,
        true,
        config(vec![("path", YamlValue::Str("/opt/run.sh".to_string()))]),
    );
    assert_eq!(build_action(&with_path, false).unwrap().shell_snippets, vec!["bash /opt/run.sh"]);
}

#[test]
fn disabled_modules_are_skipped() {
    let mods = vec![
        module(ModuleType::Ssh, false, true, YamlValue::Null),
        module(ModuleType::CustomScript, false, false, YamlValue::Null),
        module(ModuleType::Codecs, false, true, YamlValue::Null),
    ];
    let acts = evaluate_modules(&mods, false).unwrap();
    assert_eq!(acts.len(), 2);
    assert_eq!(acts[0].description, "SSH policy");
    assert_eq!(acts[1].description, "Codec package policy");
    let bad = vec![module(ModuleType::Users, true, true, YamlValue::Null)];
    assert!(evaluate_modules(&bad, false).is_err());
}

#[test]
fn backend_pieces() {
    let env = default_env();
    assert_eq!(
        env,
        vec![
            ("DEBIAN_FRONTEND".to_string(), "noninteractive".to_string()),
            ("LC_ALL".to_string(), "C.UTF-8".to_string())
        ]
    );
    let ws = Workspace::layout("/tmp/ws", "demo", "abc");
    let mounts = shared_mounts(&ws);
    assert_eq!(mounts[0], (ws.root.clone(), "/workspace".to_string()));
    assert_eq!(mounts[1], (ws.logs.clone(), "/workspace/logs".to_string()));
    let s = spec("fedora:40", "make".to_string(), &ws, None);
    assert_eq!(s.args, vec!["bash", "-lc", "make"]);
    assert_eq!(s.workdir.as_deref(), Some("/workspace"));
    assert_eq!(s.timeout_seconds, 14_400);
    assert_eq!(shell_escape("it's"), "it''s");
}

#[test]
fn scripts_and_package_lists() {
    let acts = vec![ModuleAction {
        module_type: ModuleType::Files,
        description: "Owner's files".to_string(),
        shell_snippets: vec!["cp a b".to_string()],
    }];
    assert_eq!(module_snippets(&acts), "echo '[module] Owner''s files'; cp a b");
    assert_eq!(render_packages(false), "base\nlinux\nlinux-firmware\nnetworkmanager\nopenssh");
    assert!(render_packages(true).ends_with("openssh\nsteam\nlutris"));
    let ks = render_kickstart(true, &acts);
    assert!(ks.starts_with("lang en_US.UTF-8\n"));
    assert!(ks.contains("@core\nsteam\nlutris\n%end\n\n%post --erroronfail\ncp a b\n%end\n"));
}

fn plan_request(distro: Distro, url: Option<&str>, sum: Option<&str>) -> PlanRequest {
    PlanRequest {
        name: "demo".to_string(),
        distro,
        release: ReleaseSpec {
            version: "24.04".to_string(),
            base_iso_url: url.map(|s| s.to_string()),
            base_iso_checksum: sum.map(|s| s.to_string()),
        },
        gaming: false,
    }
}

#[test]
fn remaster_plans_need_a_base_image() {
    let ws = Workspace::layout("/tmp/ws", "demo", "1");
    let acts: Vec<ModuleAction> = vec![];
    match ubuntu_plan(&plan_request(Distro::Ubuntu, None, None), &ws, &acts, None) {
        Err(EngineError::InvalidConfig(m)) => assert_eq!(m, "release.base_iso_url is required"),
        _ => panic!("a remaster needs a base image URL"),
    }
    let p = ubuntu_plan(
        &plan_request(Distro::Ubuntu, Some("https://x/u.iso"), Some("abc")),
        &ws,
        &acts,
        Some((1, 2)),
    )
    .unwrap();
    assert_eq!(p.backend_name, "ubuntu-lts-remaster");
    assert_eq!(p.produced_iso, format!("{}/demo-ubuntu-24.04.iso", ws.output));
    let script = &p.commands[0].args[2];
    assert!(script.starts_with("set -euo pipefail; mkdir -p /workspace/input /workspace/work/ubuntu/extract"));
    assert!(script.contains("curl -L --fail 'https://x/u.iso' -o /workspace/input/base.iso; echo 'abc  /workspace/input/base.iso' > /workspace/input/base.iso.sha256; sha256sum -c /workspace/input/base.iso.sha256; xorriso"));
    assert!(script.ends_with(&format!("test -f '{}'", p.produced_iso)));
    let m = mint_plan(&plan_request(Distro::Mint, Some("https://x/m.iso"), None), &ws, &acts, None).unwrap();
    assert!(m.commands[0].args[2].contains("-o /workspace/input/base.iso; xorriso -osirrox on"));
    assert!(m.commands[0].args[2].contains("-V 'ForgeISO Mint'"));
}

#[test]
fn fedora_and_arch_plans_write_their_inputs() {
    let ws = Workspace::layout("/tmp/ws", "demo", "1");
    let acts = vec![ModuleAction {
        module_type: ModuleType::Ssh,
        description: "SSH policy".to_string(),
        shell_snippets: vec!["echo ssh".to_string()],
    }];
    let f = fedora_plan(&plan_request(Distro::Fedora, None, None), &ws, &acts, None);
    assert_eq!(f.files[0].0, format!("{}/fedora.ks", ws.work));
    assert!(f.files[0].1.contains("%post --erroronfail\necho ssh\n%end\n"));
    assert!(f.plan.commands[0].args[2].contains("--releasever '24.04'"));
    let a = arch_plan(&plan_request(Distro::Arch, None, None), &ws, &acts, None);
    assert_eq!(a.dirs, vec![format!("{}/archiso-profile/airootfs/etc/systemd/system", ws.work)]);
    assert_eq!(a.files[1].1, "#!/usr/bin/env bash\nset -euo pipefail\necho '[module] SSH policy'; echo ssh\n");
    assert_eq!(a.plan.warnings, vec!["Arch is rolling release; snapshot reproducibility is best effort"]);
    let built = plan_build(&plan_request(Distro::Mint, None, None), &ws, &acts, None);
    assert!(built.is_err());
    assert!(plan_build(&plan_request(Distro::Arch, None, None), &ws, &acts, None).is_ok());
}

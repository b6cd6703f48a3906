use forgeiso_engine::autoinstall::{
    build_feature_late_commands, finish_generated_yaml, finish_merged_yaml,
    generate_autoinstall_document, hash_password, merge_autoinstall, merge_is_refused,
};
use forgeiso_engine::config::{
    ContainerConfig, FirewallConfig, GrubConfig, InjectConfig, IsoSource, NetworkConfig,
    ProxyConfig, SshConfig, SwapConfig, UserConfig,
};
use forgeiso_engine::error::EngineError;
use forgeiso_engine::yaml::{YamlEntry, YamlValue};

fn base_config() -> InjectConfig {
    InjectConfig {
        source: IsoSource::from_raw("/tmp/test.iso"),
        autoinstall_yaml: None,
        out_name: "out.iso".to_string(),
        output_label: None,
        hostname: None,
        username: None,
        password: None,
        realname: None,
        ssh: SshConfig::default(),
        network: NetworkConfig::default(),
        timezone: None,
        locale: None,
        keyboard_layout: None,
        storage_layout: None,
        apt_mirror: None,
        extra_packages: vec![],
        wallpaper: None,
        extra_late_commands: vec![],
        no_user_interaction: false,
        user: UserConfig::default(),
        firewall: FirewallConfig::default(),
        proxy: ProxyConfig::default(),
        static_ip: None,
        gateway: None,
        enable_services: vec![],
        disable_services: vec![],
        sysctl: vec![],
        swap: None,
        apt_repos: vec![],
        containers: ContainerConfig::default(),
        grub: GrubConfig::default(),
        encrypt: false,
        encrypt_passphrase: None,
        mounts: vec![],
        run_commands: vec![],
        distro: None,
    }
}

fn to_serde(v: &YamlValue) -> serde_yaml::Value {
    match v {
        YamlValue::Null => serde_yaml::Value::Null,
        YamlValue::Bool(b) => serde_yaml::Value::Bool(*b),
        YamlValue::Number(n) => serde_yaml::from_str(n).expect("number text"),
        YamlValue::Str(s) => serde_yaml::Value::String(s.clone()),
        YamlValue::List(items) => serde_yaml::Value::Sequence(items.iter().map(to_serde).collect()),
        YamlValue::Mapping(entries) => {
            let mut m = serde_yaml::Mapping::new();
            for e in entries {
                m.insert(to_serde(&e.key), to_serde(&e.value));
            }
            serde_yaml::Value::Mapping(m)
        }
        YamlValue::Tagged(tag, inner) => {
            serde_yaml::Value::Tagged(Box::new(serde_yaml::value::TaggedValue {
                tag: serde_yaml::value::Tag::new(tag.clone()),
                value: to_serde(inner),
            }))
        }
    }
}

fn from_serde(v: &serde_yaml::Value) -> YamlValue {
    match v {
        serde_yaml::Value::Null => YamlValue::Null,
        serde_yaml::Value::Bool(b) => YamlValue::Bool(*b),
        serde_yaml::Value::Number(n) => YamlValue::Number(n.to_string()),
        serde_yaml::Value::String(s) => YamlValue::Str(s.clone()),
        serde_yaml::Value::Sequence(items) => YamlValue::List(items.iter().map(from_serde).collect()),
        serde_yaml::Value::Mapping(m) => YamlValue::Mapping(
            m.iter()
                .map(|(k, v)| YamlEntry { key: from_serde(k), value: from_serde(v) })
                .collect(),
        ),
        serde_yaml::Value::Tagged(t) => {
            YamlValue::Tagged(t.tag.to_string(), Box::new(from_serde(&t.value)))
        }
    }
}

fn generate_yaml(cfg: &InjectConfig) -> String {
    let doc = generate_autoinstall_document(cfg).expect("document");
    let rendered = serde_yaml::to_string(&to_serde(&doc)).expect("render");
    finish_generated_yaml(&rendered)
}

fn merge_yaml(existing: &str, cfg: &InjectConfig) -> Result<String, EngineError> {
    let parsed: serde_yaml::Value = serde_yaml::from_str(existing).expect("parse");
    let merged = merge_autoinstall(from_serde(&parsed), cfg)?;
    let rendered = serde_yaml::to_string(&to_serde(&merged)).expect("render");
    Ok(finish_merged_yaml(existing, &rendered))
}

#[test]
fn test_hash_password_format() {
    let hashed = hash_password("testpass").unwrap();
    assert!(hashed.starts_with("$6$"), "Hash should start with $6$");
}

#[test]
fn test_generate_minimal_yaml() {
    let cfg = base_config();
    let yaml = generate_yaml(&cfg);
    assert!(yaml.starts_with("#cloud-config"), "YAML should start with #cloud-config");
    assert!(yaml.contains("autoinstall:"), "YAML should contain autoinstall section");
    assert!(yaml.contains("version: 1"), "YAML should contain version: 1");
}

#[test]
fn test_generate_with_identity() {
    let mut cfg = base_config();
    cfg.hostname = Some("test-host".to_string());
    cfg.username = Some("testuser".to_string());
    cfg.password = Some("testpass".to_string());
    cfg.realname = Some("Test User".to_string());
    let yaml = generate_yaml(&cfg);
    assert!(yaml.contains("identity:"), "YAML should contain identity section");
    assert!(yaml.contains("test-host"), "hostname should be in YAML");
    assert!(yaml.contains("testuser"), "username should be in YAML");
    assert!(yaml.contains("$6$"), "password should be hashed with $6$");
    assert!(yaml.contains("Test User"), "realname should be in YAML");
}

#[test]
fn test_generate_with_ssh_keys() {
    let mut cfg = base_config();
    cfg.ssh = SshConfig {
        authorized_keys: vec!["ssh-ed25519 AAAA...".to_string(), "ssh-rsa BBBB...".to_string()],
        allow_password_auth: None,
        install_server: None,
    };
    let yaml = generate_yaml(&cfg);
    assert!(yaml.contains("ssh:"), "YAML should contain ssh section");
    assert!(yaml.contains("AAAA"), "first key should be in YAML");
    assert!(yaml.contains("BBBB"), "second key should be in YAML");
    assert!(yaml.contains("allow-pw: false"), "allow-pw should be false when keys present");
}

#[test]
fn test_generate_with_dns() {
    let mut cfg = base_config();
    cfg.network = NetworkConfig {
        dns_servers: vec!["1.1.1.1".to_string(), "8.8.8.8".to_string()],
        ntp_servers: vec![],
    };
    let yaml = generate_yaml(&cfg);
    assert!(yaml.contains("network:"), "YAML should contain network section");
    assert!(yaml.contains("1.1.1.1"), "DNS 1 should be in YAML");
    assert!(yaml.contains("8.8.8.8"), "DNS 2 should be in YAML");
}

#[test]
fn test_generate_with_wallpaper() {
    let mut cfg = base_config();
    cfg.wallpaper = Some("/tmp/bg.jpg".to_string());
    let yaml = generate_yaml(&cfg);
    assert!(yaml.contains("late-commands:"), "YAML should contain late-commands");
    assert!(yaml.contains("cp /cdrom/wallpaper/bg.jpg"), "copy command should be present");
    assert!(yaml.contains("dconf update"), "dconf update should be present");
    assert!(yaml.contains("dconf-cli"), "dconf-cli should be in packages");
}

#[test]
fn test_merge_preserves_existing() {
    let existing = r#"
autoinstall:
  version: 1
  storage:
    layout:
      name: lvm
"#;
    let mut cfg = base_config();
    cfg.hostname = Some("newhost".to_string());
    let result = merge_yaml(existing, &cfg).unwrap();
    assert!(result.contains("lvm"), "existing storage layout should be preserved");
    assert!(result.contains("newhost"), "new hostname should be present");
}

#[test]
fn test_merge_overrides_identity() {
    let existing = r#"
autoinstall:
  identity:
    username: olduser
    hostname: oldhost
"#;
    let mut cfg = base_config();
    cfg.hostname = Some("newhost".to_string());
    cfg.username = Some("newuser".to_string());
    let result = merge_yaml(existing, &cfg).unwrap();
    assert!(result.contains("newuser"), "new username should override");
    assert!(result.contains("newhost"), "new hostname should override");
    assert!(!result.contains("olduser"), "old username should be gone");
    assert!(!result.contains("oldhost"), "old hostname should be gone");
}

#[test]
fn test_merge_appends_late_commands() {
    let existing = r#"
autoinstall:
  late-commands:
    - "echo existing"
"#;
    let mut cfg = base_config();
    cfg.extra_late_commands = vec!["echo new".to_string()];
    let result = merge_yaml(existing, &cfg).unwrap();
    assert!(result.contains("echo existing"), "existing command should be preserved");
    assert!(result.contains("echo new"), "new command should be appended");
}

#[test]
fn test_generate_with_user_groups() {
    let mut cfg = base_config();
    cfg.username = Some("testuser".to_string());
    cfg.user = UserConfig {
        groups: vec!["sudo".to_string(), "docker".to_string()],
        shell: None,
        sudo_nopasswd: false,
        sudo_commands: vec![],
    };
    let yaml = generate_yaml(&cfg);
    assert!(
        yaml.contains("usermod -aG sudo,docker testuser"),
        "usermod command should add groups"
    );
}

#[test]
fn test_generate_with_sudo_nopasswd() {
    let mut cfg = base_config();
    cfg.username = Some("testuser".to_string());
    cfg.user = UserConfig {
        groups: vec![],
        shell: None,
        sudo_nopasswd: true,
        sudo_commands: vec![],
    };
    let yaml = generate_yaml(&cfg);
    assert!(yaml.contains("NOPASSWD:ALL"), "sudo NOPASSWD should be configured");
    assert!(yaml.contains("chmod 440"), "sudoers file permissions");
}

#[test]
fn test_generate_with_firewall() {
    let mut cfg = base_config();
    cfg.firewall = FirewallConfig {
        enabled: true,
        default_policy: Some("deny".to_string()),
        allow_ports: vec!["22".to_string(), "443".to_string()],
        deny_ports: vec![],
    };
    let yaml = generate_yaml(&cfg);
    assert!(yaml.contains("ufw"), "firewall package should be added");
    assert!(yaml.contains("ufw --force enable"), "ufw enable command");
    assert!(yaml.contains("ufw allow 22"), "allow port 22");
}

#[test]
fn test_generate_with_static_ip() {
    let mut cfg = base_config();
    cfg.static_ip = Some("10.0.0.5/24".to_string());
    cfg.gateway = Some("10.0.0.1".to_string());
    let yaml = generate_yaml(&cfg);
    assert!(yaml.contains("dhcp4: false"), "static IP should disable DHCP");
    assert!(yaml.contains("10.0.0.5/24"), "static IP should be present");
    assert!(yaml.contains("10.0.0.1"), "gateway should be present");
}

#[test]
fn test_generate_with_proxy() {
    let mut cfg = base_config();
    cfg.proxy = ProxyConfig {
        http_proxy: Some("http://proxy.example.com:8080".to_string()),
        https_proxy: Some("http://proxy.example.com:8443".to_string()),
        no_proxy: vec!["localhost".to_string(), "127.0.0.1".to_string()],
    };
    let yaml = generate_yaml(&cfg);
    assert!(yaml.contains("http_proxy"), "http_proxy in environment");
    assert!(yaml.contains("Acquire::http::Proxy"), "apt http proxy");
    assert!(yaml.contains("no_proxy"), "no_proxy in environment");
}

#[test]
fn test_generate_with_services() {
    let mut cfg = base_config();
    cfg.enable_services = vec!["nginx".to_string()];
    cfg.disable_services = vec!["bluetooth".to_string()];
    let yaml = generate_yaml(&cfg);
    assert!(yaml.contains("systemctl enable nginx"), "enable nginx");
    assert!(yaml.contains("systemctl disable bluetooth"), "disable bluetooth");
}

#[test]
fn test_generate_with_sysctl() {
    let mut cfg = base_config();
    cfg.sysctl = vec![
        ("vm.swappiness".to_string(), "10".to_string()),
        ("net.ipv4.ip_forward".to_string(), "1".to_string()),
    ];
    let yaml = generate_yaml(&cfg);
    assert!(yaml.contains("vm.swappiness=10"), "sysctl setting");
    assert!(yaml.contains("sysctl.d/99-forgeiso.conf"), "sysctl config file");
}

#[test]
fn test_generate_with_swap() {
    let mut cfg = base_config();
    cfg.swap = Some(SwapConfig {
        size_mb: 4096,
        filename: Some("/swapfile".to_string()),
        swappiness: Some(10),
    });
    let yaml = generate_yaml(&cfg);
    assert!(yaml.contains("fallocate -l 4096M"), "swap allocation");
    assert!(yaml.contains("mkswap"), "swap mkswap");
    assert!(yaml.contains("/etc/fstab"), "fstab entry");
}

#[test]
fn test_generate_with_docker() {
    let mut cfg = base_config();
    cfg.username = Some("admin".to_string());
    cfg.containers = ContainerConfig {
        docker: true,
        podman: false,
        docker_users: vec!["admin".to_string()],
    };
    let yaml = generate_yaml(&cfg);
    assert!(yaml.contains("docker-ce"), "docker packages");
    assert!(yaml.contains("download.docker.com"), "docker repo");
    assert!(yaml.contains("usermod -aG docker admin"), "docker user");
}

#[test]
fn test_generate_with_grub() {
    let mut cfg = base_config();
    cfg.grub = GrubConfig {
        timeout: Some(5),
        cmdline_extra: vec!["quiet".to_string(), "iommu=on".to_string()],
        default_entry: None,
    };
    let yaml = generate_yaml(&cfg);
    assert!(yaml.contains("GRUB_TIMEOUT=5"), "grub timeout");
    assert!(yaml.contains("update-grub"), "update-grub command");
}

#[test]
fn test_generate_with_mounts() {
    let mut cfg = base_config();
    cfg.mounts = vec!["/dev/sdb1 /data ext4 defaults 0 2".to_string()];
    let yaml = generate_yaml(&cfg);
    assert!(yaml.contains("mkdir -p /target/data"), "create mount point");
    assert!(yaml.contains("/dev/sdb1 /data"), "fstab entry");
}

#[test]
fn test_generate_with_encryption() {
    let mut cfg = base_config();
    cfg.storage_layout = Some("lvm".to_string());
    cfg.encrypt = true;
    cfg.encrypt_passphrase = Some("secret".to_string());
    let yaml = generate_yaml(&cfg);
    assert!(yaml.contains("password:"), "encryption password in storage section");
    assert!(yaml.contains("secret"), "passphrase should be in YAML");
}

#[test]
fn merge_refuses_a_scalar_autoinstall_section() {
    let parsed: serde_yaml::Value = serde_yaml::from_str("autoinstall: 3\n").unwrap();
    let root = from_serde(&parsed);
    assert!(merge_is_refused(&root));
    match merge_autoinstall(root, &base_config()) {
        Err(EngineError::Runtime(m)) => assert_eq!(m, "autoinstall must be a mapping"),
        _ => panic!("a scalar section must be refused"),
    }
}

#[test]
fn merge_keeps_the_cloud_config_header() {
    let existing = "#cloud-config\nautoinstall:\n  version: 1\n";
    let mut cfg = base_config();
    cfg.hostname = Some("h1".to_string());
    let result = merge_yaml(existing, &cfg).unwrap();
    assert!(result.starts_with("#cloud-config\n"));
    let plain = merge_yaml("autoinstall:\n  version: 1\n", &cfg).unwrap();
    assert!(!plain.starts_with("#cloud-config"));
}

#[test]
fn generated_text_drops_the_placeholder_key() {
    let text = finish_generated_yaml("cloud-config: null\nautoinstall:\n  version: 1\n");
    assert_eq!(text, "#cloud-config\nautoinstall:\n  version: 1");
}

#[test]
fn feature_commands_for_plain_config_are_empty() {
    let cmds = build_feature_late_commands(&base_config()).unwrap();
    assert!(cmds.is_empty());
}

#[test]
fn feature_commands_follow_the_options() {
    let mut cfg = base_config();
    cfg.username = Some("ops".to_string());
    cfg.enable_services = vec!["sshd".to_string()];
    cfg.run_commands = vec!["echo done".to_string()];
    let cmds = build_feature_late_commands(&cfg).unwrap();
    assert!(cmds.iter().any(|c| c.contains("systemctl enable sshd")));
    assert_eq!(cmds.last().unwrap(), "echo done");
}

#[test]
fn password_hashes_carry_rounds_salt_and_a_checkable_digest() {
    let hashed = hash_password("testpass").unwrap();
    assert!(hashed.starts_with("$6$rounds=10000$"));
    let rest = &hashed["$6$rounds=10000$".len()..];
    let (salt, digest) = rest.split_once('$').expect("salt and digest");
    assert_eq!(salt.len(), 16);
    assert!(salt.chars().all(|c| c == '.' || c == '/' || c.is_ascii_alphanumeric()));
    assert_eq!(digest.len(), 86);
    assert!(sha_crypt::sha512_check("testpass", &hashed).is_ok());
    assert!(sha_crypt::sha512_check("otherpass", &hashed).is_err());
}

#[test]
fn generated_ssh_installs_the_server_by_default() {
    let mut cfg = base_config();
    cfg.ssh = SshConfig {
        authorized_keys: vec!["ssh-ed25519 AAAA...".to_string()],
        allow_password_auth: None,
        install_server: None,
    };
    let parsed: serde_yaml::Value = serde_yaml::from_str(&generate_yaml(&cfg)).unwrap();
    assert_eq!(parsed["autoinstall"]["ssh"]["install-server"], serde_yaml::Value::Bool(true));
    cfg.ssh.install_server = Some(false);
    let parsed: serde_yaml::Value = serde_yaml::from_str(&generate_yaml(&cfg)).unwrap();
    assert_eq!(parsed["autoinstall"]["ssh"]["install-server"], serde_yaml::Value::Bool(false));
}

#[test]
fn merge_adds_autoinstall_beside_other_top_level_keys() {
    let existing = "#cloud-config\nhostname: keep\n";
    let mut cfg = base_config();
    cfg.hostname = Some("newhost".to_string());
    let result = merge_yaml(existing, &cfg).unwrap();
    assert!(result.starts_with("#cloud-config\n"));
    let parsed: serde_yaml::Value =
        serde_yaml::from_str(result.trim_start_matches("#cloud-config\n")).unwrap();
    assert_eq!(parsed["hostname"], serde_yaml::Value::String("keep".to_string()));
    assert_eq!(
        parsed["autoinstall"]["identity"]["hostname"],
        serde_yaml::Value::String("newhost".to_string())
    );
}

#[test]
fn merge_appends_new_ssh_keys_without_repeats() {
    let existing = "autoinstall:\n  ssh:\n    authorized-keys:\n      - ssh-rsa OLDKEY\n";
    let mut cfg = base_config();
    cfg.ssh.authorized_keys = vec!["ssh-ed25519 NEWKEY".to_string(), "ssh-rsa OLDKEY".to_string()];
    let result = merge_yaml(existing, &cfg).unwrap();
    let parsed: serde_yaml::Value = serde_yaml::from_str(&result).unwrap();
    let keys: Vec<String> = parsed["autoinstall"]["ssh"]["authorized-keys"]
        .as_sequence()
        .unwrap()
        .iter()
        .map(|v| v.as_str().unwrap().to_string())
        .collect();
    assert_eq!(keys, vec!["ssh-rsa OLDKEY".to_string(), "ssh-ed25519 NEWKEY".to_string()]);
}

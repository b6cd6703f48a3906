use forgeiso_engine::config::{Distro, IsoSource, ProfileKind};
use forgeiso_engine::desktop::{
    build_config_of_request, inject_config_of_request, nonblank, request_distro, BuildRequest,
    InjectRequest,
};

fn request() -> InjectRequest {
    InjectRequest {
        source: "/isos/ubuntu.iso".to_string(),
        output_dir: "/tmp/out".to_string(),
        out_name: "custom".to_string(),
        output_label: Some("  ".to_string()),
        autoinstall_yaml: None,
        hostname: Some("box".to_string()),
        username: Some("".to_string()),
        password: None,
        realname: None,
        ssh_keys: vec!["ssh-ed25519 AAA".to_string()],
        ssh_password_auth: false,
        ssh_install_server: true,
        dns_servers: vec!["1.1.1.1".to_string()],
        ntp_servers: vec![],
        static_ip: None,
        gateway: None,
        http_proxy: None,
        https_proxy: None,
        no_proxy: vec![],
        timezone: Some("UTC".to_string()),
        locale: None,
        keyboard_layout: None,
        storage_layout: None,
        apt_mirror: None,
        groups: vec![],
        shell: None,
        sudo_nopasswd: false,
        sudo_commands: vec![],
        firewall_enabled: false,
        firewall_policy: None,
        allow_ports: vec![],
        deny_ports: vec![],
        enable_services: vec![],
        disable_services: vec![],
        sysctl: vec!["vm.swappiness=10".to_string(), "junk".to_string()],
        swap_size_mb: Some(1024),
        swap_file: Some(" ".to_string()),
        swappiness: Some(5),
        docker: false,
        podman: true,
        docker_users: vec![],
        grub_timeout: Some(3),
        grub_cmdline: vec![],
        grub_default: None,
        encrypt: false,
        encrypt_passphrase: None,
        mounts: vec![],
        packages: vec!["vim".to_string()],
        apt_repos: vec![],
        run_commands: vec![],
        extra_late_commands: vec![],
        no_user_interaction: true,
        distro: Some("gentoo".to_string()),
        wallpaper_path: None,
    }
}

#[test]
fn blank_values_are_absent() {
    assert_eq!(nonblank(Some(" \t".to_string())), None);
    assert_eq!(nonblank(Some(" x ".to_string())), Some(" x ".to_string()));
    assert_eq!(nonblank(None), None);
}

#[test]
fn request_distros_default_quietly() {
    assert_eq!(request_distro(&Some("arch".to_string())), Some(Distro::Arch));
    assert_eq!(request_distro(&Some("ubuntu".to_string())), None);
    assert_eq!(request_distro(&Some("".to_string())), None);
    assert_eq!(request_distro(&Some("gentoo".to_string())), None);
    assert_eq!(request_distro(&None), None);
}

#[test]
fn inject_request_to_config() {
    let cfg = inject_config_of_request(request());
    assert!(matches!(cfg.source, IsoSource::Path(_)));
    assert_eq!(cfg.out_name, "custom");
    assert_eq!(cfg.output_label, None);
    assert_eq!(cfg.hostname.as_deref(), Some("box"));
    assert_eq!(cfg.username, None);
    assert_eq!(cfg.ssh.install_server, Some(true));
    assert_eq!(cfg.ssh.allow_password_auth, None);
    assert_eq!(cfg.sysctl, vec![("vm.swappiness".to_string(), "10".to_string())]);
    let swap = cfg.swap.unwrap();
    assert_eq!(swap.size_mb, 1024);
    assert_eq!(swap.filename, None);
    assert_eq!(swap.swappiness, Some(5));
    assert_eq!(cfg.grub.timeout, Some(3));
    assert!(cfg.containers.podman && !cfg.containers.docker);
    assert_eq!(cfg.distro, None);
    assert!(cfg.no_user_interaction);
}

#[test]
fn build_request_to_config() {
    let mut req = BuildRequest {
        source: "https://mirror.test/a.iso".to_string(),
        output_dir: "/tmp/out".to_string(),
        name: "demo".to_string(),
        overlay_dir: Some("".to_string()),
        output_label: Some("LABEL".to_string()),
        profile: "desktop".to_string(),
    };
    let cfg = build_config_of_request(req.clone()).unwrap();
    assert!(matches!(cfg.source, IsoSource::Url(_)));
    assert_eq!(cfg.profile, ProfileKind::Desktop);
    assert_eq!(cfg.overlay_dir, None);
    assert_eq!(cfg.output_label.as_deref(), Some("LABEL"));
    req.profile = "server".to_string();
    assert_eq!(build_config_of_request(req).unwrap_err(), "unsupported profile: server");
}

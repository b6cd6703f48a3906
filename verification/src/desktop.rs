//! Requests of the desktop shell: the build and inject forms as the web
//! front end sends them, and the configurations they describe.

use vstd::prelude::*;
use crate::cli::{pairs_view, parse_sysctl_pairs, setting_pairs};
use crate::config::{
    BuildConfig, ContainerConfig, Distro, FirewallConfig, GrubConfig, InjectConfig, IsoSource,
    NetworkConfig, ProfileKind, ProxyConfig, ScanPolicy, SshConfig, SwapConfig, TestingPolicy,
    UserConfig,
};
use crate::text::{cat, str_eq, strs, trim, trim_exec};

verus! {

/// A local build as the front end asks for it.
#[derive(Clone, Debug)]
pub struct BuildRequest {
    pub source: String,
    pub output_dir: String,
    pub name: String,
    pub overlay_dir: Option<String>,
    pub output_label: Option<String>,
    pub profile: String,
}

/// An autoinstall injection as the front end asks for it. Optional text
/// fields may arrive blank; `sysctl` holds `key=value` settings.
#[derive(Clone, Debug)]
pub struct InjectRequest {
    pub source: String,
    pub output_dir: String,
    pub out_name: String,
    pub output_label: Option<String>,
    pub autoinstall_yaml: Option<String>,
    pub hostname: Option<String>,
    pub username: Option<String>,
    pub password: Option<String>,
    pub realname: Option<String>,
    pub ssh_keys: Vec<String>,
    pub ssh_password_auth: bool,
    pub ssh_install_server: bool,
    pub dns_servers: Vec<String>,
    pub ntp_servers: Vec<String>,
    pub static_ip: Option<String>,
    pub gateway: Option<String>,
    pub http_proxy: Option<String>,
    pub https_proxy: Option<String>,
    pub no_proxy: Vec<String>,
    pub timezone: Option<String>,
    pub locale: Option<String>,
    pub keyboard_layout: Option<String>,
    pub storage_layout: Option<String>,
    pub apt_mirror: Option<String>,
    pub groups: Vec<String>,
    pub shell: Option<String>,
    pub sudo_nopasswd: bool,
    pub sudo_commands: Vec<String>,
    pub firewall_enabled: bool,
    pub firewall_policy: Option<String>,
    pub allow_ports: Vec<String>,
    pub deny_ports: Vec<String>,
    pub enable_services: Vec<String>,
    pub disable_services: Vec<String>,
    pub sysctl: Vec<String>,
    pub swap_size_mb: Option<u32>,
    pub swap_file: Option<String>,
    pub swappiness: Option<u8>,
    pub docker: bool,
    pub podman: bool,
    pub docker_users: Vec<String>,
    pub grub_timeout: Option<u32>,
    pub grub_cmdline: Vec<String>,
    pub grub_default: Option<String>,
    pub encrypt: bool,
    pub encrypt_passphrase: Option<String>,
    pub mounts: Vec<String>,
    pub packages: Vec<String>,
    pub apt_repos: Vec<String>,
    pub run_commands: Vec<String>,
    pub extra_late_commands: Vec<String>,
    pub no_user_interaction: bool,
    pub distro: Option<String>,
    pub wallpaper_path: Option<String>,
}

/// A value that is not blank; blank text counts as absent.
pub open spec fn kept(o: Option<String>) -> Option<String> {
    match o {
        Some(s) => if trim(s@).len() == 0 {
            None
        } else {
            Some(s)
        },
        None => None,
    }
}

pub fn nonblank(o: Option<String>) -> (r: Option<String>)
    ensures
        r == kept(o),
{
    match o {
        Some(s) => {
            let t = trim_exec(s.as_str());
            if t.as_str().unicode_len() == 0 {
                None
            } else {
                Some(s)
            }
        },
        None => None,
    }
}

/// The target distribution a request names: Fedora, Arch and Mint by
/// name; anything else, blank or absent means the default.
pub open spec fn requested_distro(raw: Option<Seq<char>>) -> Option<Distro> {
    match raw {
        Some(s) => if s == "fedora"@ {
            Some(Distro::Fedora)
        } else if s == "arch"@ {
            Some(Distro::Arch)
        } else if s == "mint"@ {
            Some(Distro::Mint)
        } else {
            None
        },
        None => None,
    }
}

pub fn request_distro(raw: &Option<String>) -> (r: Option<Distro>)
    ensures
        r == requested_distro(crate::text::opt_view(*raw)),
{
    match raw {
        Some(s) => if str_eq(s.as_str(), "fedora") {
            Some(Distro::Fedora)
        } else if str_eq(s.as_str(), "arch") {
            Some(Distro::Arch)
        } else if str_eq(s.as_str(), "mint") {
            Some(Distro::Mint)
        } else {
            None
        },
        None => None,
    }
}

/// The build configuration of a request; an unknown profile is refused
/// with its message.
pub fn build_config_of_request(req: BuildRequest) -> (r: Result<BuildConfig, String>)
    ensures
        req.profile@ == "minimal"@ || req.profile@ == "desktop"@ <==> r is Ok,
        !(req.profile@ == "minimal"@ || req.profile@ == "desktop"@) ==> (r matches Err(m) && m@
            == "unsupported profile: "@ + req.profile@),
        r matches Ok(cfg) ==> {
            &&& cfg.name == req.name
            &&& cfg.source.raw_text() == req.source@
            &&& (cfg.source is Url) == crate::config::is_url_text(req.source@)
            &&& cfg.overlay_dir == kept(req.overlay_dir)
            &&& cfg.output_label == kept(req.output_label)
            &&& cfg.profile == (if req.profile@ == "desktop"@ {
                ProfileKind::Desktop
            } else {
                ProfileKind::Minimal
            })
            &&& !cfg.auto_scan && !cfg.auto_test && !cfg.keep_workdir
            &&& cfg.scanning == (ScanPolicy {
                enable_sbom: true,
                enable_trivy: true,
                enable_syft_grype: false,
                enable_open_scap: false,
                enable_secrets_scan: true,
                strict_secrets: false,
                fail_on_severity: None,
            })
            &&& cfg.testing == (TestingPolicy { bios: true, uefi: true, smoke: true })
        },
{
    proof {
        reveal_strlit("minimal");
        reveal_strlit("desktop");
        assert("minimal"@[0] != "desktop"@[0]);
    }
    let profile = if str_eq(req.profile.as_str(), "minimal") {
        ProfileKind::Minimal
    } else if str_eq(req.profile.as_str(), "desktop") {
        ProfileKind::Desktop
    } else {
        return Err(cat("unsupported profile: ", req.profile.as_str()));
    };
    let source = IsoSource::from_raw(req.source.as_str());
    Ok(
        BuildConfig {
            name: req.name,
            source,
            overlay_dir: nonblank(req.overlay_dir),
            output_label: nonblank(req.output_label),
            profile,
            auto_scan: false,
            auto_test: false,
            scanning: ScanPolicy::default(),
            testing: TestingPolicy::default(),
            keep_workdir: false,
        },
    )
}

/// The injection configuration of a request: blank optional text counts
/// as absent, the settings become pairs, a swap size asks for swap.
pub fn inject_config_of_request(req: InjectRequest) -> (cfg: InjectConfig)
    ensures
        cfg.source.raw_text() == req.source@,
        (cfg.source is Url) == crate::config::is_url_text(req.source@),
        cfg.out_name == req.out_name,
        cfg.output_label == kept(req.output_label),
        cfg.autoinstall_yaml == kept(req.autoinstall_yaml),
        cfg.hostname == kept(req.hostname),
        cfg.username == kept(req.username),
        cfg.password == kept(req.password),
        cfg.realname == kept(req.realname),
        cfg.ssh.authorized_keys == req.ssh_keys,
        cfg.ssh.allow_password_auth == (if req.ssh_password_auth {
            Some(true)
        } else {
            None
        }),
        cfg.ssh.install_server == (if req.ssh_install_server {
            Some(true)
        } else {
            None
        }),
        cfg.network.dns_servers == req.dns_servers,
        cfg.network.ntp_servers == req.ntp_servers,
        cfg.static_ip == kept(req.static_ip),
        cfg.gateway == kept(req.gateway),
        cfg.proxy.http_proxy == kept(req.http_proxy),
        cfg.proxy.https_proxy == kept(req.https_proxy),
        cfg.proxy.no_proxy == req.no_proxy,
        cfg.timezone == kept(req.timezone),
        cfg.locale == kept(req.locale),
        cfg.keyboard_layout == kept(req.keyboard_layout),
        cfg.storage_layout == kept(req.storage_layout),
        cfg.apt_mirror == kept(req.apt_mirror),
        cfg.extra_packages == req.packages,
        cfg.wallpaper == kept(req.wallpaper_path),
        cfg.extra_late_commands == req.extra_late_commands,
        cfg.no_user_interaction == req.no_user_interaction,
        cfg.user.groups == req.groups,
        cfg.user.shell == kept(req.shell),
        cfg.user.sudo_nopasswd == req.sudo_nopasswd,
        cfg.user.sudo_commands == req.sudo_commands,
        cfg.firewall.enabled == req.firewall_enabled,
        cfg.firewall.default_policy == kept(req.firewall_policy),
        cfg.firewall.allow_ports == req.allow_ports,
        cfg.firewall.deny_ports == req.deny_ports,
        cfg.enable_services == req.enable_services,
        cfg.disable_services == req.disable_services,
        pairs_view(cfg.sysctl@) == setting_pairs(strs(req.sysctl@)),
        match req.swap_size_mb {
            Some(mb) => cfg.swap matches Some(sw) && sw.size_mb == mb && sw.filename == kept(
                req.swap_file,
            ) && sw.swappiness == req.swappiness,
            None => cfg.swap is None,
        },
        cfg.apt_repos == req.apt_repos,
        cfg.containers.docker == req.docker,
        cfg.containers.podman == req.podman,
        cfg.containers.docker_users == req.docker_users,
        cfg.grub.timeout == req.grub_timeout,
        cfg.grub.cmdline_extra == req.grub_cmdline,
        cfg.grub.default_entry == kept(req.grub_default),
        cfg.encrypt == req.encrypt,
        cfg.encrypt_passphrase == kept(req.encrypt_passphrase),
        cfg.mounts == req.mounts,
        cfg.run_commands == req.run_commands,
        cfg.distro == requested_distro(crate::text::opt_view(req.distro)),
{
    let distro = request_distro(&req.distro);
    let sysctl = parse_sysctl_pairs(&req.sysctl);
    let swap = match req.swap_size_mb {
        Some(mb) => Some(
            SwapConfig { size_mb: mb, filename: nonblank(req.swap_file), swappiness: req.swappiness },
        ),
        None => None,
    };
    let source = IsoSource::from_raw(req.source.as_str());
    InjectConfig {
        source,
        autoinstall_yaml: nonblank(req.autoinstall_yaml),
        out_name: req.out_name,
        output_label: nonblank(req.output_label),
        hostname: nonblank(req.hostname),
        username: nonblank(req.username),
        password: nonblank(req.password),
        realname: nonblank(req.realname),
        ssh: SshConfig {
            authorized_keys: req.ssh_keys,
            allow_password_auth: if req.ssh_password_auth {
                Some(true)
            } else {
                None
            },
            install_server: if req.ssh_install_server {
                Some(true)
            } else {
                None
            },
        },
        network: NetworkConfig { dns_servers: req.dns_servers, ntp_servers: req.ntp_servers },
        timezone: nonblank(req.timezone),
        locale: nonblank(req.locale),
        keyboard_layout: nonblank(req.keyboard_layout),
        storage_layout: nonblank(req.storage_layout),
        apt_mirror: nonblank(req.apt_mirror),
        extra_packages: req.packages,
        wallpaper: nonblank(req.wallpaper_path),
        extra_late_commands: req.extra_late_commands,
        no_user_interaction: req.no_user_interaction,
        user: UserConfig {
            groups: req.groups,
            shell: nonblank(req.shell),
            sudo_nopasswd: req.sudo_nopasswd,
            sudo_commands: req.sudo_commands,
        },
        firewall: FirewallConfig {
            enabled: req.firewall_enabled,
            default_policy: nonblank(req.firewall_policy),
            allow_ports: req.allow_ports,
            deny_ports: req.deny_ports,
        },
        proxy: ProxyConfig {
            http_proxy: nonblank(req.http_proxy),
            https_proxy: nonblank(req.https_proxy),
            no_proxy: req.no_proxy,
        },
        static_ip: nonblank(req.static_ip),
        gateway: nonblank(req.gateway),
        enable_services: req.enable_services,
        disable_services: req.disable_services,
        sysctl,
        swap,
        apt_repos: req.apt_repos,
        containers: ContainerConfig {
            docker: req.docker,
            podman: req.podman,
            docker_users: req.docker_users,
        },
        grub: GrubConfig {
            timeout: req.grub_timeout,
            cmdline_extra: req.grub_cmdline,
            default_entry: nonblank(req.grub_default),
        },
        encrypt: req.encrypt,
        encrypt_passphrase: nonblank(req.encrypt_passphrase),
        mounts: req.mounts,
        run_commands: req.run_commands,
        distro,
    }
}

} // verus!

//! Build and inject configuration, with validation.

use vstd::prelude::*;
use crate::error::EngineError;
use crate::text::{cat, has_prefix, owned, starts_with, trim, trim_exec, utf8_len, utf8_len_exceeds};

verus! {

#[derive(Clone, Copy, Debug, PartialEq, Eq, Structural)]
pub enum Distro {
    Ubuntu,
    Mint,
    Fedora,
    Arch,
}

#[derive(Clone, Copy, Debug, PartialEq, Eq, Structural)]
pub enum ProfileKind {
    Minimal,
    Desktop,
}

#[derive(Clone, Copy, Debug, PartialEq, Eq, Structural)]
pub enum ToolStatus {
    Passed,
    Failed,
    Unavailable,
    Skipped,
}

/// Severity of a scan finding, lowest first.
#[derive(Clone, Copy, Debug, PartialEq, Eq, Structural)]
pub enum Severity {
    Low,
    Medium,
    High,
    Critical,
}

/// Where a source ISO comes from: a local path or an http(s) URL.
#[derive(Clone, Debug)]
pub enum IsoSource {
    Path(String),
    Url(String),
}

pub open spec fn is_url_text(raw: Seq<char>) -> bool {
    has_prefix(raw, "http://"@) || has_prefix(raw, "https://"@)
}

impl IsoSource {
    /// The text the source was given as.
    pub open spec fn raw_text(self) -> Seq<char> {
        match self {
            IsoSource::Path(p) => p@,
            IsoSource::Url(u) => u@,
        }
    }

    /// A source from user input: a URL when it starts with `http://` or
    /// `https://`, a path otherwise.
    pub fn from_raw(input: &str) -> (r: IsoSource)
        ensures
            r.raw_text() == input@,
            (r is Url) == is_url_text(input@),
    {
        if starts_with(input, "http://") || starts_with(input, "https://") {
            IsoSource::Url(input.to_owned())
        } else {
            IsoSource::Path(input.to_owned())
        }
    }

    /// The path or URL as text.
    pub fn display_value(&self) -> (r: String)
        ensures
            r@ == self.raw_text(),
    {
        match self {
            IsoSource::Path(p) => p.clone(),
            IsoSource::Url(u) => u.clone(),
        }
    }

    pub fn is_remote(&self) -> (b: bool)
        ensures
            b == (*self is Url),
    {
        match self {
            IsoSource::Url(_) => true,
            IsoSource::Path(_) => false,
        }
    }

    pub fn copy(&self) -> (r: IsoSource)
        ensures
            r == *self,
    {
        match self {
            IsoSource::Path(p) => IsoSource::Path(p.clone()),
            IsoSource::Url(u) => IsoSource::Url(u.clone()),
        }
    }
}

/// Which local security checks a scan runs.
#[derive(Clone, Debug)]
pub struct ScanPolicy {
    pub enable_sbom: bool,
    pub enable_trivy: bool,
    pub enable_syft_grype: bool,
    pub enable_open_scap: bool,
    pub enable_secrets_scan: bool,
    pub strict_secrets: bool,
    /// Fail the scan when a finding is at this severity or above.
    pub fail_on_severity: Option<Severity>,
}

impl Default for ScanPolicy {
    fn default() -> (r: Self)
        ensures
            r.enable_sbom,
            r.enable_trivy,
            !r.enable_syft_grype,
            !r.enable_open_scap,
            r.enable_secrets_scan,
            !r.strict_secrets,
            r.fail_on_severity is None,
    {
        ScanPolicy {
            enable_sbom: true,
            enable_trivy: true,
            enable_syft_grype: false,
            enable_open_scap: false,
            enable_secrets_scan: true,
            strict_secrets: false,
            fail_on_severity: None,
        }
    }
}

/// Which boot smoke tests run.
#[derive(Clone, Debug)]
pub struct TestingPolicy {
    pub bios: bool,
    pub uefi: bool,
    pub smoke: bool,
}

impl Default for TestingPolicy {
    fn default() -> (r: Self)
        ensures
            r.bios,
            r.uefi,
            r.smoke,
    {
        TestingPolicy { bios: true, uefi: true, smoke: true }
    }
}

/// The default of boolean settings that are on unless turned off.
pub fn default_true() -> (b: bool)
    ensures
        b,
{
    true
}

/// The profile of a build that names none.
pub fn default_profile() -> (p: ProfileKind)
    ensures
        p == ProfileKind::Minimal,
{
    ProfileKind::Minimal
}

/// A local remaster build.
#[derive(Clone, Debug)]
pub struct BuildConfig {
    pub name: String,
    pub source: IsoSource,
    pub overlay_dir: Option<String>,
    pub output_label: Option<String>,
    pub profile: ProfileKind,
    pub auto_scan: bool,
    pub auto_test: bool,
    pub scanning: ScanPolicy,
    pub testing: TestingPolicy,
    pub keep_workdir: bool,
}

/// What the file system says of a path.
#[derive(Clone, Copy, Debug, PartialEq, Eq, Structural)]
pub struct PathStatus {
    pub exists: bool,
    pub is_dir: bool,
}

/// The first rule a build configuration breaks, as its message; `None` when
/// the configuration is valid. `overlay` describes `overlay_dir` on disk.
pub open spec fn build_config_problem(cfg: BuildConfig, overlay: PathStatus) -> Option<Seq<char>> {
    if trim(cfg.name@).len() == 0 {
        Some("name cannot be empty"@)
    } else if cfg.source is Path && cfg.source.raw_text().len() == 0 {
        Some("source path cannot be empty"@)
    } else if cfg.source is Url && !is_url_text(cfg.source.raw_text()) {
        Some("source URL must start with http:// or https://"@)
    } else if cfg.overlay_dir is Some && !overlay.exists {
        Some("overlay_dir does not exist: "@ + cfg.overlay_dir.unwrap()@)
    } else if cfg.overlay_dir is Some && !overlay.is_dir {
        Some("overlay_dir must be a directory: "@ + cfg.overlay_dir.unwrap()@)
    } else if cfg.output_label is Some && trim(cfg.output_label.unwrap()@).len() == 0 {
        Some("output_label cannot be blank"@)
    } else if cfg.output_label is Some && utf8_len(cfg.output_label.unwrap()@) > 32 {
        Some("output_label must be 32 characters or fewer"@)
    } else if cfg.auto_test && !cfg.testing.smoke {
        Some("auto_test requires testing.smoke=true"@)
    } else {
        None
    }
}

impl BuildConfig {
    /// Checks the configuration; `overlay` is what the file system reports
    /// for `overlay_dir` (ignored when there is none).
    pub fn validate(&self, overlay: PathStatus) -> (r: Result<(), EngineError>)
        ensures
            match build_config_problem(*self, overlay) {
                None => r is Ok,
                Some(msg) => r matches Err(EngineError::InvalidConfig(m)) && m@ == msg,
            },
    {
        let name = trim_exec(self.name.as_str());
        if name.as_str().unicode_len() == 0 {
            return Err(EngineError::InvalidConfig(owned("name cannot be empty")));
        }
        match &self.source {
            IsoSource::Path(path) => {
                if path.as_str().unicode_len() == 0 {
                    return Err(EngineError::InvalidConfig(owned("source path cannot be empty")));
                }
            },
            IsoSource::Url(url) => {
                if !(starts_with(url.as_str(), "http://") || starts_with(url.as_str(), "https://")) {
                    return Err(
                        EngineError::InvalidConfig(
                            owned("source URL must start with http:// or https://"),
                        ),
                    );
                }
            },
        }
        if let Some(path) = &self.overlay_dir {
            if !overlay.exists {
                return Err(
                    EngineError::InvalidConfig(cat("overlay_dir does not exist: ", path.as_str())),
                );
            }
            if !overlay.is_dir {
                return Err(
                    EngineError::InvalidConfig(
                        cat("overlay_dir must be a directory: ", path.as_str()),
                    ),
                );
            }
        }
        if let Some(label) = &self.output_label {
            let t = trim_exec(label.as_str());
            if t.as_str().unicode_len() == 0 {
                return Err(EngineError::InvalidConfig(owned("output_label cannot be blank")));
            }
            if utf8_len_exceeds(label.as_str(), 32) {
                return Err(
                    EngineError::InvalidConfig(owned("output_label must be 32 characters or fewer")),
                );
            }
        }
        if self.auto_test && !self.testing.smoke {
            return Err(EngineError::InvalidConfig(owned("auto_test requires testing.smoke=true")));
        }
        Ok(())
    }
}

/// SSH settings of an unattended install.
#[derive(Clone, Debug)]
pub struct SshConfig {
    pub authorized_keys: Vec<String>,
    /// `None`: decided by the engine (false when keys are present).
    pub allow_password_auth: Option<bool>,
    /// `None`: true, the OpenSSH server is installed.
    pub install_server: Option<bool>,
}

#[derive(Clone, Debug)]
pub struct NetworkConfig {
    pub dns_servers: Vec<String>,
    pub ntp_servers: Vec<String>,
}

#[derive(Clone, Debug)]
pub struct UserConfig {
    pub groups: Vec<String>,
    pub shell: Option<String>,
    pub sudo_nopasswd: bool,
    pub sudo_commands: Vec<String>,
}

#[derive(Clone, Debug)]
pub struct FirewallConfig {
    pub enabled: bool,
    pub default_policy: Option<String>,
    pub allow_ports: Vec<String>,
    pub deny_ports: Vec<String>,
}

#[derive(Clone, Debug)]
pub struct ProxyConfig {
    pub http_proxy: Option<String>,
    pub https_proxy: Option<String>,
    pub no_proxy: Vec<String>,
}

#[derive(Clone, Debug)]
pub struct SwapConfig {
    pub size_mb: u32,
    pub filename: Option<String>,
    pub swappiness: Option<u8>,
}

#[derive(Clone, Debug)]
pub struct ContainerConfig {
    pub docker: bool,
    pub podman: bool,
    pub docker_users: Vec<String>,
}

#[derive(Clone, Debug)]
pub struct GrubConfig {
    pub timeout: Option<u32>,
    pub cmdline_extra: Vec<String>,
    pub default_entry: Option<String>,
}

impl Default for SshConfig {
    fn default() -> (r: Self)
        ensures
            r.authorized_keys@.len() == 0,
            r.allow_password_auth is None,
            r.install_server is None,
    {
        SshConfig { authorized_keys: Vec::new(), allow_password_auth: None, install_server: None }
    }
}

impl Default for NetworkConfig {
    fn default() -> (r: Self)
        ensures
            r.dns_servers@.len() == 0,
            r.ntp_servers@.len() == 0,
    {
        NetworkConfig { dns_servers: Vec::new(), ntp_servers: Vec::new() }
    }
}

impl Default for UserConfig {
    fn default() -> (r: Self)
        ensures
            r.groups@.len() == 0,
            r.shell is None,
            !r.sudo_nopasswd,
            r.sudo_commands@.len() == 0,
    {
        UserConfig { groups: Vec::new(), shell: None, sudo_nopasswd: false, sudo_commands: Vec::new() }
    }
}

impl Default for FirewallConfig {
    fn default() -> (r: Self)
        ensures
            !r.enabled,
            r.default_policy is None,
            r.allow_ports@.len() == 0,
            r.deny_ports@.len() == 0,
    {
        FirewallConfig {
            enabled: false,
            default_policy: None,
            allow_ports: Vec::new(),
            deny_ports: Vec::new(),
        }
    }
}

impl Default for ProxyConfig {
    fn default() -> (r: Self)
        ensures
            r.http_proxy is None,
            r.https_proxy is None,
            r.no_proxy@.len() == 0,
    {
        ProxyConfig { http_proxy: None, https_proxy: None, no_proxy: Vec::new() }
    }
}

impl Default for ContainerConfig {
    fn default() -> (r: Self)
        ensures
            !r.docker,
            !r.podman,
            r.docker_users@.len() == 0,
    {
        ContainerConfig { docker: false, podman: false, docker_users: Vec::new() }
    }
}

impl Default for GrubConfig {
    fn default() -> (r: Self)
        ensures
            r.timeout is None,
            r.cmdline_extra@.len() == 0,
            r.default_entry is None,
    {
        GrubConfig { timeout: None, cmdline_extra: Vec::new(), default_entry: None }
    }
}

/// Everything an autoinstall injection needs.
#[derive(Clone, Debug)]
pub struct InjectConfig {
    pub source: IsoSource,
    /// Existing user-data to merge into; when absent a document is generated.
    pub autoinstall_yaml: Option<String>,
    pub out_name: String,
    pub output_label: Option<String>,
    pub hostname: Option<String>,
    pub username: Option<String>,
    /// Plain text; hashed to SHA-512-crypt before it is written.
    pub password: Option<String>,
    pub realname: Option<String>,
    pub ssh: SshConfig,
    pub network: NetworkConfig,
    pub timezone: Option<String>,
    pub locale: Option<String>,
    pub keyboard_layout: Option<String>,
    pub storage_layout: Option<String>,
    pub apt_mirror: Option<String>,
    pub extra_packages: Vec<String>,
    pub wallpaper: Option<String>,
    pub extra_late_commands: Vec<String>,
    pub no_user_interaction: bool,
    pub user: UserConfig,
    pub firewall: FirewallConfig,
    pub proxy: ProxyConfig,
    pub static_ip: Option<String>,
    pub gateway: Option<String>,
    pub enable_services: Vec<String>,
    pub disable_services: Vec<String>,
    pub sysctl: Vec<(String, String)>,
    pub swap: Option<SwapConfig>,
    pub apt_repos: Vec<String>,
    pub containers: ContainerConfig,
    pub grub: GrubConfig,
    pub encrypt: bool,
    pub encrypt_passphrase: Option<String>,
    pub mounts: Vec<String>,
    pub run_commands: Vec<String>,
    pub distro: Option<Distro>,
}

} // verus!

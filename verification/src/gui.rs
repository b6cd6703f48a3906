//! The pipeline wizard's state: its stages and forms, how a form becomes a
//! configuration, and how worker results update the state.

use vstd::prelude::*;
use crate::config::{
    BuildConfig, ContainerConfig, Distro, FirewallConfig, GrubConfig, InjectConfig, IsoSource,
    NetworkConfig, ProfileKind, ProxyConfig, ScanPolicy, SshConfig, SwapConfig, TestingPolicy,
    UserConfig, is_url_text,
};
use crate::iso::IsoMetadata;
use crate::orchestrator::{BuildResult, DiffEntry, DoctorReport, IsoDiff, VerifyResult};
use crate::text::{
    cat, contains, contains_seq, lines_exec, lines_of, lowercase, opt_view, owned, parse_unsigned,
    parse_unsigned_exec, push_line, str_eq, strs, to_lowercase, trim, trim_exec, join, split_on,
    strip_cr, trimmed, lemma_trim, lemma_trim_fixed, lemma_split_segments, lemma_split_join, lemma_split_on_nonempty,
};

verus! {

// ---------------------------------------------------------------------------
// Stages
// ---------------------------------------------------------------------------

#[derive(Clone, Copy, Debug, PartialEq, Eq, Structural)]
pub enum Stage {
    Inject,
    Verify,
    Diff,
    Build,
    Completion,
}

pub open spec fn stage_number(s: Stage) -> nat {
    match s {
        Stage::Inject => 1,
        Stage::Verify => 2,
        Stage::Diff => 3,
        Stage::Build => 4,
        Stage::Completion => 5,
    }
}

impl Stage {
    /// The stages in wizard order.
    pub fn all() -> (r: Vec<Stage>)
        ensures
            r@ == seq![Stage::Inject, Stage::Verify, Stage::Diff, Stage::Build, Stage::Completion],
    {
        let mut r: Vec<Stage> = Vec::new();
        r.push(Stage::Inject);
        r.push(Stage::Verify);
        r.push(Stage::Diff);
        r.push(Stage::Build);
        r.push(Stage::Completion);
        assert(r@ =~= seq![Stage::Inject, Stage::Verify, Stage::Diff, Stage::Build, Stage::Completion]);
        r
    }

    pub fn label(&self) -> (r: &'static str)
        ensures
            r@ == match *self {
                Stage::Inject => "Inject"@,
                Stage::Verify => "Verify"@,
                Stage::Diff => "Diff"@,
                Stage::Build => "Build"@,
                Stage::Completion => "Complete"@,
            },
    {
        match self {
            Stage::Inject => "Inject",
            Stage::Verify => "Verify",
            Stage::Diff => "Diff",
            Stage::Build => "Build",
            Stage::Completion => "Complete",
        }
    }

    pub fn sublabel(&self) -> (r: &'static str)
        ensures
            r@ == match *self {
                Stage::Inject => "Autoinstall config"@,
                Stage::Verify => "SHA-256 integrity"@,
                Stage::Diff => "Compare ISOs"@,
                Stage::Build => "Fetch & package"@,
                Stage::Completion => "Artifacts ready"@,
            },
    {
        match self {
            Stage::Inject => "Autoinstall config",
            Stage::Verify => "SHA-256 integrity",
            Stage::Diff => "Compare ISOs",
            Stage::Build => "Fetch & package",
            Stage::Completion => "Artifacts ready",
        }
    }

    /// The stage's position in the wizard, from 1.
    pub fn step_num(&self) -> (r: usize)
        ensures
            r == stage_number(*self),
    {
        match self {
            Stage::Inject => 1,
            Stage::Verify => 2,
            Stage::Diff => 3,
            Stage::Build => 4,
            Stage::Completion => 5,
        }
    }
}

/// The stages are numbered 1 to 5 in wizard order, each number once.
pub proof fn law_stage_numbers()
    ensures
        forall|a: Stage, b: Stage| stage_number(a) == stage_number(b) ==> a == b,
        forall|a: Stage| 1 <= #[trigger] stage_number(a) <= 5,
{
}

// ---------------------------------------------------------------------------
// Forms
// ---------------------------------------------------------------------------

/// Which field a file picker fills.
#[derive(Clone, Copy, Debug, PartialEq, Eq, Structural)]
pub enum PickTarget {
    InjectSource,
    InjectOutputDir,
    InjectWallpaper,
    VerifySource,
    DiffBase,
    DiffTarget,
    BuildSource,
    BuildOutputDir,
    BuildOverlay,
}

/// The inject form; list fields hold one item per line.
#[derive(Clone, Debug)]
pub struct InjectState {
    pub source: String,
    pub output_dir: String,
    pub out_name: String,
    pub output_label: String,
    pub distro: String,
    pub hostname: String,
    pub username: String,
    pub password: String,
    pub realname: String,
    pub ssh_keys: String,
    pub ssh_password_auth: bool,
    pub ssh_install_server: bool,
    pub dns_servers: String,
    pub ntp_servers: String,
    pub static_ip: String,
    pub gateway: String,
    pub http_proxy: String,
    pub https_proxy: String,
    pub timezone: String,
    pub locale: String,
    pub keyboard_layout: String,
    pub storage_layout: String,
    pub apt_mirror: String,
    pub packages: String,
    pub apt_repos: String,
    pub run_commands: String,
    pub late_commands: String,
    pub firewall_enabled: bool,
    pub firewall_policy: String,
    pub allow_ports: String,
    pub deny_ports: String,
    pub docker: bool,
    pub podman: bool,
    pub swap_size_mb: String,
    pub no_user_interaction: bool,
    pub wallpaper_path: String,
}

/// The cache directory the forms default to: `$HOME/.cache/forgeiso`, or
/// `/tmp/forgeiso` without a home.
pub fn cache_dir(home: Option<&str>) -> (r: String)
    ensures
        r@ == match home {
            Some(h) => crate::workspace::path_join(
                crate::workspace::path_join(h@, ".cache"@),
                "forgeiso"@,
            ),
            None => "/tmp/forgeiso"@,
        },
{
    match home {
        Some(h) => {
            let c = crate::workspace::path_join_exec(h, ".cache");
            crate::workspace::path_join_exec(c.as_str(), "forgeiso")
        },
        None => owned("/tmp/forgeiso"),
    }
}

impl InjectState {
    /// An empty form writing to `output_dir`, named `forgeiso-local`, for
    /// Ubuntu, installing an SSH server.
    pub fn with_output_dir(output_dir: String) -> (r: InjectState)
        ensures
            r.output_dir == output_dir,
            r.out_name@ == "forgeiso-local"@,
            r.distro@ == "ubuntu"@,
            r.ssh_install_server,
            !r.ssh_password_auth && !r.firewall_enabled && !r.docker && !r.podman
                && !r.no_user_interaction,
            r.source@.len() == 0 && r.hostname@.len() == 0 && r.password@.len() == 0,
    {
        InjectState {
            source: String::new(),
            output_dir,
            out_name: owned("forgeiso-local"),
            output_label: String::new(),
            distro: owned("ubuntu"),
            hostname: String::new(),
            username: String::new(),
            password: String::new(),
            realname: String::new(),
            ssh_keys: String::new(),
            ssh_password_auth: false,
            ssh_install_server: true,
            dns_servers: String::new(),
            ntp_servers: String::new(),
            static_ip: String::new(),
            gateway: String::new(),
            http_proxy: String::new(),
            https_proxy: String::new(),
            timezone: String::new(),
            locale: String::new(),
            keyboard_layout: String::new(),
            storage_layout: String::new(),
            apt_mirror: String::new(),
            packages: String::new(),
            apt_repos: String::new(),
            run_commands: String::new(),
            late_commands: String::new(),
            firewall_enabled: false,
            firewall_policy: String::new(),
            allow_ports: String::new(),
            deny_ports: String::new(),
            docker: false,
            podman: false,
            swap_size_mb: String::new(),
            no_user_interaction: false,
            wallpaper_path: String::new(),
        }
    }
}

#[derive(Clone, Debug)]
pub struct VerifyState {
    pub source: String,
    pub sums_url: String,
}

#[derive(Clone, Debug)]
pub struct DiffState {
    pub base: String,
    pub target: String,
}

/// Which changes the diff view lists.
#[derive(Clone, Copy, Debug, PartialEq, Eq, Structural)]
pub enum DiffFilter {
    All,
    Added,
    Removed,
    Modified,
}

#[derive(Clone, Debug)]
pub struct BuildState {
    pub source: String,
    pub output_dir: String,
    pub build_name: String,
    pub overlay_dir: String,
    pub output_label: String,
    pub profile: String,
    pub distro: String,
}

impl Default for BuildState {
    fn default() -> (r: Self)
        ensures
            r.source@.len() == 0,
            r.output_dir@ == "./artifacts"@,
            r.build_name@ == "forgeiso-local"@,
            r.overlay_dir@.len() == 0,
            r.output_label@.len() == 0,
            r.profile@ == "minimal"@,
            r.distro@ == "ubuntu"@,
    {
        BuildState {
            source: String::new(),
            output_dir: owned("./artifacts"),
            build_name: owned("forgeiso-local"),
            overlay_dir: String::new(),
            output_label: String::new(),
            profile: owned("minimal"),
            distro: owned("ubuntu"),
        }
    }
}

#[derive(Clone, Copy, Debug, PartialEq, Eq, Structural)]
pub enum LogLevel {
    Info,
    Warn,
    Error,
}

#[derive(Clone, Debug)]
pub struct LogEntry {
    pub phase: String,
    pub message: String,
    pub level: LogLevel,
    pub timestamp: String,
}

/// The status line.
#[derive(Clone, Debug)]
pub struct StatusMsg {
    pub text: String,
    pub is_error: bool,
}

impl StatusMsg {
    pub fn ok(text: String) -> (r: StatusMsg)
        ensures
            r.text == text,
            !r.is_error,
    {
        StatusMsg { text, is_error: false }
    }

    pub fn err(text: String) -> (r: StatusMsg)
        ensures
            r.text == text,
            r.is_error,
    {
        StatusMsg { text, is_error: true }
    }
}

// ---------------------------------------------------------------------------
// From form to configuration
// ---------------------------------------------------------------------------

/// The trimmed, non-blank lines of a text area.
pub open spec fn nonblank_lines(l: Seq<Seq<char>>) -> Seq<Seq<char>>
    decreases l.len(),
{
    if l.len() == 0 {
        Seq::empty()
    } else if trim(l.last()).len() == 0 {
        nonblank_lines(l.drop_last())
    } else {
        nonblank_lines(l.drop_last()).push(trim(l.last()))
    }
}

pub open spec fn lines_spec(s: Seq<char>) -> Seq<Seq<char>> {
    nonblank_lines(lines_of(s))
}

/// A line as `lines` gives it: trimmed, not blank, without a newline.
pub open spec fn clean_line(x: Seq<char>) -> bool {
    trimmed(x) && !x.contains('\n')
}

proof fn lemma_lines_of_no_newline(s: Seq<char>)
    ensures
        forall|i: int| 0 <= i < lines_of(s).len() ==> !(#[trigger] lines_of(s)[i]).contains('\n'),
{
    let segs = split_on(s, '\n');
    lemma_split_segments(s, '\n');
    lemma_split_on_nonempty(s, '\n');
    let full = segs.drop_last();
    assert forall|i: int| 0 <= i < lines_of(s).len() implies !(#[trigger] lines_of(s)[i]).contains(
        '\n',
    ) by {
        if i < full.len() {
            let x = full[i];
            assert(x == segs[i]);
            assert(lines_of(s)[i] == strip_cr(x));
            if strip_cr(x).contains('\n') {
                let k = choose|k: int| 0 <= k < strip_cr(x).len() && strip_cr(x)[k] == '\n';
                assert(x[k] == '\n');
            }
        } else {
            assert(lines_of(s)[i] == segs[segs.len() - 1]);
        }
    }
}

proof fn lemma_nonblank_clean(l: Seq<Seq<char>>)
    requires
        forall|i: int| 0 <= i < l.len() ==> !(#[trigger] l[i]).contains('\n'),
    ensures
        forall|i: int| 0 <= i < nonblank_lines(l).len() ==> clean_line(#[trigger] nonblank_lines(l)[i]),
    decreases l.len(),
{
    if l.len() > 0 {
        let d = l.drop_last();
        assert forall|i: int| 0 <= i < d.len() implies !(#[trigger] d[i]).contains('\n') by {
            assert(d[i] == l[i]);
        }
        lemma_nonblank_clean(d);
        let y = l.last();
        let x = trim(y);
        lemma_trim(y);
        if x.len() > 0 {
            let (a, b) = choose|a: int, b: int| 0 <= a < b <= y.len() && x == y.subrange(a, b);
            if x.contains('\n') {
                let k = choose|k: int| 0 <= k < x.len() && x[k] == '\n';
                assert(y[a + k] == '\n');
                assert(l[l.len() - 1].contains('\n'));
            }
            assert forall|i: int| 0 <= i < nonblank_lines(l).len() implies clean_line(
                #[trigger] nonblank_lines(l)[i],
            ) by {
                if i < nonblank_lines(d).len() {
                    assert(nonblank_lines(l)[i] == nonblank_lines(d)[i]);
                }
            }
        }
    }
}

proof fn lemma_nonblank_keeps_clean(l: Seq<Seq<char>>)
    requires
        forall|i: int| 0 <= i < l.len() ==> trimmed(#[trigger] l[i]),
    ensures
        nonblank_lines(l) == l,
    decreases l.len(),
{
    if l.len() > 0 {
        let d = l.drop_last();
        assert forall|i: int| 0 <= i < d.len() implies trimmed(#[trigger] d[i]) by {
            assert(d[i] == l[i]);
        }
        lemma_nonblank_keeps_clean(d);
        let x = l.last();
        assert(trimmed(l[l.len() - 1]));
        lemma_trim_fixed(x);
        assert(d.push(x) =~= l);
    }
}

proof fn lemma_lines_of_join(l: Seq<Seq<char>>)
    requires
        forall|i: int| 0 <= i < l.len() ==> clean_line(#[trigger] l[i]),
    ensures
        lines_of(join(l, "\n"@)) == l,
{
    if l.len() == 0 {
        assert(lines_of(join(l, "\n"@)) =~= l);
    } else {
        assert forall|i: int| 0 <= i < l.len() implies !(#[trigger] l[i]).contains('\n') by {
            assert(clean_line(l[i]));
        }
        lemma_split_join(l);
        let segs = split_on(join(l, "\n"@), '\n');
        assert(clean_line(l[l.len() - 1]));
        let full = segs.drop_last();
        assert forall|i: int| 0 <= i < full.len() implies strip_cr(#[trigger] full[i]) == full[i] by {
            assert(full[i] == l[i]);
            assert(clean_line(l[i]));
        }
        assert(lines_of(join(l, "\n"@)) =~= l);
    }
}

/// `lines` gives trimmed, non-blank lines without newlines, in the order of
/// the text, and splitting its lines joined by newlines gives them back.
pub proof fn law_lines_idempotent(s: Seq<char>)
    ensures
        forall|i: int|
            0 <= i < lines_spec(s).len() ==> (#[trigger] lines_spec(s)[i]).len() > 0 && trim(
                lines_spec(s)[i],
            ) == lines_spec(s)[i] && !lines_spec(s)[i].contains('\n'),
        lines_spec(join(lines_spec(s), "\n"@)) == lines_spec(s),
{
    lemma_lines_of_no_newline(s);
    lemma_nonblank_clean(lines_of(s));
    let l = lines_spec(s);
    assert forall|i: int| 0 <= i < l.len() implies (#[trigger] l[i]).len() > 0 && trim(l[i]) == l[i]
        && !l[i].contains('\n') by {
        assert(clean_line(l[i]));
        lemma_trim(l[i]);
    }
    lemma_lines_of_join(l);
    assert forall|i: int| 0 <= i < l.len() implies trimmed(#[trigger] l[i]) by {
        assert(clean_line(l[i]));
    }
    lemma_nonblank_keeps_clean(l);
}

/// The trimmed text, when it is not blank.
pub open spec fn opt_spec(s: Seq<char>) -> Option<Seq<char>> {
    if trim(s).len() == 0 {
        None
    } else {
        Some(trim(s))
    }
}

/// Split a text area into its trimmed, non-blank lines.
pub fn lines(s: &str) -> (r: Vec<String>)
    ensures
        strs(r@) == lines_spec(s@),
{
    let ls = lines_exec(s);
    let ghost all = strs(ls@);
    let mut out: Vec<String> = Vec::new();
    let mut i: usize = 0;
    assert(strs(out@) =~= Seq::<Seq<char>>::empty());
    while i < ls.len()
        invariant
            i <= ls@.len(),
            all == strs(ls@),
            strs(out@) == nonblank_lines(all.take(i as int)),
        decreases ls.len() - i,
    {
        assert(all.take(i + 1).drop_last() =~= all.take(i as int));
        assert(all.take(i + 1).last() == ls@[i as int]@);
        let t = trim_exec(ls[i].as_str());
        if t.as_str().unicode_len() > 0 {
            push_line(&mut out, t);
        }
        i = i + 1;
    }
    assert(all.take(ls@.len() as int) =~= all);
    out
}

/// Blank text is no value.
pub fn opt(s: &str) -> (r: Option<String>)
    ensures
        opt_view(r) == opt_spec(s@),
{
    let t = trim_exec(s);
    if t.as_str().unicode_len() == 0 {
        None
    } else {
        Some(t)
    }
}

/// The distribution a form names; Ubuntu (and anything unknown) is the
/// default, `None`.
pub open spec fn form_distro(s: Seq<char>) -> Option<Distro> {
    if s == "fedora"@ {
        Some(Distro::Fedora)
    } else if s == "arch"@ {
        Some(Distro::Arch)
    } else if s == "mint"@ {
        Some(Distro::Mint)
    } else {
        None
    }
}

/// The swap size of a form: a positive number of MiB.
pub open spec fn form_swap(s: Seq<char>) -> Option<nat> {
    match parse_unsigned(trim(s), 0xffff_ffff) {
        Some(n) => if n > 0 {
            Some(n)
        } else {
            None
        },
        None => None,
    }
}

/// The inject configuration of a filled-in form.
pub fn build_inject_config(inject: &InjectState) -> (cfg: InjectConfig)
    ensures
        cfg.source.raw_text() == inject.source@,
        (cfg.source is Url) == is_url_text(inject.source@),
        cfg.out_name == inject.out_name,
        opt_view(cfg.output_label) == opt_spec(inject.output_label@),
        cfg.autoinstall_yaml is None,
        opt_view(cfg.hostname) == opt_spec(inject.hostname@),
        opt_view(cfg.username) == opt_spec(inject.username@),
        opt_view(cfg.password) == opt_spec(inject.password@),
        opt_view(cfg.realname) == opt_spec(inject.realname@),
        strs(cfg.ssh.authorized_keys@) == lines_spec(inject.ssh_keys@),
        cfg.ssh.allow_password_auth == (if inject.ssh_password_auth {
            Some(true)
        } else {
            None
        }),
        cfg.ssh.install_server == (if inject.ssh_install_server {
            Some(true)
        } else {
            None
        }),
        strs(cfg.network.dns_servers@) == lines_spec(inject.dns_servers@),
        strs(cfg.network.ntp_servers@) == lines_spec(inject.ntp_servers@),
        opt_view(cfg.static_ip) == opt_spec(inject.static_ip@),
        opt_view(cfg.gateway) == opt_spec(inject.gateway@),
        opt_view(cfg.proxy.http_proxy) == opt_spec(inject.http_proxy@),
        opt_view(cfg.proxy.https_proxy) == opt_spec(inject.https_proxy@),
        cfg.proxy.no_proxy@.len() == 0,
        opt_view(cfg.timezone) == opt_spec(inject.timezone@),
        opt_view(cfg.locale) == opt_spec(inject.locale@),
        opt_view(cfg.keyboard_layout) == opt_spec(inject.keyboard_layout@),
        opt_view(cfg.storage_layout) == opt_spec(inject.storage_layout@),
        opt_view(cfg.apt_mirror) == opt_spec(inject.apt_mirror@),
        strs(cfg.extra_packages@) == lines_spec(inject.packages@),
        opt_view(cfg.wallpaper) == opt_spec(inject.wallpaper_path@),
        strs(cfg.extra_late_commands@) == lines_spec(inject.late_commands@),
        cfg.no_user_interaction == inject.no_user_interaction,
        cfg.user.groups@.len() == 0 && cfg.user.shell is None && !cfg.user.sudo_nopasswd
            && cfg.user.sudo_commands@.len() == 0,
        cfg.firewall.enabled == inject.firewall_enabled,
        opt_view(cfg.firewall.default_policy) == opt_spec(inject.firewall_policy@),
        strs(cfg.firewall.allow_ports@) == lines_spec(inject.allow_ports@),
        strs(cfg.firewall.deny_ports@) == lines_spec(inject.deny_ports@),
        cfg.enable_services@.len() == 0 && cfg.disable_services@.len() == 0 && cfg.sysctl@.len()
            == 0,
        match form_swap(inject.swap_size_mb@) {
            Some(n) => cfg.swap matches Some(sw) && sw.size_mb == n && sw.filename is None
                && sw.swappiness is None,
            None => cfg.swap is None,
        },
        strs(cfg.apt_repos@) == lines_spec(inject.apt_repos@),
        cfg.containers.docker == inject.docker && cfg.containers.podman == inject.podman
            && cfg.containers.docker_users@.len() == 0,
        cfg.grub.timeout is None && cfg.grub.cmdline_extra@.len() == 0 && cfg.grub.default_entry is None,
        !cfg.encrypt && cfg.encrypt_passphrase is None,
        cfg.mounts@.len() == 0,
        strs(cfg.run_commands@) == lines_spec(inject.run_commands@),
        cfg.distro == form_distro(inject.distro@),
{
    let d = inject.distro.as_str();
    let distro = if str_eq(d, "fedora") {
        Some(Distro::Fedora)
    } else if str_eq(d, "arch") {
        Some(Distro::Arch)
    } else if str_eq(d, "mint") {
        Some(Distro::Mint)
    } else {
        None
    };
    let swap_text = trim_exec(inject.swap_size_mb.as_str());
    let swap = match parse_unsigned_exec(swap_text.as_str(), 0xffff_ffff) {
        Some(n) => if n > 0 {
            Some(SwapConfig { size_mb: n as u32, filename: None, swappiness: None })
        } else {
            None
        },
        None => None,
    };
    InjectConfig {
        source: IsoSource::from_raw(inject.source.as_str()),
        autoinstall_yaml: None,
        out_name: inject.out_name.clone(),
        output_label: opt(inject.output_label.as_str()),
        hostname: opt(inject.hostname.as_str()),
        username: opt(inject.username.as_str()),
        password: opt(inject.password.as_str()),
        realname: opt(inject.realname.as_str()),
        ssh: SshConfig {
            authorized_keys: lines(inject.ssh_keys.as_str()),
            allow_password_auth: if inject.ssh_password_auth {
                Some(true)
            } else {
                None
            },
            install_server: if inject.ssh_install_server {
                Some(true)
            } else {
                None
            },
        },
        network: NetworkConfig {
            dns_servers: lines(inject.dns_servers.as_str()),
            ntp_servers: lines(inject.ntp_servers.as_str()),
        },
        timezone: opt(inject.timezone.as_str()),
        locale: opt(inject.locale.as_str()),
        keyboard_layout: opt(inject.keyboard_layout.as_str()),
        storage_layout: opt(inject.storage_layout.as_str()),
        apt_mirror: opt(inject.apt_mirror.as_str()),
        extra_packages: lines(inject.packages.as_str()),
        wallpaper: opt(inject.wallpaper_path.as_str()),
        extra_late_commands: lines(inject.late_commands.as_str()),
        no_user_interaction: inject.no_user_interaction,
        user: UserConfig::default(),
        firewall: FirewallConfig {
            enabled: inject.firewall_enabled,
            default_policy: opt(inject.firewall_policy.as_str()),
            allow_ports: lines(inject.allow_ports.as_str()),
            deny_ports: lines(inject.deny_ports.as_str()),
        },
        proxy: ProxyConfig {
            http_proxy: opt(inject.http_proxy.as_str()),
            https_proxy: opt(inject.https_proxy.as_str()),
            no_proxy: Vec::new(),
        },
        static_ip: opt(inject.static_ip.as_str()),
        gateway: opt(inject.gateway.as_str()),
        enable_services: Vec::new(),
        disable_services: Vec::new(),
        sysctl: Vec::new(),
        swap,
        apt_repos: lines(inject.apt_repos.as_str()),
        containers: ContainerConfig { docker: inject.docker, podman: inject.podman, docker_users: Vec::new() },
        grub: GrubConfig::default(),
        encrypt: false,
        encrypt_passphrase: None,
        mounts: Vec::new(),
        run_commands: lines(inject.run_commands.as_str()),
        distro,
    }
}

/// The build configuration of the build form: `desktop` picks the desktop
/// profile, anything else the minimal one.
pub fn build_config_from(b: &BuildState) -> (cfg: BuildConfig)
    ensures
        cfg.name == b.build_name,
        cfg.source.raw_text() == b.source@,
        opt_view(cfg.overlay_dir) == opt_spec(b.overlay_dir@),
        opt_view(cfg.output_label) == opt_spec(b.output_label@),
        cfg.profile == (if b.profile@ == "desktop"@ {
            ProfileKind::Desktop
        } else {
            ProfileKind::Minimal
        }),
        !cfg.auto_scan && !cfg.auto_test && !cfg.keep_workdir,
{
    BuildConfig {
        name: b.build_name.clone(),
        source: IsoSource::from_raw(b.source.as_str()),
        overlay_dir: opt(b.overlay_dir.as_str()),
        output_label: opt(b.output_label.as_str()),
        profile: if str_eq(b.profile.as_str(), "desktop") {
            ProfileKind::Desktop
        } else {
            ProfileKind::Minimal
        },
        auto_scan: false,
        auto_test: false,
        scanning: ScanPolicy::default(),
        testing: TestingPolicy::default(),
        keep_workdir: false,
    }
}

// ---------------------------------------------------------------------------
// The wizard and its worker messages
// ---------------------------------------------------------------------------

/// What a background job reports back.
#[derive(Clone, Debug)]
pub enum WorkerMsg {
    EngineEvent { phase: String, message: String, is_error: bool, is_warn: bool },
    InjectOk(BuildResult),
    VerifyOk(VerifyResult),
    DiffOk(IsoDiff),
    BuildOk(BuildResult),
    InspectOk(IsoMetadata),
    DoctorOk(DoctorReport),
    ScanOk,
    TestOk,
    ReportOk(String),
    FilePicked { target: PickTarget, path: String },
    OpError(String),
    Done,
}

/// The status line a finished job sets.
pub open spec fn status_for(msg: WorkerMsg) -> Seq<char> {
    match msg {
        WorkerMsg::InjectOk(_) => "Inject complete"@,
        WorkerMsg::VerifyOk(r) => if r.matched {
            "Checksum matched"@
        } else {
            "Checksum MISMATCH"@
        },
        WorkerMsg::DiffOk(d) => "Diff complete \u{2014} "@ + crate::text::decimal(
            (d.added@.len() + d.removed@.len() + d.modified@.len()) as nat,
        ) + " changed files"@,
        WorkerMsg::BuildOk(r) => "Build complete: "@ + (if r.artifacts@.len() > 0 {
            r.artifacts@[0]@
        } else {
            Seq::<char>::empty()
        }),
        WorkerMsg::InspectOk(_) => "Inspection complete"@,
        WorkerMsg::DoctorOk(_) => "Doctor check complete"@,
        WorkerMsg::ScanOk => "Scan complete"@,
        WorkerMsg::TestOk => "Boot test complete"@,
        WorkerMsg::ReportOk(p) => "Report: "@ + p@,
        WorkerMsg::OpError(e) => e@,
        _ => Seq::empty(),
    }
}

/// A form field that an inject result fills when it is still empty.
pub open spec fn filled(old_value: String, new_value: String) -> String {
    if old_value@.len() == 0 {
        new_value
    } else {
        old_value
    }
}

/// The wizard: current stage, running job, forms, results and log.
#[derive(Clone, Debug)]
pub struct WizardState {
    pub active_stage: Stage,
    pub job_running: bool,
    pub job_phase: String,
    pub inject: InjectState,
    pub verify: VerifyState,
    pub diff: DiffState,
    pub build: BuildState,
    pub inject_result: Option<BuildResult>,
    pub verify_result: Option<VerifyResult>,
    pub diff_result: Option<IsoDiff>,
    pub build_result: Option<BuildResult>,
    pub inspect_result: Option<IsoMetadata>,
    pub doctor_result: Option<DoctorReport>,
    pub inject_done: bool,
    pub verify_done: bool,
    pub diff_done: bool,
    pub build_done: bool,
    pub log_entries: Vec<LogEntry>,
    pub status: Option<StatusMsg>,
    pub diff_filter: DiffFilter,
    pub diff_search: String,
}

impl WizardState {
    /// A fresh wizard over saved forms, at the inject stage.
    pub fn new(inject: InjectState, verify: VerifyState, diff: DiffState, build: BuildState) -> (r: WizardState)
        ensures
            r.active_stage == Stage::Inject,
            !r.job_running,
            !r.inject_done && !r.verify_done && !r.diff_done && !r.build_done,
            r.log_entries@.len() == 0,
            r.status is None,
            r.diff_filter == DiffFilter::All,
    {
        WizardState {
            active_stage: Stage::Inject,
            job_running: false,
            job_phase: String::new(),
            inject,
            verify,
            diff,
            build,
            inject_result: None,
            verify_result: None,
            diff_result: None,
            build_result: None,
            inspect_result: None,
            doctor_result: None,
            inject_done: false,
            verify_done: false,
            diff_done: false,
            build_done: false,
            log_entries: Vec::new(),
            status: None,
            diff_filter: DiffFilter::All,
            diff_search: String::new(),
        }
    }

    /// Whether a stage has been completed.
    pub fn stage_done(&self, stage: Stage) -> (b: bool)
        ensures
            b == match stage {
                Stage::Inject => self.inject_done,
                Stage::Verify => self.verify_done,
                Stage::Diff => self.diff_done,
                Stage::Build => self.build_done,
                Stage::Completion => false,
            },
    {
        match stage {
            Stage::Inject => self.inject_done,
            Stage::Verify => self.verify_done,
            Stage::Diff => self.diff_done,
            Stage::Build => self.build_done,
            Stage::Completion => false,
        }
    }

    /// Mark a job as started under `phase`.
    pub fn start_job(&mut self, phase: &str)
        ensures
            final(self).job_running,
            final(self).job_phase@ == phase@,
            final(self).status is None,
            final(self).log_entries == old(self).log_entries,
    {
        self.job_running = true;
        self.job_phase = owned(phase);
        self.status = None;
    }

    fn set_picked(&mut self, target: PickTarget, path: String)
        ensures
            final(self).job_running == old(self).job_running,
            final(self).log_entries == old(self).log_entries,
            final(self).status == old(self).status,
            target == PickTarget::InjectSource ==> final(self).inject.source == path,
            target == PickTarget::InjectOutputDir ==> final(self).inject.output_dir == path,
            target == PickTarget::InjectWallpaper ==> final(self).inject.wallpaper_path == path,
            target == PickTarget::VerifySource ==> final(self).verify.source == path,
            target == PickTarget::DiffBase ==> final(self).diff.base == path,
            target == PickTarget::DiffTarget ==> final(self).diff.target == path,
            target == PickTarget::BuildSource ==> final(self).build.source == path,
            target == PickTarget::BuildOutputDir ==> final(self).build.output_dir == path,
            target == PickTarget::BuildOverlay ==> final(self).build.overlay_dir == path,
    {
        match target {
            PickTarget::InjectSource => self.inject.source = path,
            PickTarget::InjectOutputDir => self.inject.output_dir = path,
            PickTarget::InjectWallpaper => self.inject.wallpaper_path = path,
            PickTarget::VerifySource => self.verify.source = path,
            PickTarget::DiffBase => self.diff.base = path,
            PickTarget::DiffTarget => self.diff.target = path,
            PickTarget::BuildSource => self.build.source = path,
            PickTarget::BuildOutputDir => self.build.output_dir = path,
            PickTarget::BuildOverlay => self.build.overlay_dir = path,
        }
    }

    /// Apply a worker message. `now` is the time stamp of a log entry.
    /// Returns whether the status line was set.
    pub fn handle_msg(&mut self, msg: WorkerMsg, now: &str) -> (status_set: bool)
        requires
            msg matches WorkerMsg::DiffOk(d) ==> d.added@.len() + d.removed@.len()
                + d.modified@.len() <= usize::MAX,
        ensures
            match msg {
                WorkerMsg::EngineEvent { phase, message, is_error, is_warn } => {
                    &&& final(self).job_phase == phase
                    &&& final(self).job_running == old(self).job_running
                    &&& final(self).log_entries@.len() == old(self).log_entries@.len() + 1
                    &&& final(self).log_entries@.last().phase == phase
                    &&& final(self).log_entries@.last().message == message
                    &&& final(self).log_entries@.last().timestamp@ == now@
                    &&& final(self).log_entries@.last().level == (if is_error {
                        LogLevel::Error
                    } else if is_warn {
                        LogLevel::Warn
                    } else {
                        LogLevel::Info
                    })
                    &&& final(self).status == old(self).status
                    &&& final(self).log_entries@ == old(self).log_entries@.push(
                        final(self).log_entries@.last(),
                    )
                    &&& *final(self) == (WizardState {
                        job_phase: phase,
                        log_entries: final(self).log_entries,
                        ..*old(self)
                    })
                    &&& !status_set
                },
                WorkerMsg::FilePicked { target, path } => {
                    &&& final(self).job_running == old(self).job_running
                    &&& final(self).log_entries == old(self).log_entries
                    &&& !status_set
                },
                WorkerMsg::Done => {
                    &&& *final(self) == (WizardState { job_running: false, ..*old(self) })
                    &&& !status_set
                },
                WorkerMsg::OpError(e) => {
                    &&& !final(self).job_running
                    &&& final(self).log_entries@.len() == old(self).log_entries@.len() + 1
                    &&& final(self).log_entries@.last().phase@ == "Error"@
                    &&& final(self).log_entries@.last().message == e
                    &&& final(self).log_entries@.last().level == LogLevel::Error
                    &&& final(self).status matches Some(st) && st.text == e && st.is_error
                    &&& final(self).log_entries@ == old(self).log_entries@.push(
                        final(self).log_entries@.last(),
                    )
                    &&& final(self).log_entries@.last().timestamp@ == now@
                    &&& *final(self) == (WizardState {
                        job_running: false,
                        log_entries: final(self).log_entries,
                        status: final(self).status,
                        ..*old(self)
                    })
                    &&& status_set
                },
                _ => {
                    &&& !final(self).job_running
                    &&& final(self).log_entries == old(self).log_entries
                    &&& final(self).status matches Some(st) && st.is_error == (msg matches WorkerMsg::VerifyOk(r) && !r.matched) && st.text@ == status_for(msg)
                    &&& status_set
                },
            },
            msg matches WorkerMsg::OpError(e) ==> final(self).status matches Some(st) && st.text@ == status_for(msg),
            msg matches WorkerMsg::InjectOk(r) ==> final(self).inject_result == Some(r) && (if r.artifacts@.len() > 0 {
                &&& final(self).verify.source == filled(old(self).verify.source, r.artifacts@[0])
                &&& final(self).diff.base == filled(old(self).diff.base, old(self).inject.source)
                &&& final(self).diff.target == filled(old(self).diff.target, r.artifacts@[0])
                &&& final(self).build.source == filled(old(self).build.source, r.artifacts@[0])
            } else {
                &&& final(self).verify == old(self).verify
                &&& final(self).diff == old(self).diff
                &&& final(self).build == old(self).build
            }),
            msg matches WorkerMsg::VerifyOk(r) ==> final(self).verify_result == Some(r),
            msg matches WorkerMsg::DiffOk(d) ==> final(self).diff_result == Some(d),
            msg matches WorkerMsg::BuildOk(r) ==> final(self).build_result == Some(r),
            msg matches WorkerMsg::InspectOk(m) ==> final(self).inspect_result == Some(m),
            msg matches WorkerMsg::DoctorOk(d) ==> final(self).doctor_result == Some(d),
            msg is InjectOk ==> final(self).inject_done && final(self).inject_result is Some,
            msg is VerifyOk ==> final(self).verify_done && final(self).verify_result is Some,
            msg is DiffOk ==> final(self).diff_done && final(self).diff_result is Some,
            msg is BuildOk ==> final(self).build_done && final(self).build_result is Some,
            msg matches WorkerMsg::FilePicked { target, path } ==> (target
                == PickTarget::InjectSource ==> final(self).inject.source == path) && (target
                == PickTarget::VerifySource ==> final(self).verify.source == path) && (target
                == PickTarget::DiffBase ==> final(self).diff.base == path) && (target
                == PickTarget::DiffTarget ==> final(self).diff.target == path) && (target
                == PickTarget::BuildSource ==> final(self).build.source == path),
    {
        match msg {
            WorkerMsg::EngineEvent { phase, message, is_error, is_warn } => {
                self.job_phase = phase.clone();
                let level = if is_error {
                    LogLevel::Error
                } else if is_warn {
                    LogLevel::Warn
                } else {
                    LogLevel::Info
                };
                self.log_entries.push(LogEntry { phase, message, level, timestamp: owned(now) });
                false
            },
            WorkerMsg::InjectOk(r) => {
                self.inject_done = true;
                if r.artifacts.len() > 0 {
                    let s = r.artifacts[0].clone();
                    if self.verify.source.as_str().unicode_len() == 0 {
                        self.verify.source = s.clone();
                    }
                    if self.diff.base.as_str().unicode_len() == 0 {
                        self.diff.base = self.inject.source.clone();
                    }
                    if self.diff.target.as_str().unicode_len() == 0 {
                        self.diff.target = s.clone();
                    }
                    if self.build.source.as_str().unicode_len() == 0 {
                        self.build.source = s;
                    }
                }
                self.inject_result = Some(r);
                self.job_running = false;
                self.status = Some(StatusMsg::ok(owned("Inject complete")));
                true
            },
            WorkerMsg::VerifyOk(r) => {
                let matched = r.matched;
                self.verify_result = Some(r);
                self.verify_done = true;
                self.job_running = false;
                if matched {
                    self.status = Some(StatusMsg::ok(owned("Checksum matched")));
                } else {
                    self.status = Some(StatusMsg::err(owned("Checksum MISMATCH")));
                }
                true
            },
            WorkerMsg::DiffOk(r) => {
                let total = r.added.len() + r.removed.len() + r.modified.len();
                let n = crate::text::decimal_string(total as u64);
                self.diff_result = Some(r);
                self.diff_done = true;
                self.job_running = false;
                let mut text = cat("Diff complete \u{2014} ", n.as_str());
                text.append(" changed files");
                self.status = Some(StatusMsg::ok(text));
                true
            },
            WorkerMsg::BuildOk(r) => {
                let path = if r.artifacts.len() > 0 {
                    r.artifacts[0].clone()
                } else {
                    String::new()
                };
                self.build_result = Some(r);
                self.build_done = true;
                self.job_running = false;
                self.status = Some(StatusMsg::ok(cat("Build complete: ", path.as_str())));
                true
            },
            WorkerMsg::InspectOk(m) => {
                self.inspect_result = Some(m);
                self.job_running = false;
                self.status = Some(StatusMsg::ok(owned("Inspection complete")));
                true
            },
            WorkerMsg::DoctorOk(r) => {
                self.doctor_result = Some(r);
                self.job_running = false;
                self.status = Some(StatusMsg::ok(owned("Doctor check complete")));
                true
            },
            WorkerMsg::ScanOk => {
                self.job_running = false;
                self.status = Some(StatusMsg::ok(owned("Scan complete")));
                true
            },
            WorkerMsg::TestOk => {
                self.job_running = false;
                self.status = Some(StatusMsg::ok(owned("Boot test complete")));
                true
            },
            WorkerMsg::ReportOk(path) => {
                self.job_running = false;
                self.status = Some(StatusMsg::ok(cat("Report: ", path.as_str())));
                true
            },
            WorkerMsg::FilePicked { target, path } => {
                self.set_picked(target, path);
                false
            },
            WorkerMsg::OpError(e) => {
                self.job_running = false;
                self.log_entries.push(
                    LogEntry {
                        phase: owned("Error"),
                        message: e.clone(),
                        level: LogLevel::Error,
                        timestamp: owned(now),
                    },
                );
                self.status = Some(StatusMsg::err(e));
                true
            },
            WorkerMsg::Done => {
                self.job_running = false;
                false
            },
        }
    }
}

// ---------------------------------------------------------------------------
// What the stages show
// ---------------------------------------------------------------------------

/// The inject, verify, diff, build and inspect buttons need their inputs
/// and no running job.
pub fn can_start(running: bool, inputs: &Vec<&str>) -> (b: bool)
    ensures
        b == (!running && forall|i: int| 0 <= i < inputs@.len() ==> trim(#[trigger] inputs@[i]@).len() > 0),
{
    if running {
        return false;
    }
    let mut i: usize = 0;
    while i < inputs.len()
        invariant
            i <= inputs@.len(),
            forall|k: int| 0 <= k < i ==> trim(#[trigger] inputs@[k]@).len() > 0,
        decreases inputs.len() - i,
    {
        let t = trim_exec(inputs[i]);
        if t.as_str().unicode_len() == 0 {
            return false;
        }
        i = i + 1;
    }
    true
}

/// A swap size that is filled in but not a number.
pub fn swap_size_invalid(text: &str) -> (b: bool)
    ensures
        b == (trim(text@).len() > 0 && parse_unsigned(trim(text@), 0xffff_ffff) is None),
{
    let t = trim_exec(text);
    t.as_str().unicode_len() > 0 && parse_unsigned_exec(t.as_str(), 0xffff_ffff).is_none()
}

/// One row of the diff view: its tag (`A`, `R` or `M`), path and, for a
/// modified file, its new size.
#[derive(Clone, Debug)]
pub struct DiffRow {
    pub tag: char,
    pub path: String,
    pub size: Option<u64>,
}

/// A path passes the search when the search is empty or the lower-cased
/// path contains it.
pub open spec fn passes_search(path: Seq<char>, search: Seq<char>) -> bool {
    search.len() == 0 || contains_seq(lowercase(path), search)
}

pub open spec fn rows_of(tag: char, paths: Seq<Seq<char>>, search: Seq<char>) -> Seq<(char, Seq<char>, Option<u64>)>
    decreases paths.len(),
{
    if paths.len() == 0 {
        Seq::empty()
    } else if passes_search(paths.last(), search) {
        rows_of(tag, paths.drop_last(), search).push((tag, paths.last(), None))
    } else {
        rows_of(tag, paths.drop_last(), search)
    }
}

pub open spec fn modified_rows(m: Seq<DiffEntry>, search: Seq<char>) -> Seq<(char, Seq<char>, Option<u64>)>
    decreases m.len(),
{
    if m.len() == 0 {
        Seq::empty()
    } else if passes_search(m.last().path@, search) {
        modified_rows(m.drop_last(), search).push(('M', m.last().path@, Some(m.last().target_size)))
    } else {
        modified_rows(m.drop_last(), search)
    }
}

/// The rows the diff view lists for a filter and a lower-cased search.
pub open spec fn diff_view_rows(d: IsoDiff, filter: DiffFilter, search: Seq<char>) -> Seq<(char, Seq<char>, Option<u64>)> {
    (if filter == DiffFilter::All || filter == DiffFilter::Added {
        rows_of('A', strs(d.added@), search)
    } else {
        Seq::empty()
    }) + (if filter == DiffFilter::All || filter == DiffFilter::Removed {
        rows_of('R', strs(d.removed@), search)
    } else {
        Seq::empty()
    }) + (if filter == DiffFilter::All || filter == DiffFilter::Modified {
        modified_rows(d.modified@, search)
    } else {
        Seq::empty()
    })
}

pub open spec fn rows_view(r: Seq<DiffRow>) -> Seq<(char, Seq<char>, Option<u64>)> {
    Seq::new(r.len(), |i: int| (r[i].tag, r[i].path@, r[i].size))
}

fn push_path_rows(out: &mut Vec<DiffRow>, tag: char, paths: &Vec<String>, search: &str)
    ensures
        rows_view(final(out)@) == rows_view(old(out)@) + rows_of(tag, strs(paths@), search@),
{
    let ghost start = rows_view(out@);
    let ghost pv = strs(paths@);
    let mut i: usize = 0;
    assert(pv.take(0) =~= Seq::<Seq<char>>::empty());
    assert(start + Seq::<(char, Seq<char>, Option<u64>)>::empty() =~= start);
    while i < paths.len()
        invariant
            i <= paths@.len(),
            pv == strs(paths@),
            rows_view(out@) == start + rows_of(tag, pv.take(i as int), search@),
        decreases paths.len() - i,
    {
        assert(pv.take(i + 1).drop_last() =~= pv.take(i as int));
        assert(pv.take(i + 1).last() == paths@[i as int]@);
        let ok = if search.unicode_len() == 0 {
            true
        } else {
            let lower = to_lowercase(paths[i].as_str());
            contains(lower.as_str(), search)
        };
        if ok {
            let ghost before = rows_view(out@);
            out.push(DiffRow { tag, path: paths[i].clone(), size: None });
            assert(rows_view(out@) =~= before.push((tag, paths@[i as int]@, None)));
        }
        i = i + 1;
    }
    assert(pv.take(paths@.len() as int) =~= pv);
}

fn push_modified_rows(out: &mut Vec<DiffRow>, m: &Vec<DiffEntry>, search: &str)
    ensures
        rows_view(final(out)@) == rows_view(old(out)@) + modified_rows(m@, search@),
{
    let ghost start = rows_view(out@);
    let mut i: usize = 0;
    assert(m@.take(0) =~= Seq::<DiffEntry>::empty());
    assert(start + Seq::<(char, Seq<char>, Option<u64>)>::empty() =~= start);
    while i < m.len()
        invariant
            i <= m@.len(),
            rows_view(out@) == start + modified_rows(m@.take(i as int), search@),
        decreases m.len() - i,
    {
        assert(m@.take(i + 1).drop_last() =~= m@.take(i as int));
        assert(m@.take(i + 1).last() == m@[i as int]);
        let ok = if search.unicode_len() == 0 {
            true
        } else {
            let lower = to_lowercase(m[i].path.as_str());
            contains(lower.as_str(), search)
        };
        if ok {
            let ghost before = rows_view(out@);
            out.push(DiffRow { tag: 'M', path: m[i].path.clone(), size: Some(m[i].target_size) });
            assert(rows_view(out@) =~= before.push(('M', m@[i as int].path@, Some(m@[i as int].target_size))));
        }
        i = i + 1;
    }
    assert(m@.take(m@.len() as int) =~= m@);
}

/// The rows of the diff view; `search` is already lower-cased.
pub fn diff_rows(d: &IsoDiff, filter: DiffFilter, search: &str) -> (r: Vec<DiffRow>)
    ensures
        rows_view(r@) == diff_view_rows(*d, filter, search@),
{
    let mut rows: Vec<DiffRow> = Vec::new();
    assert(rows_view(rows@) =~= Seq::<(char, Seq<char>, Option<u64>)>::empty());
    let ghost e = Seq::<(char, Seq<char>, Option<u64>)>::empty();
    if filter == DiffFilter::All || filter == DiffFilter::Added {
        push_path_rows(&mut rows, 'A', &d.added, search);
    }
    let ghost s1 = rows_view(rows@);
    assert(s1 =~= e + (if filter == DiffFilter::All || filter == DiffFilter::Added {
        rows_of('A', strs(d.added@), search@)
    } else {
        e
    }));
    if filter == DiffFilter::All || filter == DiffFilter::Removed {
        push_path_rows(&mut rows, 'R', &d.removed, search);
    }
    let ghost s2 = rows_view(rows@);
    assert(s2 =~= s1 + (if filter == DiffFilter::All || filter == DiffFilter::Removed {
        rows_of('R', strs(d.removed@), search@)
    } else {
        e
    }));
    if filter == DiffFilter::All || filter == DiffFilter::Modified {
        push_modified_rows(&mut rows, &d.modified, search);
    }
    assert(rows_view(rows@) =~= s2 + (if filter == DiffFilter::All || filter == DiffFilter::Modified {
        modified_rows(d.modified@, search@)
    } else {
        e
    }));
    rows
}

/// The artifacts of the inject and build results, in that order.
pub fn all_artifacts(inject: &Option<BuildResult>, build: &Option<BuildResult>) -> (r: Vec<String>)
    ensures
        strs(r@) == (match inject {
            Some(x) => strs(x.artifacts@),
            None => Seq::empty(),
        }) + (match build {
            Some(x) => strs(x.artifacts@),
            None => Seq::empty(),
        }),
{
    let mut out: Vec<String> = Vec::new();
    assert(strs(out@) =~= Seq::<Seq<char>>::empty());
    if let Some(x) = inject {
        crate::text::push_all(&mut out, &x.artifacts);
    }
    let ghost mid = strs(out@);
    if let Some(x) = build {
        crate::text::push_all(&mut out, &x.artifacts);
    }
    assert(strs(out@) =~= mid + (match build {
        Some(x) => strs(x.artifacts@),
        None => Seq::empty(),
    }));
    out
}

/// The verify stage passes when the checksum matched and the image is
/// ISO-9660 compliant.
pub fn can_proceed(verify: &Option<VerifyResult>, iso9660_compliant: Option<bool>) -> (b: bool)
    ensures
        b == ((verify matches Some(v) && v.matched) && iso9660_compliant == Some(true)),
{
    let matched = match verify {
        Some(v) => v.matched,
        None => false,
    };
    matched && match iso9660_compliant {
        Some(c) => c,
        None => false,
    }
}

// ---------------------------------------------------------------------------
// Labels and sizes
// ---------------------------------------------------------------------------

/// The name a distribution is shown under.
pub fn distro_label(d: &Distro) -> (r: String)
    ensures
        r@ == match *d {
            Distro::Ubuntu => "Ubuntu"@,
            Distro::Fedora => "Fedora"@,
            Distro::Arch => "Arch Linux"@,
            Distro::Mint => "Linux Mint"@,
        },
{
    match d {
        Distro::Ubuntu => owned("Ubuntu"),
        Distro::Fedora => owned("Fedora"),
        Distro::Arch => owned("Arch Linux"),
        Distro::Mint => owned("Linux Mint"),
    }
}

pub open spec fn pow2(k: nat) -> nat
    decreases k,
{
    if k == 0 {
        1
    } else {
        2 * pow2((k - 1) as nat)
    }
}

/// The number of binary digits of `n`.
pub open spec fn bit_len(n: nat) -> nat
    decreases n,
{
    if n == 0 {
        0
    } else {
        1 + bit_len(n / 2)
    }
}

/// `num / den` rounded to the nearest integer, a tie to the even one.
pub open spec fn round_half_even(num: nat, den: nat) -> nat
    recommends
        den > 0,
{
    let q = num / den;
    let r = num % den;
    if 2 * r < den {
        q
    } else if 2 * r > den {
        q + 1
    } else if q % 2 == 0 {
        q
    } else {
        q + 1
    }
}

/// The value of `n as f64`: `n` itself up to 53 binary digits, else `n`
/// rounded to 53 significant binary digits, a tie to the even one.
pub open spec fn f64_value(n: nat) -> nat {
    if bit_len(n) <= 53 {
        n
    } else {
        let s = (bit_len(n) - 53) as nat;
        round_half_even(n, pow2(s)) * pow2(s)
    }
}

/// `x / den` printed with one decimal, as `{:.1}` prints the exact value
/// (a tie goes to the even last digit).
pub open spec fn one_decimal(x: nat, den: nat) -> Seq<char> {
    let q = round_half_even(10 * x, den);
    crate::text::decimal(q / 10) + "."@ + crate::text::decimal(q % 10)
}

/// `x / den` printed with two decimals, as `{:.2}` prints the exact value.
pub open spec fn two_decimals(x: nat, den: nat) -> Seq<char> {
    let q = round_half_even(100 * x, den);
    let r = q % 100;
    crate::text::decimal(q / 100) + "."@ + seq![
        crate::text::digit_char(r / 10),
        crate::text::digit_char(r % 10),
    ]
}

/// A byte count for people: bytes below 1 KiB, then KB and MB with one
/// decimal, then GB with two, each of the binary (1024) kind.
pub open spec fn byte_size_text(n: nat) -> Seq<char> {
    if n < 1024 {
        crate::text::decimal(n) + " B"@
    } else if n < 1024 * 1024 {
        one_decimal(n, 1024) + " KB"@
    } else if n < 1024 * 1024 * 1024 {
        one_decimal(n, 1024 * 1024) + " MB"@
    } else {
        two_decimals(f64_value(n), 1024 * 1024 * 1024) + " GB"@
    }
}

fn round_half_even_exec(num: u128, den: u128) -> (r: u128)
    requires
        den > 0,
        num / den < u128::MAX,
    ensures
        r == round_half_even(num as nat, den as nat),
{
    let q = num / den;
    let rem = num % den;
    if rem < den - rem {
        q
    } else if rem > den - rem {
        q + 1
    } else if q % 2 == 0 {
        q
    } else {
        q + 1
    }
}

proof fn lemma_pow2_values()
    ensures
        pow2(53) == 0x20_0000_0000_0000,
        pow2(64) == 0x1_0000_0000_0000_0000,
{
    reveal_with_fuel(pow2, 65);
}

proof fn lemma_pow2_positive(k: nat)
    ensures
        pow2(k) >= 1,
    decreases k,
{
    if k > 0 {
        lemma_pow2_positive((k - 1) as nat);
    }
}

proof fn lemma_bit_len_bound(n: nat)
    ensures
        n < pow2(bit_len(n)),
        n > 0 ==> pow2((bit_len(n) - 1) as nat) <= n,
    decreases n,
{
    if n > 0 {
        lemma_bit_len_bound(n / 2);
        lemma_pow2_positive(bit_len(n / 2));
    }
}

proof fn lemma_pow2_monotone(a: nat, b: nat)
    requires
        a <= b,
    ensures
        pow2(a) <= pow2(b),
    decreases b,
{
    if a < b {
        lemma_pow2_monotone(a, (b - 1) as nat);
    }
}

fn bit_len_exec(n: u64) -> (r: u64)
    ensures
        r == bit_len(n as nat),
        r <= 64,
{
    proof {
        lemma_bit_len_bound(n as nat);
        lemma_pow2_values();
        if bit_len(n as nat) > 64 {
            lemma_pow2_monotone(64, (bit_len(n as nat) - 1) as nat);
        }
    }
    let mut m = n;
    let mut k: u64 = 0;
    while m > 0
        invariant
            bit_len(n as nat) == k + bit_len(m as nat),
            k + bit_len(m as nat) <= 64,
        decreases m,
    {
        k = k + 1;
        m = m / 2;
    }
    k
}

fn pow2_exec(k: u64) -> (r: u128)
    requires
        k <= 64,
    ensures
        r == pow2(k as nat),
{
    let mut p: u128 = 1;
    let mut i: u64 = 0;
    while i < k
        invariant
            i <= k,
            k <= 64,
            p == pow2(i as nat),
        decreases k - i,
    {
        proof {
            lemma_pow2_monotone((i + 1) as nat, 64);
            lemma_pow2_values();
        }
        p = p * 2;
        i = i + 1;
    }
    p
}

fn f64_value_exec(n: u64) -> (r: u128)
    ensures
        r == f64_value(n as nat),
        r <= 0x1_0000_0000_0000_0000,
{
    let len = bit_len_exec(n);
    if len <= 53 {
        n as u128
    } else {
        let s = len - 53;
        let p = pow2_exec(s);
        proof {
            lemma_pow2_positive(s as nat);
            lemma_bit_len_bound(n as nat);
            lemma_pow2_monotone(len as nat, 64);
            lemma_pow2_values();
            assert(pow2(len as nat) == pow2(s as nat) * pow2(53)) by {
                lemma_pow2_add(s as nat, 53);
            }
            assert((n as nat) / (p as nat) <= pow2(53)) by (nonlinear_arith)
                requires
                    (n as nat) < pow2(len as nat),
                    pow2(len as nat) == (p as nat) * pow2(53),
                    p as nat >= 1,
            ;
            lemma_pow2_values();
        }
        let q = round_half_even_exec(n as u128, p);
        proof {
            assert(q <= pow2(53) + 1);
            assert(q * p <= 0x1_0000_0000_0000_0000) by (nonlinear_arith)
                requires
                    q as nat == round_half_even(n as nat, p as nat),
                    (n as nat) < (p as nat) * 0x20_0000_0000_0000,
                    p as nat >= 1,
                    p as nat <= 0x800,
            {
                assert((n as nat) / (p as nat) < 0x20_0000_0000_0000);
            }
        }
        q * p
    }
}

proof fn lemma_pow2_add(a: nat, b: nat)
    ensures
        pow2(a + b) == pow2(a) * pow2(b),
    decreases a,
{
    if a > 0 {
        let a1 = (a - 1) as nat;
        lemma_pow2_add(a1, b);
        assert(a1 + b + 1 == a + b);
        assert(pow2(a + b) == 2 * pow2(a1 + b));
        assert(pow2(a) == 2 * pow2(a1));
        let x = pow2(a1);
        let y = pow2(b);
        assert(2 * (x * y) == (2 * x) * y) by (nonlinear_arith);
        assert(pow2(a + b) == pow2(a) * pow2(b));
    } else {
        assert(pow2(a) == 1);
        assert(a + b == b);
        let y = pow2(b);
        assert(1 * y == y) by (nonlinear_arith);
    }
}

fn one_decimal_exec(x: u128, den: u128) -> (r: String)
    requires
        den > 0,
        x < 0x1_0000_0000,
        den >= 1024,
    ensures
        r@ == one_decimal(x as nat, den as nat),
{
    let q = round_half_even_exec(10 * x, den);
    assert(q <= 10 * x + 1) by (nonlinear_arith)
        requires
            q as nat == round_half_even(10 * (x as nat), den as nat),
            den >= 1,
    {
        assert((10 * (x as nat)) / (den as nat) <= 10 * (x as nat));
    }
    let whole = crate::text::decimal_string((q / 10) as u64);
    let frac = crate::text::decimal_string((q % 10) as u64);
    crate::text::cat3(whole.as_str(), ".", frac.as_str())
}

fn two_decimals_exec(x: u128, den: u128) -> (r: String)
    requires
        den > 0,
        x <= 0x1_0000_0000_0000_0000,
        den >= 1024,
    ensures
        r@ == two_decimals(x as nat, den as nat),
{
    let q = round_half_even_exec(100 * x, den);
    assert(q <= 100 * x / 1024 + 1) by (nonlinear_arith)
        requires
            q as nat == round_half_even(100 * (x as nat), den as nat),
            den >= 1024,
    {
        assert((100 * (x as nat)) / (den as nat) <= (100 * (x as nat)) / 1024) by {
            vstd::arithmetic::div_mod::lemma_div_is_ordered_by_denominator(
                (100 * (x as nat)) as int,
                1024,
                den as int,
            );
        }
    }
    let r = q % 100;
    let whole = crate::text::decimal_string((q / 100) as u64);
    let mut out = crate::text::cat(whole.as_str(), ".");
    crate::text::string_push(&mut out, digit_char_exec((r / 10) as u8));
    crate::text::string_push(&mut out, digit_char_exec((r % 10) as u8));
    assert(out@ =~= two_decimals(x as nat, den as nat));
    out
}

fn digit_char_exec(d: u8) -> (c: char)
    requires
        d < 10,
    ensures
        c == crate::text::digit_char(d as nat),
{
    if d == 0 {
        '0'
    } else if d == 1 {
        '1'
    } else if d == 2 {
        '2'
    } else if d == 3 {
        '3'
    } else if d == 4 {
        '4'
    } else if d == 5 {
        '5'
    } else if d == 6 {
        '6'
    } else if d == 7 {
        '7'
    } else if d == 8 {
        '8'
    } else {
        '9'
    }
}

/// A byte count for people (`512 B`, `1.5 KB`, `700.0 MB`, `4.38 GB`).
pub fn fmt_bytes(n: u64) -> (r: String)
    ensures
        r@ == byte_size_text(n as nat),
{
    if n < 1024 {
        let d = crate::text::decimal_string(n);
        crate::text::cat(d.as_str(), " B")
    } else if n < 1024 * 1024 {
        let t = one_decimal_exec(n as u128, 1024);
        crate::text::cat(t.as_str(), " KB")
    } else if n < 1024 * 1024 * 1024 {
        let t = one_decimal_exec(n as u128, 1024 * 1024);
        crate::text::cat(t.as_str(), " MB")
    } else {
        let v = f64_value_exec(n);
        let t = two_decimals_exec(v, 1024 * 1024 * 1024);
        crate::text::cat(t.as_str(), " GB")
    }
}

} // verus!

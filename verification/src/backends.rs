//! Container build plans: the environment, mounts and scripts each
//! distribution's toolchain image runs with.

use vstd::prelude::*;
use crate::modules::{ModuleAction, actions_view};
use crate::config::Distro;
use crate::error::EngineError;
use crate::runtime::ContainerRunSpec;
use crate::text::{cat, cat3, join, join_strings, opt_view, owned, push_line, replace_all, replace_all_exec, strs};
use crate::workspace::{path_join, path_join_exec, Workspace};

verus! {

/// What a backend will run and produce.
#[derive(Clone, Debug)]
pub struct BackendPlan {
    pub backend_name: String,
    pub base_iso_url: Option<String>,
    pub base_iso_checksum: Option<String>,
    pub commands: Vec<ContainerRunSpec>,
    pub warnings: Vec<String>,
    pub produced_iso: String,
}

pub open spec fn pairs_view(v: Seq<(String, String)>) -> Seq<(Seq<char>, Seq<char>)> {
    Seq::new(v.len(), |i: int| (v[i].0@, v[i].1@))
}

/// The environment of toolchain containers, in key order.
pub fn default_env() -> (r: Vec<(String, String)>)
    ensures
        pairs_view(r@) == seq![("DEBIAN_FRONTEND"@, "noninteractive"@), ("LC_ALL"@, "C.UTF-8"@)],
{
    let mut env: Vec<(String, String)> = Vec::new();
    env.push((owned("DEBIAN_FRONTEND"), owned("noninteractive")));
    env.push((owned("LC_ALL"), owned("C.UTF-8")));
    assert(pairs_view(env@) =~= seq![
        ("DEBIAN_FRONTEND"@, "noninteractive"@),
        ("LC_ALL"@, "C.UTF-8"@),
    ]);
    env
}

/// The workspace root and its logs, mounted at `/workspace` and
/// `/workspace/logs`.
pub fn shared_mounts(workspace: &Workspace) -> (r: Vec<(String, String)>)
    ensures
        pairs_view(r@) == seq![
            (workspace.root@, "/workspace"@),
            (workspace.logs@, "/workspace/logs"@),
        ],
{
    let mut m: Vec<(String, String)> = Vec::new();
    m.push((workspace.root.clone(), owned("/workspace")));
    m.push((workspace.logs.clone(), owned("/workspace/logs")));
    assert(pairs_view(m@) =~= seq![
        (workspace.root@, "/workspace"@),
        (workspace.logs@, "/workspace/logs"@),
    ]);
    m
}

/// A container run of `command` under `bash -lc` in `image`, with the
/// default environment and mounts, working in `/workspace`, as the given
/// user, for at most four hours.
pub fn spec(image: &str, command: String, workspace: &Workspace, uid_gid: Option<(u32, u32)>) -> (r: ContainerRunSpec)
    ensures
        r.image@ == image@,
        strs(r.args@) == seq!["bash"@, "-lc"@, command@],
        pairs_view(r.env@) == seq![("DEBIAN_FRONTEND"@, "noninteractive"@), ("LC_ALL"@, "C.UTF-8"@)],
        pairs_view(r.mounts@) == seq![
            (workspace.root@, "/workspace"@),
            (workspace.logs@, "/workspace/logs"@),
        ],
        r.workdir matches Some(w) && w@ == "/workspace"@,
        r.uid_gid_map == uid_gid,
        r.timeout_seconds == 14_400,
{
    let mut args: Vec<String> = Vec::new();
    args.push(owned("bash"));
    args.push(owned("-lc"));
    let ghost c = command@;
    args.push(command);
    assert(strs(args@) =~= seq!["bash"@, "-lc"@, c]);
    ContainerRunSpec {
        image: owned(image),
        args,
        env: default_env(),
        mounts: shared_mounts(workspace),
        workdir: Some(owned("/workspace")),
        uid_gid_map: uid_gid,
        timeout_seconds: 14_400,
    }
}

/// `'` doubled, for text placed inside single quotes by `echo`.
pub fn shell_escape(input: &str) -> (r: String)
    ensures
        r@ == replace_all(input@, "'"@, "''"@),
{
    proof {
        reveal_strlit("'");
    }
    replace_all_exec(input, "'", "''")
}

/// Each action announced by an `echo`, then its snippets.
pub open spec fn snippet_lines(acts: Seq<(crate::modules::ModuleType, Seq<char>, Seq<Seq<char>>)>) -> Seq<Seq<char>>
    decreases acts.len(),
{
    if acts.len() == 0 {
        Seq::empty()
    } else {
        snippet_lines(acts.drop_last()) + seq![
            "echo '[module] "@ + replace_all(acts.last().1, "'"@, "''"@) + "'"@,
        ] + acts.last().2
    }
}

/// The module snippets of all actions as one `; `-separated script.
pub fn module_snippets(actions: &Vec<ModuleAction>) -> (r: String)
    ensures
        r@ == join(snippet_lines(actions_view(actions@)), "; "@),
{
    let ghost av = actions_view(actions@);
    let mut lines: Vec<String> = Vec::new();
    let mut i: usize = 0;
    assert(strs(lines@) =~= Seq::<Seq<char>>::empty());
    while i < actions.len()
        invariant
            i <= actions@.len(),
            av == actions_view(actions@),
            strs(lines@) == snippet_lines(av.take(i as int)),
        decreases actions.len() - i,
    {
        assert(av.take(i + 1).drop_last() =~= av.take(i as int));
        assert(av.take(i + 1).last() == av[i as int]);
        let esc = shell_escape(actions[i].description.as_str());
        push_line(&mut lines, cat3("echo '[module] ", esc.as_str(), "'"));
        crate::text::push_all(&mut lines, &actions[i].shell_snippets);
        i = i + 1;
    }
    assert(av.take(actions@.len() as int) =~= av);
    join_strings(&lines, "; ")
}

/// The archiso package list: the base system, and Steam and Lutris for a
/// gaming profile.
pub open spec fn package_lines(gaming: bool) -> Seq<Seq<char>> {
    seq!["base"@, "linux"@, "linux-firmware"@, "networkmanager"@, "openssh"@] + if gaming {
        seq!["steam"@, "lutris"@]
    } else {
        Seq::empty()
    }
}

pub fn render_packages(gaming: bool) -> (r: String)
    ensures
        r@ == join(package_lines(gaming), "\n"@),
{
    let mut lines: Vec<String> = Vec::new();
    lines.push(owned("base"));
    lines.push(owned("linux"));
    lines.push(owned("linux-firmware"));
    lines.push(owned("networkmanager"));
    lines.push(owned("openssh"));
    if gaming {
        lines.push(owned("steam"));
        lines.push(owned("lutris"));
    }
    assert(strs(lines@) =~= package_lines(gaming));
    join_strings(&lines, "\n")
}

/// Every snippet of every action followed by a newline.
pub open spec fn post_script(acts: Seq<(crate::modules::ModuleType, Seq<char>, Seq<Seq<char>>)>) -> Seq<char>
    decreases acts.len(),
{
    if acts.len() == 0 {
        Seq::empty()
    } else {
        post_script(acts.drop_last()) + lines_text(acts.last().2)
    }
}

/// Each line followed by a newline.
pub open spec fn lines_text(l: Seq<Seq<char>>) -> Seq<char>
    decreases l.len(),
{
    if l.len() == 0 {
        Seq::empty()
    } else {
        lines_text(l.drop_last()) + l.last() + "\n"@
    }
}

pub open spec fn kickstart_head() -> Seq<char> {
    "lang en_US.UTF-8\nkeyboard us\ntimezone UTC --utc\nrootpw --lock\nselinux --enforcing\nfirewall --enabled\nbootloader --timeout=1\nreboot\n\n%packages\n@core\n"@
}

/// The Fedora kickstart: fixed settings, the core packages (Steam and
/// Lutris for a gaming profile) and a post script of the module snippets.
pub open spec fn kickstart_text(gaming: bool, acts: Seq<(crate::modules::ModuleType, Seq<char>, Seq<Seq<char>>)>) -> Seq<char> {
    kickstart_head() + (if gaming {
        "steam\nlutris\n"@
    } else {
        Seq::empty()
    }) + "%end\n\n%post --erroronfail\n"@ + post_script(acts) + "%end\n"@
}

fn append_lines(out: &mut String, l: &Vec<String>)
    ensures
        final(out)@ == old(out)@ + lines_text(strs(l@)),
{
    let ghost start = out@;
    let ghost lv = strs(l@);
    let mut i: usize = 0;
    assert(lv.take(0) =~= Seq::<Seq<char>>::empty());
    assert(start + Seq::<char>::empty() =~= start);
    while i < l.len()
        invariant
            i <= l@.len(),
            lv == strs(l@),
            out@ == start + lines_text(lv.take(i as int)),
        decreases l.len() - i,
    {
        assert(lv.take(i + 1).drop_last() =~= lv.take(i as int));
        out.append(l[i].as_str());
        out.append("\n");
        assert(out@ =~= start + lines_text(lv.take(i + 1)));
        i = i + 1;
    }
    assert(lv.take(l@.len() as int) =~= lv);
}

pub fn render_kickstart(gaming: bool, actions: &Vec<ModuleAction>) -> (r: String)
    ensures
        r@ == kickstart_text(gaming, actions_view(actions@)),
{
    let mut content = String::new();
    content.append(
        "lang en_US.UTF-8\nkeyboard us\ntimezone UTC --utc\nrootpw --lock\nselinux --enforcing\nfirewall --enabled\nbootloader --timeout=1\nreboot\n\n%packages\n@core\n",
    );
    if gaming {
        content.append("steam\nlutris\n");
    }
    content.append("%end\n\n%post --erroronfail\n");
    let ghost head = content@;
    let ghost av = actions_view(actions@);
    let mut i: usize = 0;
    assert(av.take(0) =~= Seq::<(crate::modules::ModuleType, Seq<char>, Seq<Seq<char>>)>::empty());
    assert(head + Seq::<char>::empty() =~= head);
    while i < actions.len()
        invariant
            i <= actions@.len(),
            av == actions_view(actions@),
            content@ == head + post_script(av.take(i as int)),
        decreases actions.len() - i,
    {
        assert(av.take(i + 1).drop_last() =~= av.take(i as int));
        assert(av.take(i + 1).last() == av[i as int]);
        append_lines(&mut content, &actions[i].shell_snippets);
        assert(content@ =~= head + post_script(av.take(i + 1)));
        i = i + 1;
    }
    assert(av.take(actions@.len() as int) =~= av);
    content.append("%end\n");
    content
}

// ---------------------------------------------------------------------------
// Distribution build plans
// ---------------------------------------------------------------------------

/// The release a build targets: its version, and the base image it starts
/// from when there is one.
#[derive(Clone, Debug)]
pub struct ReleaseSpec {
    pub version: String,
    pub base_iso_url: Option<String>,
    pub base_iso_checksum: Option<String>,
}

/// What a backend plan is made from.
#[derive(Clone, Debug)]
pub struct PlanRequest {
    pub name: String,
    pub distro: Distro,
    pub release: ReleaseSpec,
    /// The gaming profile adds Steam and Lutris.
    pub gaming: bool,
}

/// A plan and what has to be on disk before its commands run: directories
/// to create and files to write (path, content), in order.
#[derive(Clone, Debug)]
pub struct PlannedBuild {
    pub plan: BackendPlan,
    pub dirs: Vec<String>,
    pub files: Vec<(String, String)>,
}

/// The base image URL of a release, which remastering backends require.
pub fn ensure_base_iso_url(release: &ReleaseSpec) -> (r: Result<String, EngineError>)
    ensures
        match release.base_iso_url {
            Some(u) => r matches Ok(x) && x@ == u@,
            None => r matches Err(EngineError::InvalidConfig(m)) && m@
                == "release.base_iso_url is required"@,
        },
{
    match &release.base_iso_url {
        Some(u) => Ok(u.clone()),
        None => Err(EngineError::InvalidConfig(owned("release.base_iso_url is required"))),
    }
}

/// `PathBuf::join`: an absolute name replaces the base.
pub open spec fn path_push(base: Seq<char>, name: Seq<char>) -> Seq<char> {
    if name.len() > 0 && name[0] == '/' {
        name
    } else {
        path_join(base, name)
    }
}

fn path_push_exec(base: &str, name: &str) -> (r: String)
    ensures
        r@ == path_push(base@, name@),
{
    if name.unicode_len() > 0 && name.get_char(0) == '/' {
        owned(name)
    } else {
        path_join_exec(base, name)
    }
}

/// Where a backend leaves its image: `<name>-<distro>-<version>.iso` in the
/// output directory.
pub open spec fn artifact_path(output: Seq<char>, name: Seq<char>, distro: Seq<char>, version: Seq<char>) -> Seq<char> {
    path_push(output, name + "-"@ + distro + "-"@ + version + ".iso"@)
}

fn artifact_path_exec(output: &str, name: &str, distro: &str, version: &str) -> (r: String)
    ensures
        r@ == artifact_path(output@, name@, distro@, version@),
{
    let mut file = cat3(name, "-", distro);
    file.append("-");
    file.append(version);
    file.append(".iso");
    path_push_exec(output, file.as_str())
}

/// The step that checks the downloaded base image against its checksum.
pub open spec fn checksum_step(sum: Option<String>) -> Seq<char> {
    match sum {
        Some(s) => "echo '"@ + s@
            + "  /workspace/input/base.iso' > /workspace/input/base.iso.sha256; sha256sum -c /workspace/input/base.iso.sha256"@,
        None => "echo 'checksum not provided; using pinned URL only'"@,
    }
}

/// The script that remasters an Ubuntu-based live image in the container:
/// download, (check), unpack, upgrade, run the modules, pack again.
pub open spec fn remaster_command(
    dir: Seq<char>,
    url: Seq<char>,
    check: Option<Seq<char>>,
    modules: Seq<char>,
    volume: Seq<char>,
    artifact: Seq<char>,
) -> Seq<char> {
    "set -euo pipefail; mkdir -p /workspace/input /workspace/work/"@ + dir + "/extract /workspace/work/"@
        + dir + "/rootfs /workspace/output; curl -L --fail '"@ + url
        + "' -o /workspace/input/base.iso; "@ + (match check {
        Some(c) => c + "; "@,
        None => Seq::empty(),
    }) + "xorriso -osirrox on -indev /workspace/input/base.iso -extract / /workspace/work/"@ + dir
        + "/extract; unsquashfs -f -d /workspace/work/"@ + dir + "/rootfs /workspace/work/"@ + dir
        + "/extract/casper/filesystem.squashfs; chroot /workspace/work/"@ + dir
        + "/rootfs apt-get update; chroot /workspace/work/"@ + dir
        + "/rootfs apt-get -y dist-upgrade; "@ + modules + "; mksquashfs /workspace/work/"@ + dir
        + "/rootfs /workspace/work/"@ + dir
        + "/extract/casper/filesystem.squashfs -comp xz -noappend; xorriso -as mkisofs -r -V '"@
        + volume + "' -o '"@ + artifact + "' -J -l /workspace/work/"@ + dir + "/extract; test -f '"@
        + artifact + "'"@
}

fn remaster_command_exec(
    dir: &str,
    url: &str,
    check: Option<&str>,
    modules: &str,
    volume: &str,
    artifact: &str,
) -> (r: String)
    ensures
        r@ == remaster_command(
            dir@,
            url@,
            match check {
                Some(c) => Some(c@),
                None => None,
            },
            modules@,
            volume@,
            artifact@,
        ),
{
    let mut c = String::new();
    c.append("set -euo pipefail; mkdir -p /workspace/input /workspace/work/");
    c.append(dir);
    c.append("/extract /workspace/work/");
    c.append(dir);
    c.append("/rootfs /workspace/output; curl -L --fail '");
    c.append(url);
    c.append("' -o /workspace/input/base.iso; ");
    match check {
        Some(step) => {
            c.append(step);
            c.append("; ");
        },
        None => {},
    }
    c.append("xorriso -osirrox on -indev /workspace/input/base.iso -extract / /workspace/work/");
    c.append(dir);
    c.append("/extract; unsquashfs -f -d /workspace/work/");
    c.append(dir);
    c.append("/rootfs /workspace/work/");
    c.append(dir);
    c.append("/extract/casper/filesystem.squashfs; chroot /workspace/work/");
    c.append(dir);
    c.append("/rootfs apt-get update; chroot /workspace/work/");
    c.append(dir);
    c.append("/rootfs apt-get -y dist-upgrade; ");
    c.append(modules);
    c.append("; mksquashfs /workspace/work/");
    c.append(dir);
    c.append("/rootfs /workspace/work/");
    c.append(dir);
    c.append("/extract/casper/filesystem.squashfs -comp xz -noappend; xorriso -as mkisofs -r -V '");
    c.append(volume);
    c.append("' -o '");
    c.append(artifact);
    c.append("' -J -l /workspace/work/");
    c.append(dir);
    c.append("/extract; test -f '");
    c.append(artifact);
    c.append("'");
    c
}

fn one_spec(s: ContainerRunSpec) -> (r: Vec<ContainerRunSpec>)
    ensures
        r@ == seq![s],
{
    let mut v: Vec<ContainerRunSpec> = Vec::new();
    v.push(s);
    v
}

fn one_text(s: &str) -> (r: Vec<String>)
    ensures
        strs(r@) == seq![s@],
{
    let mut v: Vec<String> = Vec::new();
    v.push(owned(s));
    assert(strs(v@) =~= seq![s@]);
    v
}

pub open spec fn files_view(f: Seq<(String, String)>) -> Seq<(Seq<char>, Seq<char>)> {
    Seq::new(f.len(), |i: int| (f[i].0@, f[i].1@))
}

/// The Ubuntu plan: remaster the LTS live image in the Ubuntu toolchain
/// container, checking the download when a checksum is pinned.
pub fn ubuntu_plan(
    req: &PlanRequest,
    workspace: &Workspace,
    actions: &Vec<ModuleAction>,
    uid_gid: Option<(u32, u32)>,
) -> (r: Result<BackendPlan, EngineError>)
    ensures
        req.release.base_iso_url is None ==> (r matches Err(EngineError::InvalidConfig(m)) && m@
            == "release.base_iso_url is required"@),
        req.release.base_iso_url matches Some(url) ==> (r matches Ok(p) && {
            let artifact = artifact_path(workspace.output@, req.name@, "ubuntu"@, req.release.version@);
            &&& p.backend_name@ == "ubuntu-lts-remaster"@
            &&& opt_view(p.base_iso_url) == Some(url@)
            &&& opt_view(p.base_iso_checksum) == opt_view(req.release.base_iso_checksum)
            &&& p.commands@.len() == 1
            &&& p.commands@[0].image@ == "ghcr.io/jalsarraf0/forgeiso-ubuntu-toolchain:latest"@
            &&& strs(p.commands@[0].args@) == seq![
                "bash"@,
                "-lc"@,
                remaster_command(
                    "ubuntu"@,
                    url@,
                    Some(checksum_step(req.release.base_iso_checksum)),
                    join(snippet_lines(actions_view(actions@)), "; "@),
                    "ForgeISO Ubuntu"@,
                    artifact,
                ),
            ]
            &&& p.commands@[0].uid_gid_map == uid_gid
            &&& p.commands@[0].timeout_seconds == 14_400
            &&& p.warnings@.len() == 0
            &&& p.produced_iso@ == artifact
        }),
{
    let url = ensure_base_iso_url(&req.release)?;
    let artifact = artifact_path_exec(workspace.output.as_str(), req.name.as_str(), "ubuntu", req.release.version.as_str());
    let check = match &req.release.base_iso_checksum {
        Some(sum) => cat3(
            "echo '",
            sum.as_str(),
            "  /workspace/input/base.iso' > /workspace/input/base.iso.sha256; sha256sum -c /workspace/input/base.iso.sha256",
        ),
        None => owned("echo 'checksum not provided; using pinned URL only'"),
    };
    let modules = module_snippets(actions);
    let command = remaster_command_exec("ubuntu", url.as_str(), Some(check.as_str()), modules.as_str(), "ForgeISO Ubuntu", artifact.as_str());
    let run = spec("ghcr.io/jalsarraf0/forgeiso-ubuntu-toolchain:latest", command, workspace, uid_gid);
    Ok(
        BackendPlan {
            backend_name: owned("ubuntu-lts-remaster"),
            base_iso_url: Some(url),
            base_iso_checksum: match &req.release.base_iso_checksum {
                Some(c) => Some(c.clone()),
                None => None,
            },
            commands: one_spec(run),
            warnings: Vec::new(),
            produced_iso: artifact,
        },
    )
}

/// The Mint plan: remaster the Mint live image like Ubuntu's, without a
/// checksum step.
pub fn mint_plan(
    req: &PlanRequest,
    workspace: &Workspace,
    actions: &Vec<ModuleAction>,
    uid_gid: Option<(u32, u32)>,
) -> (r: Result<BackendPlan, EngineError>)
    ensures
        req.release.base_iso_url is None ==> (r matches Err(EngineError::InvalidConfig(m)) && m@
            == "release.base_iso_url is required"@),
        req.release.base_iso_url matches Some(url) ==> (r matches Ok(p) && {
            let artifact = artifact_path(workspace.output@, req.name@, "mint"@, req.release.version@);
            &&& p.backend_name@ == "mint-lts-remaster"@
            &&& opt_view(p.base_iso_url) == Some(url@)
            &&& opt_view(p.base_iso_checksum) == opt_view(req.release.base_iso_checksum)
            &&& p.commands@.len() == 1
            &&& p.commands@[0].image@ == "ghcr.io/jalsarraf0/forgeiso-ubuntu-toolchain:latest"@
            &&& strs(p.commands@[0].args@) == seq![
                "bash"@,
                "-lc"@,
                remaster_command(
                    "mint"@,
                    url@,
                    None,
                    join(snippet_lines(actions_view(actions@)), "; "@),
                    "ForgeISO Mint"@,
                    artifact,
                ),
            ]
            &&& p.commands@[0].uid_gid_map == uid_gid
            &&& p.commands@[0].timeout_seconds == 14_400
            &&& p.warnings@.len() == 0
            &&& p.produced_iso@ == artifact
        }),
{
    let url = ensure_base_iso_url(&req.release)?;
    let artifact = artifact_path_exec(workspace.output.as_str(), req.name.as_str(), "mint", req.release.version.as_str());
    let modules = module_snippets(actions);
    let command = remaster_command_exec("mint", url.as_str(), None, modules.as_str(), "ForgeISO Mint", artifact.as_str());
    let run = spec("ghcr.io/jalsarraf0/forgeiso-ubuntu-toolchain:latest", command, workspace, uid_gid);
    Ok(
        BackendPlan {
            backend_name: owned("mint-lts-remaster"),
            base_iso_url: Some(url),
            base_iso_checksum: match &req.release.base_iso_checksum {
                Some(c) => Some(c.clone()),
                None => None,
            },
            commands: one_spec(run),
            warnings: Vec::new(),
            produced_iso: artifact,
        },
    )
}

pub open spec fn fedora_command(version: Seq<char>, artifact: Seq<char>) -> Seq<char> {
    "set -euo pipefail; mkdir -p /workspace/output /workspace/work/fedora; livemedia-creator --make-iso --project 'ForgeISO' --releasever '"@
        + version
        + "' --ks '/workspace/work/fedora.ks' --resultdir /workspace/work/fedora --no-virt; cp /workspace/work/fedora/*.iso '"@
        + artifact + "'"@
}

/// The Fedora plan: a kickstart in the work directory and a
/// `livemedia-creator` run in the Fedora toolchain container.
pub fn fedora_plan(
    req: &PlanRequest,
    workspace: &Workspace,
    actions: &Vec<ModuleAction>,
    uid_gid: Option<(u32, u32)>,
) -> (r: PlannedBuild)
    ensures
        ({
            let artifact = artifact_path(workspace.output@, req.name@, "fedora"@, req.release.version@);
            let p = r.plan;
            &&& p.backend_name@ == "fedora-livemedia"@
            &&& opt_view(p.base_iso_url) == opt_view(req.release.base_iso_url)
            &&& opt_view(p.base_iso_checksum) == opt_view(req.release.base_iso_checksum)
            &&& p.commands@.len() == 1
            &&& p.commands@[0].image@ == "ghcr.io/jalsarraf0/forgeiso-fedora-toolchain:latest"@
            &&& strs(p.commands@[0].args@) == seq![
                "bash"@,
                "-lc"@,
                fedora_command(req.release.version@, artifact),
            ]
            &&& p.commands@[0].uid_gid_map == uid_gid
            &&& p.commands@[0].timeout_seconds == 14_400
            &&& strs(p.warnings@) == seq![
                "Fedora has a short lifecycle and is not LTS; track EOL windows in production"@,
            ]
            &&& p.produced_iso@ == artifact
            &&& r.dirs@.len() == 0
            &&& files_view(r.files@) == seq![
                (
                    path_join(workspace.work@, "fedora.ks"@),
                    kickstart_text(req.gaming, actions_view(actions@)),
                ),
            ]
        }),
{
    let artifact = artifact_path_exec(workspace.output.as_str(), req.name.as_str(), "fedora", req.release.version.as_str());
    let mut command = cat3(
        "set -euo pipefail; mkdir -p /workspace/output /workspace/work/fedora; livemedia-creator --make-iso --project 'ForgeISO' --releasever '",
        req.release.version.as_str(),
        "' --ks '/workspace/work/fedora.ks' --resultdir /workspace/work/fedora --no-virt; cp /workspace/work/fedora/*.iso '",
    );
    command.append(artifact.as_str());
    command.append("'");
    let ks_path = path_join_exec(workspace.work.as_str(), "fedora.ks");
    let ks = render_kickstart(req.gaming, actions);
    let mut files: Vec<(String, String)> = Vec::new();
    files.push((ks_path, ks));
    assert(files_view(files@) =~= seq![
        (path_join(workspace.work@, "fedora.ks"@), kickstart_text(req.gaming, actions_view(actions@))),
    ]);
    let run = spec("ghcr.io/jalsarraf0/forgeiso-fedora-toolchain:latest", command, workspace, uid_gid);
    PlannedBuild {
        plan: BackendPlan {
            backend_name: owned("fedora-livemedia"),
            base_iso_url: match &req.release.base_iso_url {
                Some(u) => Some(u.clone()),
                None => None,
            },
            base_iso_checksum: match &req.release.base_iso_checksum {
                Some(c) => Some(c.clone()),
                None => None,
            },
            commands: one_spec(run),
            warnings: one_text("Fedora has a short lifecycle and is not LTS; track EOL windows in production"),
            produced_iso: artifact,
        },
        dirs: Vec::new(),
        files,
    }
}

pub open spec fn arch_command(artifact: Seq<char>) -> Seq<char> {
    "set -euo pipefail; chmod +x /workspace/work/archiso-profile/airootfs/root/forgeiso-post.sh; mkarchiso -v -w /workspace/work/arch-work -o /workspace/output /workspace/work/archiso-profile; cp /workspace/output/*.iso '"@
        + artifact + "'"@
}

/// The Arch plan: an archiso profile (package list and post script) in the
/// work directory and a `mkarchiso` run in the Arch toolchain container.
pub fn arch_plan(
    req: &PlanRequest,
    workspace: &Workspace,
    actions: &Vec<ModuleAction>,
    uid_gid: Option<(u32, u32)>,
) -> (r: PlannedBuild)
    ensures
        ({
            let artifact = artifact_path(workspace.output@, req.name@, "arch"@, req.release.version@);
            let profile = path_join(workspace.work@, "archiso-profile"@);
            let p = r.plan;
            &&& p.backend_name@ == "arch-archiso"@
            &&& opt_view(p.base_iso_url) == opt_view(req.release.base_iso_url)
            &&& opt_view(p.base_iso_checksum) == opt_view(req.release.base_iso_checksum)
            &&& p.commands@.len() == 1
            &&& p.commands@[0].image@ == "ghcr.io/jalsarraf0/forgeiso-arch-toolchain:latest"@
            &&& strs(p.commands@[0].args@) == seq!["bash"@, "-lc"@, arch_command(artifact)]
            &&& p.commands@[0].uid_gid_map == uid_gid
            &&& p.commands@[0].timeout_seconds == 14_400
            &&& strs(p.warnings@) == seq![
                "Arch is rolling release; snapshot reproducibility is best effort"@,
            ]
            &&& p.produced_iso@ == artifact
            &&& strs(r.dirs@) == seq![path_push(profile, "airootfs/etc/systemd/system"@)]
            &&& files_view(r.files@) == seq![
                (path_push(profile, "packages.x86_64"@), join(package_lines(req.gaming), "\n"@)),
                (
                    path_push(profile, "airootfs/root/forgeiso-post.sh"@),
                    "#!/usr/bin/env bash\nset -euo pipefail\n"@ + join(
                        snippet_lines(actions_view(actions@)),
                        "; "@,
                    ) + "\n"@,
                ),
            ]
        }),
{
    let artifact = artifact_path_exec(workspace.output.as_str(), req.name.as_str(), "arch", req.release.version.as_str());
    let profile = path_join_exec(workspace.work.as_str(), "archiso-profile");
    let mut dirs: Vec<String> = Vec::new();
    dirs.push(path_push_exec(profile.as_str(), "airootfs/etc/systemd/system"));
    assert(strs(dirs@) =~= seq![path_push(profile@, "airootfs/etc/systemd/system"@)]);
    let packages = render_packages(req.gaming);
    let modules = module_snippets(actions);
    let post = cat3("#!/usr/bin/env bash\nset -euo pipefail\n", modules.as_str(), "\n");
    let mut files: Vec<(String, String)> = Vec::new();
    files.push((path_push_exec(profile.as_str(), "packages.x86_64"), packages));
    files.push((path_push_exec(profile.as_str(), "airootfs/root/forgeiso-post.sh"), post));
    assert(files_view(files@) =~= seq![
        (path_push(profile@, "packages.x86_64"@), join(package_lines(req.gaming), "\n"@)),
        (
            path_push(profile@, "airootfs/root/forgeiso-post.sh"@),
            "#!/usr/bin/env bash\nset -euo pipefail\n"@ + join(snippet_lines(actions_view(actions@)), "; "@)
                + "\n"@,
        ),
    ]);
    let command = cat3(
        "set -euo pipefail; chmod +x /workspace/work/archiso-profile/airootfs/root/forgeiso-post.sh; mkarchiso -v -w /workspace/work/arch-work -o /workspace/output /workspace/work/archiso-profile; cp /workspace/output/*.iso '",
        artifact.as_str(),
        "'",
    );
    let run = spec("ghcr.io/jalsarraf0/forgeiso-arch-toolchain:latest", command, workspace, uid_gid);
    PlannedBuild {
        plan: BackendPlan {
            backend_name: owned("arch-archiso"),
            base_iso_url: match &req.release.base_iso_url {
                Some(u) => Some(u.clone()),
                None => None,
            },
            base_iso_checksum: match &req.release.base_iso_checksum {
                Some(c) => Some(c.clone()),
                None => None,
            },
            commands: one_spec(run),
            warnings: one_text("Arch is rolling release; snapshot reproducibility is best effort"),
            produced_iso: artifact,
        },
        dirs,
        files,
    }
}

/// The plan of the request's distribution, with nothing to prepare on disk
/// for the remastering backends.
pub fn plan_build(
    req: &PlanRequest,
    workspace: &Workspace,
    actions: &Vec<ModuleAction>,
    uid_gid: Option<(u32, u32)>,
) -> (r: Result<PlannedBuild, EngineError>)
    ensures
        (req.distro == Distro::Ubuntu || req.distro == Distro::Mint) ==> (r is Ok <==> req.release.base_iso_url is Some),
        req.distro == Distro::Fedora || req.distro == Distro::Arch ==> r is Ok,
        r matches Ok(pb) ==> (pb.plan.backend_name@ == match req.distro {
            Distro::Ubuntu => "ubuntu-lts-remaster"@,
            Distro::Mint => "mint-lts-remaster"@,
            Distro::Fedora => "fedora-livemedia"@,
            Distro::Arch => "arch-archiso"@,
        }),
        r matches Err(e) ==> e matches EngineError::InvalidConfig(m) && m@ == "release.base_iso_url is required"@,
{
    match req.distro {
        Distro::Ubuntu => {
            let p = ubuntu_plan(req, workspace, actions, uid_gid)?;
            Ok(PlannedBuild { plan: p, dirs: Vec::new(), files: Vec::new() })
        },
        Distro::Mint => {
            let p = mint_plan(req, workspace, actions, uid_gid)?;
            Ok(PlannedBuild { plan: p, dirs: Vec::new(), files: Vec::new() })
        },
        Distro::Fedora => Ok(fedora_plan(req, workspace, actions, uid_gid)),
        Distro::Arch => Ok(arch_plan(req, workspace, actions, uid_gid)),
    }
}

/// The remaster script runs the module script right after the system
/// upgrade and before the root file system is packed again: it holds the
/// upgrade step, the module script and the packing step, in that order and
/// next to each other.
pub proof fn law_remaster_runs_modules(
    dir: Seq<char>,
    url: Seq<char>,
    check: Option<Seq<char>>,
    modules: Seq<char>,
    volume: Seq<char>,
    artifact: Seq<char>,
)
    ensures
        exists|pre: Seq<char>, post: Seq<char>|
            remaster_command(dir, url, check, modules, volume, artifact) == pre
                + "/rootfs apt-get -y dist-upgrade; "@ + modules + "; mksquashfs /workspace/work/"@
                + post,
{
    let c = match check {
        Some(c) => c + "; "@,
        None => Seq::empty(),
    };
    let pre = "set -euo pipefail; mkdir -p /workspace/input /workspace/work/"@ + dir
        + "/extract /workspace/work/"@ + dir + "/rootfs /workspace/output; curl -L --fail '"@ + url
        + "' -o /workspace/input/base.iso; "@ + c
        + "xorriso -osirrox on -indev /workspace/input/base.iso -extract / /workspace/work/"@ + dir
        + "/extract; unsquashfs -f -d /workspace/work/"@ + dir + "/rootfs /workspace/work/"@ + dir
        + "/extract/casper/filesystem.squashfs; chroot /workspace/work/"@ + dir
        + "/rootfs apt-get update; chroot /workspace/work/"@ + dir;
    let post = dir + "/rootfs /workspace/work/"@ + dir
        + "/extract/casper/filesystem.squashfs -comp xz -noappend; xorriso -as mkisofs -r -V '"@
        + volume + "' -o '"@ + artifact + "' -J -l /workspace/work/"@ + dir + "/extract; test -f '"@
        + artifact + "'"@;
    assert(remaster_command(dir, url, check, modules, volume, artifact) =~= pre
        + "/rootfs apt-get -y dist-upgrade; "@ + modules + "; mksquashfs /workspace/work/"@ + post);
}

/// Every module action is announced by its `echo` banner and every one of
/// its snippets is a line of the module script.
pub proof fn law_snippets_cover_actions(
    acts: Seq<(crate::modules::ModuleType, Seq<char>, Seq<Seq<char>>)>,
    i: int,
    j: int,
)
    requires
        0 <= i < acts.len(),
    ensures
        snippet_lines(acts).contains(
            "echo '[module] "@ + replace_all(acts[i].1, "'"@, "''"@) + "'"@,
        ),
        0 <= j < acts[i].2.len() ==> snippet_lines(acts).contains(acts[i].2[j]),
    decreases acts.len(),
{
    let d = acts.drop_last();
    let banner = "echo '[module] "@ + replace_all(acts[i].1, "'"@, "''"@) + "'"@;
    let s = snippet_lines(acts);
    let sd = snippet_lines(d);
    if i < acts.len() - 1 {
        assert(acts[i] == d[i]);
        law_snippets_cover_actions(d, i, j);
        let k = choose|k: int| 0 <= k < sd.len() && sd[k] == banner;
        assert(s[k] == banner);
        if 0 <= j < acts[i].2.len() {
            let k2 = choose|k2: int| 0 <= k2 < sd.len() && sd[k2] == acts[i].2[j];
            assert(s[k2] == acts[i].2[j]);
        }
    } else {
        assert(s[sd.len() as int] == banner);
        if 0 <= j < acts[i].2.len() {
            assert(s[sd.len() + 1 + j] == acts[i].2[j]);
        }
    }
}

} // verus!

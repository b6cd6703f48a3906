//! Ubuntu autoinstall (cloud-init) payloads: the late-commands that realise
//! each feature, the generated document, and the merge into an existing one.

use vstd::prelude::*;
use crate::config::InjectConfig;
use crate::error::EngineError;
use crate::yaml::{
    Yaml, YamlEntry, YamlValue, as_list, as_mapping, as_str, find_key, find_key_exec, into_mapping,
    keys_distinct, lemma_minsert_distinct, lemma_minsert_get, lemma_mremove_get, lemma_wrap_tags,
    list_strings, list_strings_exec, map_get, map_insert, map_remove, mget,
    minsert, mremove, peel_tags, replace_untagged, string_items, untag, untagged, wrap_tags_exec,
    ylist_of_strs, yaml_entries_view, yaml_list_view, yv,
};
use crate::text::{
    opt_view, all_ascii, dedup_keep_first, dedup_keep_first_exec, law_dedup_keep_first, no_repeats, cat, contains, contains_seq, lines_exec, lines_of, cat3, sort_dedup, sort_dedup_exec, decimal, decimal_string, extension, extension_exec, file_name, file_name_exec,
    find_from, has_prefix, index_of_from, join, join_strings, owned, push_all, push_line,
    push_wrapped, starts_with, strs, wrap_each, ws_tokens, ws_tokens_exec,
};

verus! {

// ---------------------------------------------------------------------------
// Late-commands, section by section
// ---------------------------------------------------------------------------

/// The user the commands act on.
pub open spec fn user_name(cfg: InjectConfig) -> Seq<char> {
    match cfg.username {
        Some(u) => u@,
        None => "ubuntu"@,
    }
}

pub open spec fn ntp_cmds(cfg: InjectConfig) -> Seq<Seq<char>> {
    if cfg.network.ntp_servers@.len() == 0 {
        Seq::empty()
    } else {
        seq![
            "printf '[Time]\\nNTP="@ + join(strs(cfg.network.ntp_servers@), " "@)
                + "\\n' > /target/etc/systemd/timesyncd.conf"@,
            "chroot /target systemctl enable systemd-timesyncd"@,
        ]
    }
}

pub open spec fn wallpaper_cmds(cfg: InjectConfig) -> Seq<Seq<char>> {
    match cfg.wallpaper {
        None => Seq::empty(),
        Some(p) => match file_name(p@) {
            None => Seq::empty(),
            Some(f) => {
                let ext = match extension(p@) {
                    Some(e) => e,
                    None => "jpg"@,
                };
                seq![
                    "cp /cdrom/wallpaper/"@ + f + " /target/usr/share/backgrounds/forgeiso-wallpaper."@
                        + ext,
                    "mkdir -p /target/etc/dconf/db/local.d"@,
                    "printf '[org/gnome/desktop/background]\\npicture-uri=\"file:///usr/share/backgrounds/forgeiso-wallpaper.{}\\\"\\n' > /target/etc/dconf/db/local.d/00-forgeiso-background"@,
                    "chroot /target dconf update"@,
                ]
            },
        },
    }
}

pub open spec fn user_cmds(cfg: InjectConfig) -> Seq<Seq<char>> {
    let u = user_name(cfg);
    let groups = if cfg.user.groups@.len() == 0 {
        Seq::empty()
    } else {
        seq!["chroot /target usermod -aG "@ + join(strs(cfg.user.groups@), ","@) + " "@ + u]
    };
    let shell = match cfg.user.shell {
        Some(sh) => seq!["chroot /target chsh -s "@ + sh@ + " "@ + u],
        None => Seq::empty(),
    };
    let sudo = if cfg.user.sudo_nopasswd {
        seq![
            "echo '"@ + u + " ALL=(ALL) NOPASSWD:ALL' > /target/etc/sudoers.d/nopasswd-"@ + u,
            "chmod 440 /target/etc/sudoers.d/nopasswd-"@ + u,
        ]
    } else if cfg.user.sudo_commands@.len() > 0 {
        seq![
            "echo '"@ + u + " ALL=(ALL) NOPASSWD: "@ + join(strs(cfg.user.sudo_commands@), ", "@)
                + "' > /target/etc/sudoers.d/cmds-"@ + u,
            "chmod 440 /target/etc/sudoers.d/cmds-"@ + u,
        ]
    } else {
        Seq::empty()
    };
    groups + shell + sudo
}

pub open spec fn proxy_cmds(cfg: InjectConfig) -> Seq<Seq<char>> {
    if cfg.proxy.http_proxy is None && cfg.proxy.https_proxy is None {
        Seq::empty()
    } else {
        let http = match cfg.proxy.http_proxy {
            Some(hp) => seq![
                "echo 'http_proxy=\""@ + hp@ + "\"' >> /target/etc/environment"@,
                "printf 'Acquire::http::Proxy \""@ + hp@
                    + "\";\n' > /target/etc/apt/apt.conf.d/99proxy"@,
            ],
            None => Seq::empty(),
        };
        let https = match cfg.proxy.https_proxy {
            Some(sp) => seq![
                "echo 'https_proxy=\""@ + sp@ + "\"' >> /target/etc/environment"@,
                "printf 'Acquire::https::Proxy \""@ + sp@
                    + "\";\n' >> /target/etc/apt/apt.conf.d/99proxy"@,
            ],
            None => Seq::empty(),
        };
        let np = if cfg.proxy.no_proxy@.len() == 0 {
            Seq::empty()
        } else {
            seq![
                "echo 'no_proxy=\""@ + join(strs(cfg.proxy.no_proxy@), ","@)
                    + "\"' >> /target/etc/environment"@,
            ]
        };
        http + https + np
    }
}

pub open spec fn service_cmds(cfg: InjectConfig) -> Seq<Seq<char>> {
    wrap_each(strs(cfg.enable_services@), "chroot /target systemctl enable "@, ""@) + wrap_each(
        strs(cfg.disable_services@),
        "chroot /target systemctl disable "@,
        ""@,
    )
}

pub open spec fn sysctl_line(kv: (String, String)) -> Seq<char> {
    "echo '"@ + kv.0@ + "="@ + kv.1@ + "' >> /target/etc/sysctl.d/99-forgeiso.conf"@
}

pub open spec fn sysctl_cmds(cfg: InjectConfig) -> Seq<Seq<char>> {
    if cfg.sysctl@.len() == 0 {
        Seq::empty()
    } else {
        Seq::new(cfg.sysctl@.len(), |i: int| sysctl_line(cfg.sysctl@[i])).push(
            "chroot /target sysctl -p /etc/sysctl.d/99-forgeiso.conf"@,
        )
    }
}

pub open spec fn swap_cmds(cfg: InjectConfig) -> Seq<Seq<char>> {
    match cfg.swap {
        None => Seq::empty(),
        Some(sw) => {
            let f = match sw.filename {
                Some(n) => n@,
                None => "/swapfile"@,
            };
            let base = seq![
                "fallocate -l "@ + decimal(sw.size_mb as nat) + "M /target"@ + f,
                "chmod 600 /target"@ + f,
                "chroot /target mkswap "@ + f,
                "echo '"@ + f + " none swap defaults 0 0' >> /target/etc/fstab"@,
            ];
            match sw.swappiness {
                Some(s) => base.push(
                    "echo 'vm.swappiness="@ + decimal(s as nat)
                        + "' >> /target/etc/sysctl.d/99-swap.conf"@,
                ),
                None => base,
            }
        },
    }
}

pub open spec fn firewall_cmds(cfg: InjectConfig) -> Seq<Seq<char>> {
    if !cfg.firewall.enabled {
        Seq::empty()
    } else {
        let policy = match cfg.firewall.default_policy {
            Some(p) => seq!["chroot /target ufw default "@ + p@ + " incoming"@],
            None => Seq::empty(),
        };
        policy + wrap_each(strs(cfg.firewall.allow_ports@), "chroot /target ufw allow "@, ""@)
            + wrap_each(strs(cfg.firewall.deny_ports@), "chroot /target ufw deny "@, ""@)
            + seq!["chroot /target ufw --force enable"@, "chroot /target systemctl enable ufw"@]
    }
}

pub open spec fn apt_repo_line(r: Seq<char>) -> Seq<char> {
    if has_prefix(r, "ppa:"@) {
        "chroot /target add-apt-repository -y '"@ + r + "'"@
    } else {
        "echo '"@ + r + "' >> /target/etc/apt/sources.list.d/forgeiso-extra.list"@
    }
}

pub open spec fn apt_cmds(cfg: InjectConfig) -> Seq<Seq<char>> {
    let l = strs(cfg.apt_repos@);
    let lines = Seq::new(l.len(), |i: int| apt_repo_line(l[i]));
    if l.len() == 0 {
        lines
    } else {
        lines.push("chroot /target apt-get update"@)
    }
}

pub open spec fn docker_cmds(cfg: InjectConfig) -> Seq<Seq<char>> {
    if !cfg.containers.docker {
        Seq::empty()
    } else {
        seq![
            "install -m 0755 -d /target/etc/apt/keyrings"@,
            "curl -fsSL https://download.docker.com/linux/ubuntu/gpg | gpg --dearmor -o /target/etc/apt/keyrings/docker.gpg"@,
            "chmod a+r /target/etc/apt/keyrings/docker.gpg"@,
            "echo \"deb [arch=amd64 signed-by=/etc/apt/keyrings/docker.gpg] https://download.docker.com/linux/ubuntu $(. /etc/os-release && echo $VERSION_CODENAME) stable\" | chroot /target tee /etc/apt/sources.list.d/docker.list"@,
            "chroot /target apt-get update"@,
            "chroot /target apt-get install -y docker-ce docker-ce-cli containerd.io docker-buildx-plugin docker-compose-plugin"@,
            "chroot /target systemctl enable docker"@,
        ] + wrap_each(strs(cfg.containers.docker_users@), "chroot /target usermod -aG docker "@, ""@)
    }
}

pub open spec fn grub_cmds(cfg: InjectConfig) -> Seq<Seq<char>> {
    if cfg.grub.timeout is None && cfg.grub.cmdline_extra@.len() == 0
        && cfg.grub.default_entry is None {
        Seq::empty()
    } else {
        let t = match cfg.grub.timeout {
            Some(t) => seq![
                "sed -i 's/^GRUB_TIMEOUT=.*/GRUB_TIMEOUT="@ + decimal(t as nat)
                    + "/' /target/etc/default/grub"@,
            ],
            None => Seq::empty(),
        };
        let d = match cfg.grub.default_entry {
            Some(e) => seq![
                "sed -i 's/^GRUB_DEFAULT=.*/GRUB_DEFAULT="@ + e@ + "/' /target/etc/default/grub"@,
            ],
            None => Seq::empty(),
        };
        t + d + wrap_each(
            strs(cfg.grub.cmdline_extra@),
            "sed -i 's/\\(GRUB_CMDLINE_LINUX_DEFAULT=\".*\\)\"/\\1 "@,
            "\"/' /target/etc/default/grub"@,
        ) + seq!["chroot /target update-grub"@]
    }
}

/// The commands for one fstab line: create the mount point named by the
/// field after the first space (when there is one), then append the line.
pub open spec fn mount_entry_cmds(e: Seq<char>) -> Seq<Seq<char>> {
    let add = seq!["echo '"@ + e + "' >> /target/etc/fstab"@];
    match index_of_from(e, " "@, 0) {
        None => add,
        Some(i) => {
            let toks = ws_tokens(e.subrange(i + 1, e.len() as int));
            let mp = if toks.len() > 0 {
                toks[0]
            } else {
                "/mnt"@
            };
            seq!["mkdir -p /target"@ + mp] + add
        },
    }
}

pub open spec fn mounts_cmds(l: Seq<Seq<char>>) -> Seq<Seq<char>>
    decreases l.len(),
{
    if l.len() == 0 {
        Seq::empty()
    } else {
        mounts_cmds(l.drop_last()) + mount_entry_cmds(l.last())
    }
}

/// All feature late-commands, in their fixed order.
pub open spec fn feature_late_commands(cfg: InjectConfig) -> Seq<Seq<char>> {
    ntp_cmds(cfg) + wallpaper_cmds(cfg) + user_cmds(cfg) + proxy_cmds(cfg) + service_cmds(cfg)
        + sysctl_cmds(cfg) + swap_cmds(cfg) + firewall_cmds(cfg) + apt_cmds(cfg) + docker_cmds(
        cfg,
    ) + grub_cmds(cfg) + mounts_cmds(strs(cfg.mounts@)) + strs(cfg.run_commands@) + strs(
        cfg.extra_late_commands@,
    )
}

proof fn lemma_contains_left(a: Seq<Seq<char>>, b: Seq<Seq<char>>, x: Seq<char>)
    requires
        a.contains(x),
    ensures
        (a + b).contains(x),
{
    let k = choose|k: int| 0 <= k < a.len() && a[k] == x;
    assert((a + b)[k] == x);
}

proof fn lemma_contains_right(a: Seq<Seq<char>>, b: Seq<Seq<char>>, x: Seq<char>)
    requires
        b.contains(x),
    ensures
        (a + b).contains(x),
{
    let k = choose|k: int| 0 <= k < b.len() && b[k] == x;
    assert((a + b)[a.len() + k] == x);
}

/// A firewall command is among the late-commands.
proof fn lemma_firewall_in_late_commands(cfg: InjectConfig, x: Seq<char>)
    requires
        firewall_cmds(cfg).contains(x),
    ensures
        feature_late_commands(cfg).contains(x),
{
    let pre = ntp_cmds(cfg) + wallpaper_cmds(cfg) + user_cmds(cfg) + proxy_cmds(cfg) + service_cmds(
        cfg,
    ) + sysctl_cmds(cfg) + swap_cmds(cfg);
    lemma_contains_right(pre, firewall_cmds(cfg), x);
    let a = pre + firewall_cmds(cfg);
    lemma_contains_left(a, apt_cmds(cfg), x);
    let b = a + apt_cmds(cfg);
    lemma_contains_left(b, docker_cmds(cfg), x);
    let c = b + docker_cmds(cfg);
    lemma_contains_left(c, grub_cmds(cfg), x);
    let d = c + grub_cmds(cfg);
    lemma_contains_left(d, mounts_cmds(strs(cfg.mounts@)), x);
    let e = d + mounts_cmds(strs(cfg.mounts@));
    lemma_contains_left(e, strs(cfg.run_commands@), x);
    let f = e + strs(cfg.run_commands@);
    lemma_contains_left(f, strs(cfg.extra_late_commands@), x);
}

/// With the firewall on, every port to deny gets a `ufw deny` command and
/// every port to allow a `ufw allow` command among the late-commands; the
/// firewall commands open a port only when it is listed to allow, and an
/// off firewall gives no command.
pub proof fn law_firewall_ports(cfg: InjectConfig, p: Seq<char>)
    ensures
        cfg.firewall.enabled && strs(cfg.firewall.deny_ports@).contains(p)
            ==> feature_late_commands(cfg).contains("chroot /target ufw deny "@ + p),
        cfg.firewall.enabled && strs(cfg.firewall.allow_ports@).contains(p)
            ==> feature_late_commands(cfg).contains("chroot /target ufw allow "@ + p),
        firewall_cmds(cfg).contains("chroot /target ufw allow "@ + p) ==> strs(
            cfg.firewall.allow_ports@,
        ).contains(p),
        !cfg.firewall.enabled ==> firewall_cmds(cfg).len() == 0,
{
    reveal_strlit("");
    reveal_strlit("chroot /target ufw deny ");
    reveal_strlit("chroot /target ufw allow ");
    reveal_strlit("chroot /target ufw default ");
    reveal_strlit("chroot /target ufw --force enable");
    reveal_strlit("chroot /target systemctl enable ufw");
    reveal_strlit(" incoming");
    let deny = "chroot /target ufw deny "@;
    let allow = "chroot /target ufw allow "@;
    if cfg.firewall.enabled {
        let policy = match cfg.firewall.default_policy {
            Some(q) => seq!["chroot /target ufw default "@ + q@ + " incoming"@],
            None => Seq::<Seq<char>>::empty(),
        };
        let al = wrap_each(strs(cfg.firewall.allow_ports@), allow, ""@);
        let dl = wrap_each(strs(cfg.firewall.deny_ports@), deny, ""@);
        let tail = seq!["chroot /target ufw --force enable"@, "chroot /target systemctl enable ufw"@];
        assert(firewall_cmds(cfg) == policy + al + dl + tail);
        let l = strs(cfg.firewall.deny_ports@);
        if l.contains(p) {
            let k = choose|k: int| 0 <= k < l.len() && l[k] == p;
            assert(dl[k] =~= deny + p);
            assert(dl.contains(deny + p));
            lemma_contains_right(policy + al, dl, deny + p);
            lemma_contains_left(policy + al + dl, tail, deny + p);
            lemma_firewall_in_late_commands(cfg, deny + p);
        }
        let la = strs(cfg.firewall.allow_ports@);
        if la.contains(p) {
            let k = choose|k: int| 0 <= k < la.len() && la[k] == p;
            assert(al[k] =~= allow + p);
            lemma_contains_right(policy, al, allow + p);
            lemma_contains_left(policy + al, dl, allow + p);
            lemma_contains_left(policy + al + dl, tail, allow + p);
            lemma_firewall_in_late_commands(cfg, allow + p);
        }
        let all = firewall_cmds(cfg);
        let x = allow + p;
        if all.contains(x) {
            let k = choose|k: int| 0 <= k < all.len() && all[k] == x;
            assert(x[19] == 'a');
            if k < policy.len() {
                assert(all[k] == policy[k]);
                assert(policy[k][19] == 'd');
            } else if k < policy.len() + al.len() {
                let i = k - policy.len();
                assert(all[k] == al[i]);
                assert(al[i] == allow + la[i] + ""@);
                assert(allow + la[i] + ""@ =~= allow + la[i]);
                assert((allow + la[i]).subrange(allow.len() as int, (allow + la[i]).len() as int)
                    =~= la[i]);
                assert(x.subrange(allow.len() as int, x.len() as int) =~= p);
                assert(la[i] == p);
            } else if k < policy.len() + al.len() + dl.len() {
                let i = k - policy.len() - al.len();
                assert(all[k] == dl[i]);
                assert(dl[i][19] == 'd');
            } else {
                let i = k - policy.len() - al.len() - dl.len();
                assert(all[k] == tail[i]);
                assert(tail[i][19] == '-' || tail[i][15] == 's');
                assert(x[15] == 'u');
            }
        }
    }
}

// ---------------------------------------------------------------------------
// Executable sections
// ---------------------------------------------------------------------------

fn push_ntp(cfg: &InjectConfig, out: &mut Vec<String>)
    ensures
        strs(final(out)@) == strs(old(out)@) + ntp_cmds(*cfg),
{
    let ghost start = strs(out@);
    if cfg.network.ntp_servers.len() > 0 {
        let list = join_strings(&cfg.network.ntp_servers, " ");
        push_line(
            out,
            cat3(
                "printf '[Time]\\nNTP=",
                list.as_str(),
                "\\n' > /target/etc/systemd/timesyncd.conf",
            ),
        );
        push_line(out, owned("chroot /target systemctl enable systemd-timesyncd"));
        assert(strs(out@) =~= start + ntp_cmds(*cfg));
    } else {
        assert(strs(out@) =~= start + ntp_cmds(*cfg));
    }
}

fn push_wallpaper(cfg: &InjectConfig, out: &mut Vec<String>)
    ensures
        strs(final(out)@) == strs(old(out)@) + wallpaper_cmds(*cfg),
{
    let ghost start = strs(out@);
    if let Some(path) = &cfg.wallpaper {
        if let Some(fname) = file_name_exec(path.as_str()) {
            let ext = match extension_exec(path.as_str()) {
                Some(e) => e,
                None => owned("jpg"),
            };
            let mut cp = cat3(
                "cp /cdrom/wallpaper/",
                fname.as_str(),
                " /target/usr/share/backgrounds/forgeiso-wallpaper.",
            );
            cp.append(ext.as_str());
            push_line(out, cp);
            push_line(out, owned("mkdir -p /target/etc/dconf/db/local.d"));
            push_line(
                out,
                owned(
                    "printf '[org/gnome/desktop/background]\\npicture-uri=\"file:///usr/share/backgrounds/forgeiso-wallpaper.{}\\\"\\n' > /target/etc/dconf/db/local.d/00-forgeiso-background",
                ),
            );
            push_line(out, owned("chroot /target dconf update"));
            assert(strs(out@) =~= start + wallpaper_cmds(*cfg));
            return ;
        }
    }
    assert(strs(out@) =~= start + wallpaper_cmds(*cfg));
}

fn push_user(cfg: &InjectConfig, out: &mut Vec<String>)
    ensures
        strs(final(out)@) == strs(old(out)@) + user_cmds(*cfg),
{
    let ghost start = strs(out@);
    let uname = match &cfg.username {
        Some(u) => u.clone(),
        None => owned("ubuntu"),
    };
    let ghost u = user_name(*cfg);
    assert(uname@ == u);
    if cfg.user.groups.len() > 0 {
        let groups = join_strings(&cfg.user.groups, ",");
        let mut line = cat3("chroot /target usermod -aG ", groups.as_str(), " ");
        line.append(uname.as_str());
        push_line(out, line);
    }
    let ghost after_groups = strs(out@);
    if let Some(shell) = &cfg.user.shell {
        let mut line = cat3("chroot /target chsh -s ", shell.as_str(), " ");
        line.append(uname.as_str());
        push_line(out, line);
    }
    let ghost after_shell = strs(out@);
    if cfg.user.sudo_nopasswd {
        let mut l1 = cat3("echo '", uname.as_str(), " ALL=(ALL) NOPASSWD:ALL' > /target/etc/sudoers.d/nopasswd-");
        l1.append(uname.as_str());
        push_line(out, l1);
        push_line(out, cat("chmod 440 /target/etc/sudoers.d/nopasswd-", uname.as_str()));
    } else if cfg.user.sudo_commands.len() > 0 {
        let cmds = join_strings(&cfg.user.sudo_commands, ", ");
        let mut l1 = cat3("echo '", uname.as_str(), " ALL=(ALL) NOPASSWD: ");
        l1.append(cmds.as_str());
        l1.append("' > /target/etc/sudoers.d/cmds-");
        l1.append(uname.as_str());
        push_line(out, l1);
        push_line(out, cat("chmod 440 /target/etc/sudoers.d/cmds-", uname.as_str()));
    }
    assert(strs(out@) =~= start + user_cmds(*cfg));
}

fn push_proxy(cfg: &InjectConfig, out: &mut Vec<String>)
    ensures
        strs(final(out)@) == strs(old(out)@) + proxy_cmds(*cfg),
{
    let ghost start = strs(out@);
    if cfg.proxy.http_proxy.is_some() || cfg.proxy.https_proxy.is_some() {
        if let Some(hp) = &cfg.proxy.http_proxy {
            push_line(
                out,
                cat3("echo 'http_proxy=\"", hp.as_str(), "\"' >> /target/etc/environment"),
            );
            push_line(
                out,
                cat3(
                    "printf 'Acquire::http::Proxy \"",
                    hp.as_str(),
                    "\";\n' > /target/etc/apt/apt.conf.d/99proxy",
                ),
            );
        }
        let ghost mid = strs(out@);
        if let Some(sp) = &cfg.proxy.https_proxy {
            push_line(
                out,
                cat3("echo 'https_proxy=\"", sp.as_str(), "\"' >> /target/etc/environment"),
            );
            push_line(
                out,
                cat3(
                    "printf 'Acquire::https::Proxy \"",
                    sp.as_str(),
                    "\";\n' >> /target/etc/apt/apt.conf.d/99proxy",
                ),
            );
        }
        if cfg.proxy.no_proxy.len() > 0 {
            let np = join_strings(&cfg.proxy.no_proxy, ",");
            push_line(out, cat3("echo 'no_proxy=\"", np.as_str(), "\"' >> /target/etc/environment"));
        }
    }
    assert(strs(out@) =~= start + proxy_cmds(*cfg));
}

fn push_services(cfg: &InjectConfig, out: &mut Vec<String>)
    ensures
        strs(final(out)@) == strs(old(out)@) + service_cmds(*cfg),
{
    let ghost start = strs(out@);
    push_wrapped(out, &cfg.enable_services, "chroot /target systemctl enable ", "");
    push_wrapped(out, &cfg.disable_services, "chroot /target systemctl disable ", "");
    assert(strs(out@) =~= start + service_cmds(*cfg));
}

fn push_sysctl(cfg: &InjectConfig, out: &mut Vec<String>)
    ensures
        strs(final(out)@) == strs(old(out)@) + sysctl_cmds(*cfg),
{
    let ghost start = strs(out@);
    if cfg.sysctl.len() == 0 {
        assert(strs(out@) =~= start + sysctl_cmds(*cfg));
        return ;
    }
    let ghost lines = Seq::new(cfg.sysctl@.len(), |i: int| sysctl_line(cfg.sysctl@[i]));
    let mut i: usize = 0;
    while i < cfg.sysctl.len()
        invariant
            i <= cfg.sysctl@.len(),
            lines == Seq::new(cfg.sysctl@.len(), |k: int| sysctl_line(cfg.sysctl@[k])),
            strs(out@) == start + lines.take(i as int),
        decreases cfg.sysctl.len() - i,
    {
        let kv = &cfg.sysctl[i];
        let mut line = cat3("echo '", kv.0.as_str(), "=");
        line.append(kv.1.as_str());
        line.append("' >> /target/etc/sysctl.d/99-forgeiso.conf");
        push_line(out, line);
        assert(lines.take(i + 1) =~= lines.take(i as int).push(lines[i as int]));
        i = i + 1;
    }
    push_line(out, owned("chroot /target sysctl -p /etc/sysctl.d/99-forgeiso.conf"));
    assert(lines.take(cfg.sysctl@.len() as int) =~= lines);
    assert(strs(out@) =~= start + sysctl_cmds(*cfg));
}

fn push_swap(cfg: &InjectConfig, out: &mut Vec<String>)
    ensures
        strs(final(out)@) == strs(old(out)@) + swap_cmds(*cfg),
{
    let ghost start = strs(out@);
    if let Some(sw) = &cfg.swap {
        let fname = match &sw.filename {
            Some(n) => n.clone(),
            None => owned("/swapfile"),
        };
        let mb = decimal_string(sw.size_mb as u64);
        let mut l1 = cat3("fallocate -l ", mb.as_str(), "M /target");
        l1.append(fname.as_str());
        push_line(out, l1);
        push_line(out, cat("chmod 600 /target", fname.as_str()));
        push_line(out, cat("chroot /target mkswap ", fname.as_str()));
        push_line(out, cat3("echo '", fname.as_str(), " none swap defaults 0 0' >> /target/etc/fstab"));
        if let Some(s) = sw.swappiness {
            let d = decimal_string(s as u64);
            push_line(
                out,
                cat3("echo 'vm.swappiness=", d.as_str(), "' >> /target/etc/sysctl.d/99-swap.conf"),
            );
        }
    }
    assert(strs(out@) =~= start + swap_cmds(*cfg));
}

fn push_firewall(cfg: &InjectConfig, out: &mut Vec<String>)
    ensures
        strs(final(out)@) == strs(old(out)@) + firewall_cmds(*cfg),
{
    let ghost start = strs(out@);
    if cfg.firewall.enabled {
        if let Some(p) = &cfg.firewall.default_policy {
            push_line(out, cat3("chroot /target ufw default ", p.as_str(), " incoming"));
        }
        let ghost a = strs(out@);
        push_wrapped(out, &cfg.firewall.allow_ports, "chroot /target ufw allow ", "");
        let ghost b = strs(out@);
        push_wrapped(out, &cfg.firewall.deny_ports, "chroot /target ufw deny ", "");
        let ghost c = strs(out@);
        push_line(out, owned("chroot /target ufw --force enable"));
        push_line(out, owned("chroot /target systemctl enable ufw"));
    }
    assert(strs(out@) =~= start + firewall_cmds(*cfg));
}

fn push_apt(cfg: &InjectConfig, out: &mut Vec<String>)
    ensures
        strs(final(out)@) == strs(old(out)@) + apt_cmds(*cfg),
{
    let ghost start = strs(out@);
    let ghost l = strs(cfg.apt_repos@);
    let ghost lines = Seq::new(l.len(), |k: int| apt_repo_line(l[k]));
    let mut i: usize = 0;
    while i < cfg.apt_repos.len()
        invariant
            i <= cfg.apt_repos@.len(),
            l == strs(cfg.apt_repos@),
            lines == Seq::new(l.len(), |k: int| apt_repo_line(l[k])),
            strs(out@) == start + lines.take(i as int),
        decreases cfg.apt_repos.len() - i,
    {
        let r = cfg.apt_repos[i].as_str();
        let line = if starts_with(r, "ppa:") {
            cat3("chroot /target add-apt-repository -y '", r, "'")
        } else {
            cat3("echo '", r, "' >> /target/etc/apt/sources.list.d/forgeiso-extra.list")
        };
        push_line(out, line);
        assert(lines.take(i + 1) =~= lines.take(i as int).push(lines[i as int]));
        i = i + 1;
    }
    assert(lines.take(l.len() as int) =~= lines);
    if cfg.apt_repos.len() > 0 {
        push_line(out, owned("chroot /target apt-get update"));
    }
    assert(strs(out@) =~= start + apt_cmds(*cfg));
}

fn push_docker(cfg: &InjectConfig, out: &mut Vec<String>)
    ensures
        strs(final(out)@) == strs(old(out)@) + docker_cmds(*cfg),
{
    let ghost start = strs(out@);
    if cfg.containers.docker {
        push_line(out, owned("install -m 0755 -d /target/etc/apt/keyrings"));
        push_line(
            out,
            owned(
                "curl -fsSL https://download.docker.com/linux/ubuntu/gpg | gpg --dearmor -o /target/etc/apt/keyrings/docker.gpg",
            ),
        );
        push_line(out, owned("chmod a+r /target/etc/apt/keyrings/docker.gpg"));
        push_line(
            out,
            owned(
                "echo \"deb [arch=amd64 signed-by=/etc/apt/keyrings/docker.gpg] https://download.docker.com/linux/ubuntu $(. /etc/os-release && echo $VERSION_CODENAME) stable\" | chroot /target tee /etc/apt/sources.list.d/docker.list",
            ),
        );
        push_line(out, owned("chroot /target apt-get update"));
        push_line(
            out,
            owned(
                "chroot /target apt-get install -y docker-ce docker-ce-cli containerd.io docker-buildx-plugin docker-compose-plugin",
            ),
        );
        push_line(out, owned("chroot /target systemctl enable docker"));
        let ghost mid = strs(out@);
        push_wrapped(out, &cfg.containers.docker_users, "chroot /target usermod -aG docker ", "");
    }
    assert(strs(out@) =~= start + docker_cmds(*cfg));
}

fn push_grub(cfg: &InjectConfig, out: &mut Vec<String>)
    ensures
        strs(final(out)@) == strs(old(out)@) + grub_cmds(*cfg),
{
    let ghost start = strs(out@);
    if cfg.grub.timeout.is_some() || cfg.grub.cmdline_extra.len() > 0
        || cfg.grub.default_entry.is_some() {
        if let Some(t) = cfg.grub.timeout {
            let d = decimal_string(t as u64);
            push_line(
                out,
                cat3(
                    "sed -i 's/^GRUB_TIMEOUT=.*/GRUB_TIMEOUT=",
                    d.as_str(),
                    "/' /target/etc/default/grub",
                ),
            );
        }
        let ghost a = strs(out@);
        if let Some(e) = &cfg.grub.default_entry {
            push_line(
                out,
                cat3(
                    "sed -i 's/^GRUB_DEFAULT=.*/GRUB_DEFAULT=",
                    e.as_str(),
                    "/' /target/etc/default/grub",
                ),
            );
        }
        let ghost b = strs(out@);
        push_wrapped(
            out,
            &cfg.grub.cmdline_extra,
            "sed -i 's/\\(GRUB_CMDLINE_LINUX_DEFAULT=\".*\\)\"/\\1 ",
            "\"/' /target/etc/default/grub",
        );
        push_line(out, owned("chroot /target update-grub"));
    }
    assert(strs(out@) =~= start + grub_cmds(*cfg));
}

fn push_mount_entry(e: &str, out: &mut Vec<String>)
    ensures
        strs(final(out)@) == strs(old(out)@) + mount_entry_cmds(e@),
{
    let ghost start = strs(out@);
    proof {
        reveal_strlit(" ");
    }
    match find_from(e, " ", 0) {
        Some(i) => {
            let n = e.unicode_len();
            let rest = e.substring_char(i + 1, n);
            let toks = ws_tokens_exec(rest);
            let mp = if toks.len() > 0 {
                toks[0].clone()
            } else {
                owned("/mnt")
            };
            push_line(out, cat("mkdir -p /target", mp.as_str()));
        },
        None => {},
    }
    push_line(out, cat3("echo '", e, "' >> /target/etc/fstab"));
    assert(strs(out@) =~= start + mount_entry_cmds(e@));
}

fn push_mounts(cfg: &InjectConfig, out: &mut Vec<String>)
    ensures
        strs(final(out)@) == strs(old(out)@) + mounts_cmds(strs(cfg.mounts@)),
{
    let ghost start = strs(out@);
    let ghost l = strs(cfg.mounts@);
    let mut i: usize = 0;
    assert(l.take(0) =~= Seq::<Seq<char>>::empty());
    while i < cfg.mounts.len()
        invariant
            i <= cfg.mounts@.len(),
            l == strs(cfg.mounts@),
            strs(out@) == start + mounts_cmds(l.take(i as int)),
        decreases cfg.mounts.len() - i,
    {
        let ghost before = strs(out@);
        push_mount_entry(cfg.mounts[i].as_str(), out);
        assert(l.take(i + 1).drop_last() =~= l.take(i as int));
        assert(l.take(i + 1).last() == l[i as int]);
        assert(strs(out@) =~= start + mounts_cmds(l.take(i + 1)));
        i = i + 1;
    }
    assert(l.take(l.len() as int) =~= l);
}

/// All feature late-commands in canonical order: time sync, wallpaper,
/// user groups/shell/sudo, proxy, services, sysctl, swap, firewall, APT
/// repositories, Docker, GRUB, mounts, then the user's run commands and extra
/// late-commands. Never fails.
pub fn build_feature_late_commands(cfg: &InjectConfig) -> (r: Result<Vec<String>, EngineError>)
    ensures
        r matches Ok(v) && strs(v@) == feature_late_commands(*cfg),
{
    let mut out: Vec<String> = Vec::new();
    assert(strs(out@) =~= Seq::<Seq<char>>::empty());
    push_ntp(cfg, &mut out);
    push_wallpaper(cfg, &mut out);
    push_user(cfg, &mut out);
    push_proxy(cfg, &mut out);
    push_services(cfg, &mut out);
    push_sysctl(cfg, &mut out);
    push_swap(cfg, &mut out);
    push_firewall(cfg, &mut out);
    push_apt(cfg, &mut out);
    push_docker(cfg, &mut out);
    push_grub(cfg, &mut out);
    push_mounts(cfg, &mut out);
    push_all(&mut out, &cfg.run_commands);
    push_all(&mut out, &cfg.extra_late_commands);
    assert(strs(out@) =~= feature_late_commands(*cfg));
    Ok(out)
}


// ---------------------------------------------------------------------------
// Password hashing (sha-crypt)
// ---------------------------------------------------------------------------

#[verifier::external_type_specification]
#[verifier::external_body]
pub struct ExSha512Params(sha_crypt::Sha512Params);

#[verifier::external_type_specification]
#[verifier::external_body]
pub struct ExCryptError(sha_crypt::CryptError);

/// The round count a `Sha512Params` value was made with.
pub uninterp spec fn sha512_rounds(params: sha_crypt::Sha512Params) -> nat;

/// The encoded SHA-512-crypt digest of a password under a salt and a round
/// count: the text after the last `$` of a crypt hash.
pub uninterp spec fn sha512_crypt_text(password: Seq<char>, salt: Seq<char>, rounds: nat) -> Seq<char>;

/// A character of the crypt salt alphabet `./0-9A-Za-z`.
pub open spec fn crypt_salt_char(c: char) -> bool {
    c == '.' || c == '/' || ('0' <= c && c <= '9') || ('A' <= c && c <= 'Z') || ('a' <= c
        && c <= 'z')
}

/// A salt as `sha512_simple` draws it: 16 characters of the crypt alphabet.
pub open spec fn sha512_salt(salt: Seq<char>) -> bool {
    salt.len() == 16 && forall|i: int| 0 <= i < salt.len() ==> crypt_salt_char(#[trigger] salt[i])
}

/// The head of a SHA-512-crypt hash: `$6$`, then `rounds=N$` unless N is the
/// default 5000.
pub open spec fn crypt_head(rounds: nat) -> Seq<char> {
    if rounds == 5000 {
        "$6$"@
    } else {
        "$6$rounds="@ + decimal(rounds) + "$"@
    }
}

/// The hash `hash_password` gives: `$6$rounds=10000$`, a 16-character
/// salt, `$`, the digest of the password under that salt.
pub open spec fn password_hash_of(h: Seq<char>, password: Seq<char>) -> bool {
    exists|salt: Seq<char>|
        #[trigger] sha512_salt(salt) && h == "$6$rounds=10000$"@ + salt + "$"@ + sha512_crypt_text(
            password,
            salt,
            10000,
        )
}

/// `Sha512Params::new`: accepts exactly the round counts from 1000 to
/// 999_999_999, and the value keeps the count.
#[verifier::external_body]
fn sha512_params(rounds: usize) -> (r: Result<sha_crypt::Sha512Params, sha_crypt::CryptError>)
    ensures
        r is Ok <==> 1000 <= rounds <= 999_999_999,
        r matches Ok(p) ==> sha512_rounds(p) == rounds,
{
    sha_crypt::Sha512Params::new(rounds)
}

/// `sha512_simple`: SHA-512-crypt of `password` under a fresh random salt
/// of 16 characters from `./0-9A-Za-z`, written `$6$[rounds=N$]salt$digest`.
/// It fails only on a round count out of range, and every `Sha512Params`
/// holds one in range (its constructor checks it, its default is in range),
/// so it succeeds. Which salt is drawn is random and is not stated.
#[verifier::external_body]
fn sha512_simple_hash(password: &str, params: &sha_crypt::Sha512Params) -> (r: Result<
    String,
    sha_crypt::CryptError,
>)
    ensures
        r is Ok,
        r matches Ok(h) ==> exists|salt: Seq<char>|
            #[trigger] sha512_salt(salt) && h@ == crypt_head(sha512_rounds(*params)) + salt + "$"@
                + sha512_crypt_text(password@, salt, sha512_rounds(*params)),
{
    sha_crypt::sha512_simple(password, params)
}

/// `Debug` rendering of a crypt error.
#[verifier::external_body]
fn crypt_error_text(e: &sha_crypt::CryptError) -> (r: String) {
    format!("{:?}", e)
}

proof fn lemma_rounds_head()
    ensures
        crypt_head(10000) == "$6$rounds=10000$"@,
{
    reveal_with_fuel(decimal, 6);
    reveal_strlit("$6$");
    reveal_strlit("$6$rounds=");
    reveal_strlit("$");
    reveal_strlit("$6$rounds=10000$");
    assert(decimal(10000) =~= seq!['1', '0', '0', '0', '0']);
    assert(crypt_head(10000) =~= "$6$rounds=10000$"@);
}

/// Hash a plain-text password to SHA-512-crypt with 10000 rounds under a
/// random salt.
pub fn hash_password(plaintext: &str) -> (r: Result<String, EngineError>)
    ensures
        r matches Ok(h) && password_hash_of(h@, plaintext@),
{
    let params = match sha512_params(10_000) {
        Ok(p) => p,
        Err(e) => {
            let t = crypt_error_text(&e);
            return Err(EngineError::Runtime(cat("Failed to create SHA512 params: ", t.as_str())));
        },
    };
    match sha512_simple_hash(plaintext, &params) {
        Ok(h) => {
            proof {
                lemma_rounds_head();
                let salt = choose|salt: Seq<char>|
                    #[trigger] sha512_salt(salt) && h@ == crypt_head(10000) + salt + "$"@
                        + sha512_crypt_text(plaintext@, salt, 10000);
                assert(sha512_salt(salt));
            }
            Ok(h)
        },
        Err(e) => {
            let t = crypt_error_text(&e);
            Err(EngineError::Runtime(cat("Failed to hash password: ", t.as_str())))
        },
    }
}

// ---------------------------------------------------------------------------
// The generated document
// ---------------------------------------------------------------------------

pub open spec fn entry(k: Seq<char>, v: Yaml) -> (Yaml, Yaml) {
    (Yaml::Str(k), v)
}

pub open spec fn or_default(o: Option<String>, d: Seq<char>) -> Seq<char> {
    match o {
        Some(s) => s@,
        None => d,
    }
}

pub open spec fn has_identity(cfg: InjectConfig) -> bool {
    cfg.hostname is Some || cfg.username is Some || cfg.password is Some || cfg.realname is Some
}

/// Identity entries; `pw` is the crypt hash of the password, when there is one.
pub open spec fn identity_entries(cfg: InjectConfig, pw: Option<Seq<char>>) -> Seq<(Yaml, Yaml)> {
    seq![
        entry("hostname"@, Yaml::Str(or_default(cfg.hostname, "ubuntu"@))),
        entry("username"@, Yaml::Str(or_default(cfg.username, "ubuntu"@))),
    ] + match pw {
        Some(h) => seq![entry("password"@, Yaml::Str(h))],
        None => Seq::empty(),
    } + match cfg.realname {
        Some(r) => seq![entry("realname"@, Yaml::Str(r@))],
        None => Seq::empty(),
    }
}

/// SSH entries: the server is installed unless that is turned off, and
/// password login is allowed unless keys are given (overridable).
pub open spec fn ssh_entries(cfg: InjectConfig) -> Seq<(Yaml, Yaml)> {
    let no_keys = cfg.ssh.authorized_keys@.len() == 0;
    let install = match cfg.ssh.install_server {
        Some(b) => b,
        None => true,
    };
    let allow = match cfg.ssh.allow_password_auth {
        Some(b) => b,
        None => no_keys,
    };
    seq![entry("install-server"@, Yaml::Bool(install))] + (if no_keys {
        Seq::empty()
    } else {
        seq![entry("authorized-keys"@, ylist_of_strs(strs(cfg.ssh.authorized_keys@)))]
    }) + seq![entry("allow-pw"@, Yaml::Bool(allow))]
}

/// The `any` ethernet entry of the network section.
pub open spec fn any_ethernet_entries(cfg: InjectConfig) -> Seq<(Yaml, Yaml)> {
    seq![entry("match"@, Yaml::Mapping(seq![entry("name"@, Yaml::Str("en*"@))]))] + match cfg.static_ip {
        Some(ip) => seq![
            entry("dhcp4"@, Yaml::Bool(false)),
            entry("addresses"@, Yaml::List(seq![Yaml::Str(ip@)])),
        ] + match cfg.gateway {
            Some(gw) => seq![
                entry(
                    "routes"@,
                    Yaml::List(
                        seq![
                            Yaml::Mapping(
                                seq![entry("to"@, Yaml::Str("default"@)), entry("via"@, Yaml::Str(gw@))],
                            ),
                        ],
                    ),
                ),
            ],
            None => Seq::empty(),
        },
        None => seq![entry("dhcp4"@, Yaml::Bool(true))],
    } + if cfg.network.dns_servers@.len() == 0 {
        Seq::empty()
    } else {
        seq![
            entry(
                "nameservers"@,
                Yaml::Mapping(
                    seq![entry("addresses"@, ylist_of_strs(strs(cfg.network.dns_servers@)))],
                ),
            ),
        ]
    }
}

/// The `ethernets` mapping: one `any` entry for the `en*` interfaces.
pub open spec fn ethernets_value(cfg: InjectConfig) -> Yaml {
    Yaml::Mapping(seq![entry("any"@, Yaml::Mapping(any_ethernet_entries(cfg)))])
}

pub open spec fn network_value(cfg: InjectConfig) -> Yaml {
    Yaml::Mapping(
        seq![entry("version"@, Yaml::Number("2"@)), entry("ethernets"@, ethernets_value(cfg))],
    )
}

pub open spec fn storage_layout_entries(cfg: InjectConfig, layout: Seq<char>) -> Seq<(Yaml, Yaml)> {
    seq![entry("name"@, Yaml::Str(layout))] + if cfg.encrypt && cfg.encrypt_passphrase is Some {
        seq![entry("password"@, Yaml::Str(cfg.encrypt_passphrase.unwrap()@))]
    } else {
        Seq::empty()
    }
}

/// The `primary` list of the apt section: one amd64 archive at `mirror`.
pub open spec fn apt_primary(mirror: Seq<char>) -> Yaml {
    Yaml::List(
        seq![
            Yaml::Mapping(
                seq![
                    entry("arches"@, Yaml::List(seq![Yaml::Str("amd64"@)])),
                    entry("uri"@, Yaml::Str(mirror)),
                ],
            ),
        ],
    )
}

pub open spec fn apt_value(mirror: Seq<char>) -> Yaml {
    Yaml::Mapping(seq![entry("primary"@, apt_primary(mirror))])
}

pub open spec fn has_ppa(cfg: InjectConfig) -> bool {
    exists|i: int| 0 <= i < cfg.apt_repos@.len() && has_prefix(cfg.apt_repos@[i]@, "ppa:"@)
}

/// The packages the configuration asks for, extra packages first, then the
/// ones features need; before sorting.
pub open spec fn requested_packages(cfg: InjectConfig) -> Seq<Seq<char>> {
    strs(cfg.extra_packages@) + (if cfg.wallpaper is Some {
        seq!["dconf-cli"@]
    } else {
        Seq::empty()
    }) + (if cfg.firewall.enabled {
        seq!["ufw"@]
    } else {
        Seq::empty()
    }) + (if cfg.containers.podman {
        seq!["podman"@]
    } else {
        Seq::empty()
    }) + (if has_ppa(cfg) {
        seq!["software-properties-common"@]
    } else {
        Seq::empty()
    })
}

/// The first entries of a generated document: version, locale, keyboard
/// layout and time zone, with their defaults.
pub open spec fn head_entries(cfg: InjectConfig) -> Seq<(Yaml, Yaml)> {
    seq![
        entry("version"@, Yaml::Number("1"@)),
        entry("locale"@, Yaml::Str(or_default(cfg.locale, "en_US.UTF-8"@))),
        entry(
            "keyboard"@,
            Yaml::Mapping(seq![entry("layout"@, Yaml::Str(or_default(cfg.keyboard_layout, "us"@)))]),
        ),
        entry("timezone"@, Yaml::Str(or_default(cfg.timezone, "UTC"@))),
    ]
}

pub open spec fn identity_part(cfg: InjectConfig, pw: Option<Seq<char>>) -> Seq<(Yaml, Yaml)> {
    if has_identity(cfg) {
        seq![entry("identity"@, Yaml::Mapping(identity_entries(cfg, pw)))]
    } else {
        Seq::empty()
    }
}

pub open spec fn wants_network(cfg: InjectConfig) -> bool {
    cfg.static_ip is Some || cfg.network.dns_servers@.len() > 0
}

pub open spec fn network_part(cfg: InjectConfig) -> Seq<(Yaml, Yaml)> {
    if wants_network(cfg) {
        seq![entry("network"@, network_value(cfg))]
    } else {
        Seq::empty()
    }
}

pub open spec fn storage_part(cfg: InjectConfig) -> Seq<(Yaml, Yaml)> {
    match cfg.storage_layout {
        Some(l) => seq![
            entry(
                "storage"@,
                Yaml::Mapping(
                    seq![entry("layout"@, Yaml::Mapping(storage_layout_entries(cfg, l@)))],
                ),
            ),
        ],
        None => Seq::empty(),
    }
}

pub open spec fn apt_part(cfg: InjectConfig) -> Seq<(Yaml, Yaml)> {
    match cfg.apt_mirror {
        Some(m) => seq![entry("apt"@, apt_value(m@))],
        None => Seq::empty(),
    }
}

/// A list entry that is present only when the list is not empty.
pub open spec fn list_part(k: Seq<char>, l: Seq<Seq<char>>) -> Seq<(Yaml, Yaml)> {
    if l.len() > 0 {
        seq![entry(k, ylist_of_strs(l))]
    } else {
        Seq::empty()
    }
}

pub open spec fn interactive_part(cfg: InjectConfig) -> Seq<(Yaml, Yaml)> {
    if cfg.no_user_interaction {
        seq![entry("interactive-sections"@, Yaml::List(Seq::empty()))]
    } else {
        Seq::empty()
    }
}

/// The entries under `autoinstall:` of a generated document.
pub open spec fn generated_entries(cfg: InjectConfig, pw: Option<Seq<char>>) -> Seq<(Yaml, Yaml)> {
    head_entries(cfg) + identity_part(cfg, pw) + seq![entry("ssh"@, Yaml::Mapping(ssh_entries(cfg)))]
        + network_part(cfg) + storage_part(cfg) + apt_part(cfg) + list_part(
        "packages"@,
        sort_dedup(requested_packages(cfg)),
    ) + list_part("late-commands"@, feature_late_commands(cfg)) + interactive_part(cfg)
}

/// The whole generated document: a `cloud-config` placeholder (removed when
/// rendered) followed by the `autoinstall` mapping.
pub open spec fn generated_document(cfg: InjectConfig, pw: Option<Seq<char>>) -> Yaml {
    Yaml::Mapping(
        seq![
            entry("cloud-config"@, Yaml::Null),
            entry("autoinstall"@, Yaml::Mapping(generated_entries(cfg, pw))),
        ],
    )
}

fn push_entry(es: &mut Vec<YamlEntry>, k: &str, v: YamlValue)
    ensures
        yaml_entries_view(final(es)@) == yaml_entries_view(old(es)@).push((Yaml::Str(k@), yv(v))),
{
    let ghost before = yaml_entries_view(es@);
    let ghost vv = yv(v);
    es.push(YamlEntry { key: YamlValue::str_value(k), value: v });
    assert(yaml_entries_view(es@) =~= before.push((Yaml::Str(k@), vv)));
}

/// A list of strings as a YAML sequence.
pub fn str_list_value(v: &Vec<String>) -> (r: YamlValue)
    ensures
        yv(r) == ylist_of_strs(strs(v@)),
{
    let mut items: Vec<YamlValue> = Vec::new();
    let mut i: usize = 0;
    while i < v.len()
        invariant
            i <= v@.len(),
            items@.len() == i,
            forall|k: int| 0 <= k < i ==> yv(#[trigger] items@[k]) == Yaml::Str(v@[k]@),
        decreases v.len() - i,
    {
        items.push(YamlValue::Str(v[i].clone()));
        i = i + 1;
    }
    assert(yaml_list_view(items@) =~= Seq::new(strs(v@).len(), |k: int| Yaml::Str(strs(v@)[k])));
    YamlValue::List(items)
}

fn single_entry_map(k: &str, v: YamlValue) -> (r: YamlValue)
    ensures
        yv(r) == Yaml::Mapping(seq![(Yaml::Str(k@), yv(v))]),
{
    let mut es: Vec<YamlEntry> = Vec::new();
    assert(yaml_entries_view(es@) =~= Seq::<(Yaml, Yaml)>::empty());
    push_entry(&mut es, k, v);
    assert(yaml_entries_view(es@) =~= seq![(Yaml::Str(k@), yv(v))]);
    YamlValue::Mapping(es)
}

fn single_item_list(v: YamlValue) -> (r: YamlValue)
    ensures
        yv(r) == Yaml::List(seq![yv(v)]),
{
    let mut items: Vec<YamlValue> = Vec::new();
    items.push(v);
    assert(yaml_list_view(items@) =~= seq![yv(items@[0])]);
    YamlValue::List(items)
}

fn identity_value(cfg: &InjectConfig, pw: &Option<String>) -> (r: YamlValue)
    ensures
        yv(r) == Yaml::Mapping(
            identity_entries(
                *cfg,
                match pw {
                    Some(h) => Some(h@),
                    None => None,
                },
            ),
        ),
{
    let mut es: Vec<YamlEntry> = Vec::new();
    let ghost e0 = yaml_entries_view(es@);
    assert(e0 =~= Seq::<(Yaml, Yaml)>::empty());
    let host = match &cfg.hostname {
        Some(h) => h.clone(),
        None => owned("ubuntu"),
    };
    push_entry(&mut es, "hostname", YamlValue::Str(host));
    let user = match &cfg.username {
        Some(u) => u.clone(),
        None => owned("ubuntu"),
    };
    push_entry(&mut es, "username", YamlValue::Str(user));
    if let Some(h) = pw {
        push_entry(&mut es, "password", YamlValue::Str(h.clone()));
    }
    if let Some(rn) = &cfg.realname {
        push_entry(&mut es, "realname", YamlValue::Str(rn.clone()));
    }
    assert(yaml_entries_view(es@) =~= identity_entries(
        *cfg,
        match pw {
            Some(h) => Some(h@),
            None => None,
        },
    ));
    YamlValue::Mapping(es)
}

fn ssh_value(cfg: &InjectConfig) -> (r: YamlValue)
    ensures
        yv(r) == Yaml::Mapping(ssh_entries(*cfg)),
{
    let no_keys = cfg.ssh.authorized_keys.len() == 0;
    let mut es: Vec<YamlEntry> = Vec::new();
    assert(yaml_entries_view(es@) =~= Seq::<(Yaml, Yaml)>::empty());
    let install = match cfg.ssh.install_server {
        Some(b) => b,
        None => true,
    };
    push_entry(&mut es, "install-server", YamlValue::Bool(install));
    if !no_keys {
        push_entry(&mut es, "authorized-keys", str_list_value(&cfg.ssh.authorized_keys));
    }
    let allow = match cfg.ssh.allow_password_auth {
        Some(b) => b,
        None => no_keys,
    };
    push_entry(&mut es, "allow-pw", YamlValue::Bool(allow));
    assert(yaml_entries_view(es@) =~= ssh_entries(*cfg));
    YamlValue::Mapping(es)
}

fn ethernets_section(cfg: &InjectConfig) -> (r: YamlValue)
    ensures
        yv(r) == ethernets_value(*cfg),
{
    let mut any: Vec<YamlEntry> = Vec::new();
    assert(yaml_entries_view(any@) =~= Seq::<(Yaml, Yaml)>::empty());
    push_entry(&mut any, "match", single_entry_map("name", YamlValue::str_value("en*")));
    let ghost a0 = yaml_entries_view(any@);
    match &cfg.static_ip {
        Some(ip) => {
            push_entry(&mut any, "dhcp4", YamlValue::Bool(false));
            push_entry(&mut any, "addresses", single_item_list(YamlValue::Str(ip.clone())));
            if let Some(gw) = &cfg.gateway {
                let mut route: Vec<YamlEntry> = Vec::new();
                assert(yaml_entries_view(route@) =~= Seq::<(Yaml, Yaml)>::empty());
                push_entry(&mut route, "to", YamlValue::str_value("default"));
                push_entry(&mut route, "via", YamlValue::Str(gw.clone()));
                assert(yaml_entries_view(route@) =~= seq![
                    entry("to"@, Yaml::Str("default"@)),
                    entry("via"@, Yaml::Str(gw@)),
                ]);
                push_entry(&mut any, "routes", single_item_list(YamlValue::Mapping(route)));
            }
        },
        None => {
            push_entry(&mut any, "dhcp4", YamlValue::Bool(true));
        },
    }
    let ghost a1 = yaml_entries_view(any@);
    if cfg.network.dns_servers.len() > 0 {
        push_entry(
            &mut any,
            "nameservers",
            single_entry_map("addresses", str_list_value(&cfg.network.dns_servers)),
        );
    }
    assert(yaml_entries_view(any@) =~= any_ethernet_entries(*cfg));
    single_entry_map("any", YamlValue::Mapping(any))
}

fn network_section(cfg: &InjectConfig) -> (r: YamlValue)
    ensures
        yv(r) == network_value(*cfg),
{
    let eth = ethernets_section(cfg);
    let mut net: Vec<YamlEntry> = Vec::new();
    assert(yaml_entries_view(net@) =~= Seq::<(Yaml, Yaml)>::empty());
    push_entry(&mut net, "version", YamlValue::Number(owned("2")));
    push_entry(&mut net, "ethernets", eth);
    assert(yaml_entries_view(net@) =~= seq![
        entry("version"@, Yaml::Number("2"@)),
        entry("ethernets"@, ethernets_value(*cfg)),
    ]);
    YamlValue::Mapping(net)
}

fn storage_layout_value(cfg: &InjectConfig, layout: &String) -> (r: YamlValue)
    ensures
        yv(r) == Yaml::Mapping(storage_layout_entries(*cfg, layout@)),
{
    let mut es: Vec<YamlEntry> = Vec::new();
    assert(yaml_entries_view(es@) =~= Seq::<(Yaml, Yaml)>::empty());
    push_entry(&mut es, "name", YamlValue::Str(layout.clone()));
    if cfg.encrypt {
        if let Some(p) = &cfg.encrypt_passphrase {
            push_entry(&mut es, "password", YamlValue::Str(p.clone()));
        }
    }
    assert(yaml_entries_view(es@) =~= storage_layout_entries(*cfg, layout@));
    YamlValue::Mapping(es)
}

fn apt_primary_value(mirror: &String) -> (r: YamlValue)
    ensures
        yv(r) == apt_primary(mirror@),
{
    let mut prim: Vec<YamlEntry> = Vec::new();
    assert(yaml_entries_view(prim@) =~= Seq::<(Yaml, Yaml)>::empty());
    push_entry(&mut prim, "arches", single_item_list(YamlValue::str_value("amd64")));
    push_entry(&mut prim, "uri", YamlValue::Str(mirror.clone()));
    assert(yaml_entries_view(prim@) =~= seq![
        entry("arches"@, Yaml::List(seq![Yaml::Str("amd64"@)])),
        entry("uri"@, Yaml::Str(mirror@)),
    ]);
    single_item_list(YamlValue::Mapping(prim))
}

fn any_ppa(cfg: &InjectConfig) -> (b: bool)
    ensures
        b == has_ppa(*cfg),
{
    let mut i: usize = 0;
    while i < cfg.apt_repos.len()
        invariant
            i <= cfg.apt_repos@.len(),
            forall|k: int| 0 <= k < i ==> !has_prefix(cfg.apt_repos@[k]@, "ppa:"@),
        decreases cfg.apt_repos.len() - i,
    {
        if starts_with(cfg.apt_repos[i].as_str(), "ppa:") {
            return true;
        }
        i = i + 1;
    }
    false
}

/// The packages the configuration asks for, before sorting.
pub fn requested_packages_exec(cfg: &InjectConfig) -> (r: Vec<String>)
    ensures
        strs(r@) == requested_packages(*cfg),
{
    let mut all: Vec<String> = Vec::new();
    assert(strs(all@) =~= Seq::<Seq<char>>::empty());
    push_all(&mut all, &cfg.extra_packages);
    if cfg.wallpaper.is_some() {
        push_line(&mut all, owned("dconf-cli"));
    }
    let ghost a = strs(all@);
    if cfg.firewall.enabled {
        push_line(&mut all, owned("ufw"));
    }
    let ghost b = strs(all@);
    if cfg.containers.podman {
        push_line(&mut all, owned("podman"));
    }
    let ghost c = strs(all@);
    if any_ppa(cfg) {
        push_line(&mut all, owned("software-properties-common"));
    }
    assert(strs(all@) =~= requested_packages(*cfg));
    all
}

fn push_head(cfg: &InjectConfig, ai: &mut Vec<YamlEntry>)
    ensures
        yaml_entries_view(final(ai)@) == yaml_entries_view(old(ai)@) + head_entries(*cfg),
{
    let ghost s = yaml_entries_view(ai@);
    push_entry(ai, "version", YamlValue::Number(owned("1")));
    let locale = match &cfg.locale {
        Some(l) => l.clone(),
        None => owned("en_US.UTF-8"),
    };
    push_entry(ai, "locale", YamlValue::Str(locale));
    let layout = match &cfg.keyboard_layout {
        Some(k) => k.clone(),
        None => owned("us"),
    };
    push_entry(ai, "keyboard", single_entry_map("layout", YamlValue::Str(layout)));
    let tz = match &cfg.timezone {
        Some(t) => t.clone(),
        None => owned("UTC"),
    };
    push_entry(ai, "timezone", YamlValue::Str(tz));
    assert(yaml_entries_view(ai@) =~= s + head_entries(*cfg));
}

/// Push `k: [l...]` when `l` is not empty.
fn push_list_part(ai: &mut Vec<YamlEntry>, k: &str, l: &Vec<String>)
    ensures
        yaml_entries_view(final(ai)@) == yaml_entries_view(old(ai)@) + list_part(k@, strs(l@)),
{
    let ghost s = yaml_entries_view(ai@);
    if l.len() > 0 {
        push_entry(ai, k, str_list_value(l));
    }
    assert(yaml_entries_view(ai@) =~= s + list_part(k@, strs(l@)));
}

fn push_middle(cfg: &InjectConfig, ai: &mut Vec<YamlEntry>)
    ensures
        yaml_entries_view(final(ai)@) == yaml_entries_view(old(ai)@) + network_part(*cfg)
            + storage_part(*cfg) + apt_part(*cfg),
{
    let ghost s0 = yaml_entries_view(ai@);
    if cfg.static_ip.is_some() || cfg.network.dns_servers.len() > 0 {
        push_entry(ai, "network", network_section(cfg));
    }
    let ghost s1 = yaml_entries_view(ai@);
    assert(s1 =~= s0 + network_part(*cfg));
    if let Some(l) = &cfg.storage_layout {
        let lv = storage_layout_value(cfg, l);
        push_entry(ai, "storage", single_entry_map("layout", lv));
    }
    let ghost s2 = yaml_entries_view(ai@);
    assert(s2 =~= s1 + storage_part(*cfg));
    if let Some(m) = &cfg.apt_mirror {
        push_entry(ai, "apt", single_entry_map("primary", apt_primary_value(m)));
    }
    assert(yaml_entries_view(ai@) =~= s2 + apt_part(*cfg));
}

/// The generated autoinstall document; `password_hash` is the crypt hash of
/// `cfg.password` (it becomes `identity.password` when given).
pub fn autoinstall_document(cfg: &InjectConfig, password_hash: &Option<String>) -> (r: YamlValue)
    ensures
        yv(r) == generated_document(
            *cfg,
            match password_hash {
                Some(h) => Some(h@),
                None => None,
            },
        ),
{
    let ghost pw = match password_hash {
        Some(h) => Some(h@),
        None => None,
    };
    let mut ai: Vec<YamlEntry> = Vec::new();
    assert(yaml_entries_view(ai@) =~= Seq::<(Yaml, Yaml)>::empty());
    push_head(cfg, &mut ai);
    let ghost s0 = yaml_entries_view(ai@);
    assert(s0 =~= head_entries(*cfg));
    if cfg.hostname.is_some() || cfg.username.is_some() || cfg.password.is_some()
        || cfg.realname.is_some() {
        push_entry(&mut ai, "identity", identity_value(cfg, password_hash));
    }
    let ghost s1 = yaml_entries_view(ai@);
    assert(s1 =~= s0 + identity_part(*cfg, pw));
    push_entry(&mut ai, "ssh", ssh_value(cfg));
    let ghost s2 = yaml_entries_view(ai@);
    assert(s2 =~= s1 + seq![entry("ssh"@, Yaml::Mapping(ssh_entries(*cfg)))]);
    push_middle(cfg, &mut ai);
    let ghost s3 = yaml_entries_view(ai@);
    let requested = requested_packages_exec(cfg);
    let pk = sort_dedup_exec(&requested);
    push_list_part(&mut ai, "packages", &pk);
    let ghost s4 = yaml_entries_view(ai@);
    let late = match build_feature_late_commands(cfg) {
        Ok(v) => v,
        Err(_) => Vec::new(),
    };
    push_list_part(&mut ai, "late-commands", &late);
    let ghost s5 = yaml_entries_view(ai@);
    if cfg.no_user_interaction {
        let none: Vec<YamlValue> = Vec::new();
        assert(yaml_list_view(none@) =~= Seq::<Yaml>::empty());
        push_entry(&mut ai, "interactive-sections", YamlValue::List(none));
    }
    assert(yaml_entries_view(ai@) =~= s5 + interactive_part(*cfg));
    assert(yaml_entries_view(ai@) == generated_entries(*cfg, pw));
    let mut root: Vec<YamlEntry> = Vec::new();
    assert(yaml_entries_view(root@) =~= Seq::<(Yaml, Yaml)>::empty());
    push_entry(&mut root, "cloud-config", YamlValue::Null);
    push_entry(&mut root, "autoinstall", YamlValue::Mapping(ai));
    assert(yaml_entries_view(root@) =~= seq![
        entry("cloud-config"@, Yaml::Null),
        entry("autoinstall"@, Yaml::Mapping(generated_entries(*cfg, pw))),
    ]);
    YamlValue::Mapping(root)
}

/// Hash the password (when there is one) and build the document.
pub fn generate_autoinstall_document(cfg: &InjectConfig) -> (r: Result<YamlValue, EngineError>)
    ensures
        r matches Ok(d) && exists|pw: Option<Seq<char>>|
            #![trigger generated_document(*cfg, pw)]
            (pw is Some <==> cfg.password is Some) && (pw matches Some(h) ==> cfg.password
                matches Some(p) && password_hash_of(h, p@)) && yv(d) == generated_document(*cfg, pw),
{
    let hash = match &cfg.password {
        Some(p) => Some(hash_password(p.as_str())?),
        None => None,
    };
    let d = autoinstall_document(cfg, &hash);
    let ghost pw = match hash {
        Some(h) => Some(h@),
        None => None,
    };
    assert(yv(d) == generated_document(*cfg, pw));
    Ok(d)
}

// ---------------------------------------------------------------------------
// Merging into an existing document
// ---------------------------------------------------------------------------

/// The mapping under `k`, or an empty one when `k` is absent or holds no
/// mapping.
pub open spec fn section_of(m: Seq<(Yaml, Yaml)>, k: Seq<char>) -> Seq<(Yaml, Yaml)> {
    match mget(m, k) {
        Some(v) => match as_mapping(v) {
            Some(sec) => sec,
            None => Seq::empty(),
        },
        None => Seq::empty(),
    }
}

/// Remove the section `k` and insert `entries` under `k` again.
pub open spec fn resection(m: Seq<(Yaml, Yaml)>, k: Seq<char>, entries: Seq<(Yaml, Yaml)>) -> Seq<
    (Yaml, Yaml),
> {
    minsert(mremove(m, k), k, Yaml::Mapping(entries))
}

pub open spec fn set_str(m: Seq<(Yaml, Yaml)>, k: Seq<char>, o: Option<String>) -> Seq<(Yaml, Yaml)> {
    match o {
        Some(v) => minsert(m, k, Yaml::Str(v@)),
        None => m,
    }
}

pub open spec fn set_bool(m: Seq<(Yaml, Yaml)>, k: Seq<char>, o: Option<bool>) -> Seq<(Yaml, Yaml)> {
    match o {
        Some(b) => minsert(m, k, Yaml::Bool(b)),
        None => m,
    }
}

/// A list under `k`, set only when it is not empty.
pub open spec fn set_list(m: Seq<(Yaml, Yaml)>, k: Seq<char>, l: Seq<Seq<char>>) -> Seq<(Yaml, Yaml)> {
    if l.len() > 0 {
        minsert(m, k, ylist_of_strs(l))
    } else {
        m
    }
}

/// Locale, time zone and keyboard layout override what is there.
pub open spec fn merge_basics(m: Seq<(Yaml, Yaml)>, cfg: InjectConfig) -> Seq<(Yaml, Yaml)> {
    let m2 = set_str(set_str(m, "locale"@, cfg.locale), "timezone"@, cfg.timezone);
    match cfg.keyboard_layout {
        Some(kb) => resection(
            m2,
            "keyboard"@,
            minsert(section_of(m2, "keyboard"@), "layout"@, Yaml::Str(kb@)),
        ),
        None => m2,
    }
}

/// The identity section with the given fields overriding the existing ones.
pub open spec fn merged_identity(base: Seq<(Yaml, Yaml)>, cfg: InjectConfig, pw: Option<Seq<char>>) -> Seq<
    (Yaml, Yaml),
> {
    let b = set_str(set_str(base, "hostname"@, cfg.hostname), "username"@, cfg.username);
    let c = match pw {
        Some(h) => minsert(b, "password"@, Yaml::Str(h)),
        None => b,
    };
    set_str(c, "realname"@, cfg.realname)
}

pub open spec fn merge_identity(m: Seq<(Yaml, Yaml)>, cfg: InjectConfig, pw: Option<Seq<char>>) -> Seq<
    (Yaml, Yaml),
> {
    if has_identity(cfg) {
        resection(m, "identity"@, merged_identity(section_of(m, "identity"@), cfg, pw))
    } else {
        m
    }
}

pub open spec fn touches_ssh(cfg: InjectConfig) -> bool {
    cfg.ssh.authorized_keys@.len() > 0 || cfg.ssh.allow_password_auth is Some
        || cfg.ssh.install_server is Some
}

/// The authorized keys after a merge: the string keys already there, then
/// the given ones, each key once, first occurrence kept.
pub open spec fn merged_keys(base: Seq<(Yaml, Yaml)>, cfg: InjectConfig) -> Seq<Seq<char>> {
    dedup_keep_first(list_strings(mget(base, "authorized-keys"@)) + strs(cfg.ssh.authorized_keys@))
}

/// The ssh section after a merge: given keys are added to the existing
/// ones, given flags override.
pub open spec fn merged_ssh(base: Seq<(Yaml, Yaml)>, cfg: InjectConfig) -> Seq<(Yaml, Yaml)> {
    let a = if cfg.ssh.authorized_keys@.len() > 0 {
        minsert(base, "authorized-keys"@, ylist_of_strs(merged_keys(base, cfg)))
    } else {
        base
    };
    set_bool(
        set_bool(a, "allow-pw"@, cfg.ssh.allow_password_auth),
        "install-server"@,
        cfg.ssh.install_server,
    )
}

pub open spec fn merge_ssh(m: Seq<(Yaml, Yaml)>, cfg: InjectConfig) -> Seq<(Yaml, Yaml)> {
    if touches_ssh(cfg) {
        resection(m, "ssh"@, merged_ssh(section_of(m, "ssh"@), cfg))
    } else {
        m
    }
}

pub open spec fn touches_network(cfg: InjectConfig) -> bool {
    wants_network(cfg) || cfg.network.ntp_servers@.len() > 0
}

pub open spec fn merged_network(base: Seq<(Yaml, Yaml)>, cfg: InjectConfig) -> Seq<(Yaml, Yaml)> {
    if wants_network(cfg) {
        minsert(minsert(base, "version"@, Yaml::Number("2"@)), "ethernets"@, ethernets_value(cfg))
    } else {
        base
    }
}

pub open spec fn merge_network(m: Seq<(Yaml, Yaml)>, cfg: InjectConfig) -> Seq<(Yaml, Yaml)> {
    if touches_network(cfg) {
        resection(m, "network"@, merged_network(section_of(m, "network"@), cfg))
    } else {
        m
    }
}

pub open spec fn merge_storage(m: Seq<(Yaml, Yaml)>, cfg: InjectConfig) -> Seq<(Yaml, Yaml)> {
    match cfg.storage_layout {
        Some(l) => resection(
            m,
            "storage"@,
            minsert(
                section_of(m, "storage"@),
                "layout"@,
                Yaml::Mapping(storage_layout_entries(cfg, l@)),
            ),
        ),
        None => m,
    }
}

pub open spec fn merge_apt(m: Seq<(Yaml, Yaml)>, cfg: InjectConfig) -> Seq<(Yaml, Yaml)> {
    match cfg.apt_mirror {
        Some(mi) => resection(
            m,
            "apt"@,
            minsert(section_of(m, "apt"@), "primary"@, apt_primary(mi@)),
        ),
        None => m,
    }
}

/// Requested packages together with the string items already listed,
/// sorted and without repeats.
pub open spec fn merged_packages(m: Seq<(Yaml, Yaml)>, cfg: InjectConfig) -> Seq<Seq<char>> {
    sort_dedup(requested_packages(cfg) + list_strings(mget(m, "packages"@)))
}

/// The late-commands already there, then the feature commands.
pub open spec fn merged_late_commands(m: Seq<(Yaml, Yaml)>, cfg: InjectConfig) -> Seq<Seq<char>> {
    list_strings(mget(m, "late-commands"@)) + feature_late_commands(cfg)
}

pub open spec fn merge_lists(m: Seq<(Yaml, Yaml)>, cfg: InjectConfig) -> Seq<(Yaml, Yaml)> {
    let a = set_list(m, "packages"@, merged_packages(m, cfg));
    let b = set_list(a, "late-commands"@, merged_late_commands(a, cfg));
    if cfg.no_user_interaction {
        minsert(b, "interactive-sections"@, Yaml::List(Seq::empty()))
    } else {
        b
    }
}

/// The entries of an existing `autoinstall` mapping after the merge.
pub open spec fn merged_entries(m: Seq<(Yaml, Yaml)>, cfg: InjectConfig, pw: Option<Seq<char>>) -> Seq<
    (Yaml, Yaml),
> {
    merge_lists(
        merge_apt(
            merge_storage(
                merge_network(merge_ssh(merge_identity(merge_basics(m, cfg), cfg, pw), cfg), cfg),
                cfg,
            ),
            cfg,
        ),
        cfg,
    )
}

/// The document's `autoinstall` value is there but is no mapping.
pub open spec fn merge_refused(root: Yaml) -> bool {
    match as_mapping(root) {
        Some(rm) => match mget(rm, "autoinstall"@) {
            Some(ai) => as_mapping(ai) is None,
            None => false,
        },
        None => false,
    }
}

/// The merged document. A document that is no mapping is replaced by one
/// holding just the merged section; a mapping without an `autoinstall` key
/// gets the merged section added after its other entries; otherwise the
/// `autoinstall` mapping is merged in place. Tags are kept.
pub open spec fn merged_document(root: Yaml, cfg: InjectConfig, pw: Option<Seq<char>>) -> Yaml {
    let section = Yaml::Mapping(merged_entries(Seq::empty(), cfg, pw));
    let fresh = Yaml::Mapping(seq![entry("autoinstall"@, section)]);
    match as_mapping(root) {
        Some(rm) => match mget(rm, "autoinstall"@) {
            Some(ai) => match as_mapping(ai) {
                Some(aim) => replace_untagged(
                    root,
                    Yaml::Mapping(
                        minsert(
                            rm,
                            "autoinstall"@,
                            replace_untagged(ai, Yaml::Mapping(merged_entries(aim, cfg, pw))),
                        ),
                    ),
                ),
                None => fresh,
            },
            None => replace_untagged(root, Yaml::Mapping(minsert(rm, "autoinstall"@, section))),
        },
        None => fresh,
    }
}

/// Take the section `k` out of `m`.
fn take_section(m: &mut Vec<YamlEntry>, k: &str) -> (r: Vec<YamlEntry>)
    ensures
        yaml_entries_view(final(m)@) == mremove(yaml_entries_view(old(m)@), k@),
        yaml_entries_view(r@) == section_of(yaml_entries_view(old(m)@), k@),
{
    let empty: Vec<YamlEntry> = Vec::new();
    assert(yaml_entries_view(empty@) =~= Seq::<(Yaml, Yaml)>::empty());
    match map_remove(m, k) {
        Some(v) => match into_mapping(v) {
            Some(es) => es,
            None => empty,
        },
        None => empty,
    }
}

fn set_str_exec(m: &mut Vec<YamlEntry>, k: &str, o: &Option<String>)
    ensures
        yaml_entries_view(final(m)@) == set_str(yaml_entries_view(old(m)@), k@, *o),
{
    if let Some(v) = o {
        map_insert(m, k, YamlValue::Str(v.clone()));
    }
}

fn set_bool_exec(m: &mut Vec<YamlEntry>, k: &str, o: Option<bool>)
    ensures
        yaml_entries_view(final(m)@) == set_bool(yaml_entries_view(old(m)@), k@, o),
{
    if let Some(b) = o {
        map_insert(m, k, YamlValue::Bool(b));
    }
}

fn set_list_exec(m: &mut Vec<YamlEntry>, k: &str, l: &Vec<String>)
    ensures
        yaml_entries_view(final(m)@) == set_list(yaml_entries_view(old(m)@), k@, strs(l@)),
{
    if l.len() > 0 {
        map_insert(m, k, str_list_value(l));
    }
}

fn merge_basics_exec(m: &mut Vec<YamlEntry>, cfg: &InjectConfig)
    ensures
        yaml_entries_view(final(m)@) == merge_basics(yaml_entries_view(old(m)@), *cfg),
{
    set_str_exec(m, "locale", &cfg.locale);
    set_str_exec(m, "timezone", &cfg.timezone);
    if let Some(kb) = &cfg.keyboard_layout {
        let mut keyboard = take_section(m, "keyboard");
        map_insert(&mut keyboard, "layout", YamlValue::Str(kb.clone()));
        map_insert(m, "keyboard", YamlValue::Mapping(keyboard));
    }
}

fn merge_identity_exec(m: &mut Vec<YamlEntry>, cfg: &InjectConfig, pw: &Option<String>)
    ensures
        yaml_entries_view(final(m)@) == merge_identity(
            yaml_entries_view(old(m)@),
            *cfg,
            opt_view(*pw),
        ),
{
    if cfg.hostname.is_some() || cfg.username.is_some() || cfg.password.is_some()
        || cfg.realname.is_some() {
        let mut identity = take_section(m, "identity");
        set_str_exec(&mut identity, "hostname", &cfg.hostname);
        set_str_exec(&mut identity, "username", &cfg.username);
        set_str_exec(&mut identity, "password", pw);
        set_str_exec(&mut identity, "realname", &cfg.realname);
        map_insert(m, "identity", YamlValue::Mapping(identity));
    }
}

fn merge_ssh_exec(m: &mut Vec<YamlEntry>, cfg: &InjectConfig)
    ensures
        yaml_entries_view(final(m)@) == merge_ssh(yaml_entries_view(old(m)@), *cfg),
{
    if cfg.ssh.authorized_keys.len() > 0 || cfg.ssh.allow_password_auth.is_some()
        || cfg.ssh.install_server.is_some() {
        let mut ssh = take_section(m, "ssh");
        if cfg.ssh.authorized_keys.len() > 0 {
            let mut keys = list_strings_exec(map_get(&ssh, "authorized-keys"));
            push_all(&mut keys, &cfg.ssh.authorized_keys);
            let keys = dedup_keep_first_exec(&keys);
            map_insert(&mut ssh, "authorized-keys", str_list_value(&keys));
        }
        set_bool_exec(&mut ssh, "allow-pw", cfg.ssh.allow_password_auth);
        set_bool_exec(&mut ssh, "install-server", cfg.ssh.install_server);
        map_insert(m, "ssh", YamlValue::Mapping(ssh));
    }
}

fn merge_network_exec(m: &mut Vec<YamlEntry>, cfg: &InjectConfig)
    ensures
        yaml_entries_view(final(m)@) == merge_network(yaml_entries_view(old(m)@), *cfg),
{
    let wants = cfg.static_ip.is_some() || cfg.network.dns_servers.len() > 0;
    if wants || cfg.network.ntp_servers.len() > 0 {
        let mut network = take_section(m, "network");
        if wants {
            map_insert(&mut network, "version", YamlValue::Number(owned("2")));
            map_insert(&mut network, "ethernets", ethernets_section(cfg));
        }
        map_insert(m, "network", YamlValue::Mapping(network));
    }
}

fn merge_storage_apt_exec(m: &mut Vec<YamlEntry>, cfg: &InjectConfig)
    ensures
        yaml_entries_view(final(m)@) == merge_apt(
            merge_storage(yaml_entries_view(old(m)@), *cfg),
            *cfg,
        ),
{
    if let Some(l) = &cfg.storage_layout {
        let mut storage = take_section(m, "storage");
        map_insert(&mut storage, "layout", storage_layout_value(cfg, l));
        map_insert(m, "storage", YamlValue::Mapping(storage));
    }
    if let Some(mi) = &cfg.apt_mirror {
        let mut apt = take_section(m, "apt");
        map_insert(&mut apt, "primary", apt_primary_value(mi));
        map_insert(m, "apt", YamlValue::Mapping(apt));
    }
}

fn merge_lists_exec(m: &mut Vec<YamlEntry>, cfg: &InjectConfig)
    ensures
        yaml_entries_view(final(m)@) == merge_lists(yaml_entries_view(old(m)@), *cfg),
{
    let ghost m0 = yaml_entries_view(m@);
    let mut all = requested_packages_exec(cfg);
    let existing = list_strings_exec(map_get(m, "packages"));
    push_all(&mut all, &existing);
    let pk = sort_dedup_exec(&all);
    set_list_exec(m, "packages", &pk);
    let ghost m1 = yaml_entries_view(m@);
    let mut late = list_strings_exec(map_get(m, "late-commands"));
    let features = match build_feature_late_commands(cfg) {
        Ok(v) => v,
        Err(_) => Vec::new(),
    };
    push_all(&mut late, &features);
    set_list_exec(m, "late-commands", &late);
    if cfg.no_user_interaction {
        let none: Vec<YamlValue> = Vec::new();
        assert(yaml_list_view(none@) =~= Seq::<Yaml>::empty());
        map_insert(m, "interactive-sections", YamlValue::List(none));
    }
}

/// Merge the configuration into the entries of an `autoinstall` mapping.
fn merge_entries_exec(m: &mut Vec<YamlEntry>, cfg: &InjectConfig, pw: &Option<String>)
    ensures
        yaml_entries_view(final(m)@) == merged_entries(yaml_entries_view(old(m)@), *cfg, opt_view(*pw)),
{
    merge_basics_exec(m, cfg);
    merge_identity_exec(m, cfg, pw);
    merge_ssh_exec(m, cfg);
    merge_network_exec(m, cfg);
    merge_storage_apt_exec(m, cfg);
    merge_lists_exec(m, cfg);
}

fn fresh_merged_section(cfg: &InjectConfig, pw: &Option<String>) -> (r: YamlValue)
    ensures
        yv(r) == Yaml::Mapping(merged_entries(Seq::empty(), *cfg, opt_view(*pw))),
{
    let mut ai: Vec<YamlEntry> = Vec::new();
    assert(yaml_entries_view(ai@) =~= Seq::<(Yaml, Yaml)>::empty());
    merge_entries_exec(&mut ai, cfg, pw);
    YamlValue::Mapping(ai)
}

fn fresh_merged_document(cfg: &InjectConfig, pw: &Option<String>) -> (r: YamlValue)
    ensures
        yv(r) == Yaml::Mapping(
            seq![
                entry(
                    "autoinstall"@,
                    Yaml::Mapping(merged_entries(Seq::empty(), *cfg, opt_view(*pw))),
                ),
            ],
        ),
{
    single_entry_map("autoinstall", fresh_merged_section(cfg, pw))
}

fn mapping_error() -> (e: EngineError)
    ensures
        e matches EngineError::Runtime(msg) && msg@ == "autoinstall must be a mapping"@,
{
    EngineError::Runtime(owned("autoinstall must be a mapping"))
}

/// Merge the configuration into a parsed document. `password_hash` is the
/// crypt hash of `cfg.password`, when there is one. Fails exactly when the
/// document's `autoinstall` value is no mapping.
pub fn merge_autoinstall_document(
    root: YamlValue,
    cfg: &InjectConfig,
    password_hash: &Option<String>,
) -> (r: Result<YamlValue, EngineError>)
    ensures
        merge_refused(yv(root)) ==> (r matches Err(e) && e matches EngineError::Runtime(msg)
            && msg@ == "autoinstall must be a mapping"@),
        !merge_refused(yv(root)) ==> (r matches Ok(d) && yv(d) == merged_document(
            yv(root),
            *cfg,
            opt_view(*password_hash),
        )),
{
    let ghost rv = yv(root);
    let (tags, inner) = peel_tags(root);
    proof {
        lemma_wrap_tags(strs(tags@), yv(inner), yv(inner));
    }
    match inner {
        YamlValue::Mapping(mut rm) => {
            let ghost rmv = yaml_entries_view(rm@);
            match find_key_exec(&rm, "autoinstall") {
                Some(i) => {
                    let e = rm.remove(i);
                    let ghost aiv = yv(e.value);
                    assert(aiv == rmv[i as int].1);
                    let (atags, ainner) = peel_tags(e.value);
                    proof {
                        lemma_wrap_tags(strs(atags@), yv(ainner), yv(ainner));
                    }
                    match ainner {
                        YamlValue::Mapping(mut aim) => {
                            let ghost aimv = yaml_entries_view(aim@);
                            merge_entries_exec(&mut aim, cfg, password_hash);
                            let ghost merged = Yaml::Mapping(yaml_entries_view(aim@));
                            proof {
                                lemma_wrap_tags(strs(atags@), Yaml::Mapping(aimv), merged);
                            }
                            let newai = wrap_tags_exec(atags, YamlValue::Mapping(aim));
                            let ghost before_insert = rm@;
                            rm.insert(i, YamlEntry { key: e.key, value: newai });
                            assert(yaml_entries_view(rm@) =~= rmv.update(
                                i as int,
                                (rmv[i as int].0, yv(newai)),
                            ));
                            let ghost outer = Yaml::Mapping(yaml_entries_view(rm@));
                            proof {
                                lemma_wrap_tags(strs(tags@), Yaml::Mapping(rmv), outer);
                            }
                            Ok(wrap_tags_exec(tags, YamlValue::Mapping(rm)))
                        },
                        _ => Err(mapping_error()),
                    }
                },
                None => {
                    let section = fresh_merged_section(cfg, password_hash);
                    map_insert(&mut rm, "autoinstall", section);
                    let ghost outer = Yaml::Mapping(yaml_entries_view(rm@));
                    proof {
                        lemma_wrap_tags(strs(tags@), Yaml::Mapping(rmv), outer);
                    }
                    Ok(wrap_tags_exec(tags, YamlValue::Mapping(rm)))
                },
            }
        },
        _ => Ok(fresh_merged_document(cfg, password_hash)),
    }
}

/// Whether merging into `root` is refused.
pub fn merge_is_refused(root: &YamlValue) -> (b: bool)
    ensures
        b == merge_refused(yv(*root)),
{
    match untagged(root) {
        YamlValue::Mapping(rm) => match map_get(rm, "autoinstall") {
            Some(ai) => match untagged(ai) {
                YamlValue::Mapping(_) => false,
                _ => true,
            },
            None => false,
        },
        _ => false,
    }
}

/// Hash the password (when there is one) and merge the configuration into a
/// parsed document.
pub fn merge_autoinstall(root: YamlValue, cfg: &InjectConfig) -> (r: Result<YamlValue, EngineError>)
    ensures
        merge_refused(yv(root)) ==> (r matches Err(e) && e matches EngineError::Runtime(msg)
            && msg@ == "autoinstall must be a mapping"@),
        !merge_refused(yv(root)) ==> (r matches Ok(d) && exists|pw: Option<Seq<char>>|
            #![trigger merged_document(yv(root), *cfg, pw)]
            (pw is Some <==> cfg.password is Some) && (pw matches Some(h) ==> cfg.password
                matches Some(p) && password_hash_of(h, p@)) && yv(d) == merged_document(
                yv(root),
                *cfg,
                pw,
            )),
{
    if merge_is_refused(&root) {
        return Err(mapping_error());
    }
    let hash = match &cfg.password {
        Some(p) => Some(hash_password(p.as_str())?),
        None => None,
    };
    let ghost rv = yv(root);
    let d = merge_autoinstall_document(root, cfg, &hash);
    match d {
        Ok(x) => {
            assert(yv(x) == merged_document(rv, *cfg, opt_view(hash)));
            Ok(x)
        },
        Err(e) => Err(e),
    }
}

// ---------------------------------------------------------------------------
// What a merge keeps and what it changes
// ---------------------------------------------------------------------------

/// The keys of the `autoinstall` mapping that a merge may set.
pub open spec fn merge_section_key(k: Seq<char>) -> bool {
    k == "locale"@ || k == "timezone"@ || k == "keyboard"@ || k == "identity"@ || k == "ssh"@ || k
        == "network"@ || k == "storage"@ || k == "apt"@ || k == "packages"@ || k == "late-commands"@
        || k == "interactive-sections"@
}

/// The section and field names differ from one another.
proof fn lemma_key_literals()
    ensures
        "identity"@ != "locale"@,
        "identity"@ != "timezone"@,
        "identity"@ != "keyboard"@,
        "identity"@ != "ssh"@,
        "identity"@ != "network"@,
        "identity"@ != "storage"@,
        "identity"@ != "apt"@,
        "identity"@ != "packages"@,
        "identity"@ != "late-commands"@,
        "identity"@ != "interactive-sections"@,
        "packages"@ != "ssh"@,
        "packages"@ != "network"@,
        "packages"@ != "storage"@,
        "packages"@ != "apt"@,
        "packages"@ != "late-commands"@,
        "packages"@ != "interactive-sections"@,
        "packages"@ != "locale"@,
        "packages"@ != "timezone"@,
        "packages"@ != "keyboard"@,
        "packages"@ != "identity"@,
        "late-commands"@ != "ssh"@,
        "late-commands"@ != "network"@,
        "late-commands"@ != "storage"@,
        "late-commands"@ != "apt"@,
        "late-commands"@ != "interactive-sections"@,
        "late-commands"@ != "locale"@,
        "late-commands"@ != "timezone"@,
        "late-commands"@ != "keyboard"@,
        "late-commands"@ != "identity"@,
        "hostname"@ != "username"@,
        "hostname"@ != "password"@,
        "hostname"@ != "realname"@,
        "username"@ != "password"@,
        "username"@ != "realname"@,
{
    reveal_strlit("apt");
    reveal_strlit("hostname");
    reveal_strlit("identity");
    reveal_strlit("interactive-sections");
    reveal_strlit("keyboard");
    reveal_strlit("late-commands");
    reveal_strlit("locale");
    reveal_strlit("network");
    reveal_strlit("packages");
    reveal_strlit("password");
    reveal_strlit("realname");
    reveal_strlit("ssh");
    reveal_strlit("storage");
    reveal_strlit("timezone");
    reveal_strlit("username");
    assert("identity"@[0] != "locale"@[0] || "identity"@.len() != "locale"@.len() || "identity"@[1] != "locale"@[1]);
    assert("identity"@[0] != "timezone"@[0] || "identity"@.len() != "timezone"@.len() || "identity"@[1] != "timezone"@[1]);
    assert("identity"@[0] != "keyboard"@[0] || "identity"@.len() != "keyboard"@.len() || "identity"@[1] != "keyboard"@[1]);
    assert("identity"@[0] != "ssh"@[0] || "identity"@.len() != "ssh"@.len() || "identity"@[1] != "ssh"@[1]);
    assert("identity"@[0] != "network"@[0] || "identity"@.len() != "network"@.len() || "identity"@[1] != "network"@[1]);
    assert("identity"@[0] != "storage"@[0] || "identity"@.len() != "storage"@.len() || "identity"@[1] != "storage"@[1]);
    assert("identity"@[0] != "apt"@[0] || "identity"@.len() != "apt"@.len() || "identity"@[1] != "apt"@[1]);
    assert("identity"@[0] != "packages"@[0] || "identity"@.len() != "packages"@.len() || "identity"@[1] != "packages"@[1]);
    assert("identity"@[0] != "late-commands"@[0] || "identity"@.len() != "late-commands"@.len() || "identity"@[1] != "late-commands"@[1]);
    assert("identity"@[0] != "interactive-sections"@[0] || "identity"@.len() != "interactive-sections"@.len() || "identity"@[1] != "interactive-sections"@[1]);
    assert("packages"@[0] != "ssh"@[0] || "packages"@.len() != "ssh"@.len() || "packages"@[1] != "ssh"@[1]);
    assert("packages"@[0] != "network"@[0] || "packages"@.len() != "network"@.len() || "packages"@[1] != "network"@[1]);
    assert("packages"@[0] != "storage"@[0] || "packages"@.len() != "storage"@.len() || "packages"@[1] != "storage"@[1]);
    assert("packages"@[0] != "apt"@[0] || "packages"@.len() != "apt"@.len() || "packages"@[1] != "apt"@[1]);
    assert("packages"@[0] != "late-commands"@[0] || "packages"@.len() != "late-commands"@.len() || "packages"@[1] != "late-commands"@[1]);
    assert("packages"@[0] != "interactive-sections"@[0] || "packages"@.len() != "interactive-sections"@.len() || "packages"@[1] != "interactive-sections"@[1]);
    assert("packages"@[0] != "locale"@[0] || "packages"@.len() != "locale"@.len() || "packages"@[1] != "locale"@[1]);
    assert("packages"@[0] != "timezone"@[0] || "packages"@.len() != "timezone"@.len() || "packages"@[1] != "timezone"@[1]);
    assert("packages"@[0] != "keyboard"@[0] || "packages"@.len() != "keyboard"@.len() || "packages"@[1] != "keyboard"@[1]);
    assert("packages"@[0] != "identity"@[0] || "packages"@.len() != "identity"@.len() || "packages"@[1] != "identity"@[1]);
    assert("late-commands"@[0] != "ssh"@[0] || "late-commands"@.len() != "ssh"@.len() || "late-commands"@[1] != "ssh"@[1]);
    assert("late-commands"@[0] != "network"@[0] || "late-commands"@.len() != "network"@.len() || "late-commands"@[1] != "network"@[1]);
    assert("late-commands"@[0] != "storage"@[0] || "late-commands"@.len() != "storage"@.len() || "late-commands"@[1] != "storage"@[1]);
    assert("late-commands"@[0] != "apt"@[0] || "late-commands"@.len() != "apt"@.len() || "late-commands"@[1] != "apt"@[1]);
    assert("late-commands"@[0] != "interactive-sections"@[0] || "late-commands"@.len() != "interactive-sections"@.len() || "late-commands"@[1] != "interactive-sections"@[1]);
    assert("late-commands"@[0] != "locale"@[0] || "late-commands"@.len() != "locale"@.len() || "late-commands"@[1] != "locale"@[1]);
    assert("late-commands"@[0] != "timezone"@[0] || "late-commands"@.len() != "timezone"@.len() || "late-commands"@[1] != "timezone"@[1]);
    assert("late-commands"@[0] != "keyboard"@[0] || "late-commands"@.len() != "keyboard"@.len() || "late-commands"@[1] != "keyboard"@[1]);
    assert("late-commands"@[0] != "identity"@[0] || "late-commands"@.len() != "identity"@.len() || "late-commands"@[1] != "identity"@[1]);
    assert("hostname"@[0] != "username"@[0] || "hostname"@.len() != "username"@.len() || "hostname"@[1] != "username"@[1]);
    assert("hostname"@[0] != "password"@[0] || "hostname"@.len() != "password"@.len() || "hostname"@[1] != "password"@[1]);
    assert("hostname"@[0] != "realname"@[0] || "hostname"@.len() != "realname"@.len() || "hostname"@[1] != "realname"@[1]);
    assert("username"@[0] != "password"@[0] || "username"@.len() != "password"@.len() || "username"@[1] != "password"@[1]);
    assert("username"@[0] != "realname"@[0] || "username"@.len() != "realname"@.len() || "username"@[1] != "realname"@[1]);
}

/// The locale and time zone keys differ from the section keys.
proof fn lemma_basic_key_literals()
    ensures
        "locale"@ != "timezone"@,
        "locale"@ != "keyboard"@,
        "locale"@ != "ssh"@,
        "locale"@ != "network"@,
        "locale"@ != "storage"@,
        "locale"@ != "apt"@,
        "locale"@ != "interactive-sections"@,
        "timezone"@ != "keyboard"@,
        "timezone"@ != "ssh"@,
        "timezone"@ != "network"@,
        "timezone"@ != "storage"@,
        "timezone"@ != "apt"@,
        "timezone"@ != "interactive-sections"@,
{
    reveal_strlit("locale");
    reveal_strlit("timezone");
    reveal_strlit("keyboard");
    reveal_strlit("ssh");
    reveal_strlit("network");
    reveal_strlit("storage");
    reveal_strlit("apt");
    reveal_strlit("interactive-sections");
    assert("locale"@[0] != "timezone"@[0]);
    assert("locale"@[0] != "keyboard"@[0]);
    assert("locale"@[0] != "ssh"@[0]);
    assert("locale"@[0] != "network"@[0]);
    assert("locale"@[0] != "storage"@[0]);
    assert("locale"@[0] != "apt"@[0]);
    assert("locale"@[0] != "interactive-sections"@[0]);
    assert("timezone"@[0] != "keyboard"@[0]);
    assert("timezone"@[0] != "ssh"@[0]);
    assert("timezone"@[0] != "network"@[0]);
    assert("timezone"@[0] != "storage"@[0]);
    assert("timezone"@[0] != "apt"@[0]);
    assert("timezone"@[0] != "interactive-sections"@[0]);
}

proof fn lemma_resection(m: Seq<(Yaml, Yaml)>, k: Seq<char>, e: Seq<(Yaml, Yaml)>, k2: Seq<char>)
    requires
        keys_distinct(m),
    ensures
        keys_distinct(resection(m, k, e)),
        mget(resection(m, k, e), k2) == (if k2 == k {
            Some(Yaml::Mapping(e))
        } else {
            mget(m, k2)
        }),
{
    lemma_mremove_get(m, k, k2);
    lemma_minsert_get(mremove(m, k), k, Yaml::Mapping(e), k2);
    lemma_minsert_distinct(mremove(m, k), k, Yaml::Mapping(e));
}

proof fn lemma_set_str(m: Seq<(Yaml, Yaml)>, k: Seq<char>, o: Option<String>, k2: Seq<char>)
    ensures
        keys_distinct(m) ==> keys_distinct(set_str(m, k, o)),
        mget(set_str(m, k, o), k2) == (if k2 == k && o is Some {
            Some(Yaml::Str(o.unwrap()@))
        } else {
            mget(m, k2)
        }),
{
    if let Some(v) = o {
        lemma_minsert_get(m, k, Yaml::Str(v@), k2);
        if keys_distinct(m) {
            lemma_minsert_distinct(m, k, Yaml::Str(v@));
        }
    }
}

proof fn lemma_set_list(m: Seq<(Yaml, Yaml)>, k: Seq<char>, l: Seq<Seq<char>>, k2: Seq<char>)
    ensures
        keys_distinct(m) ==> keys_distinct(set_list(m, k, l)),
        mget(set_list(m, k, l), k2) == (if k2 == k && l.len() > 0 {
            Some(ylist_of_strs(l))
        } else {
            mget(m, k2)
        }),
{
    if l.len() > 0 {
        lemma_minsert_get(m, k, ylist_of_strs(l), k2);
        if keys_distinct(m) {
            lemma_minsert_distinct(m, k, ylist_of_strs(l));
        }
    }
}

proof fn lemma_merge_head(m: Seq<(Yaml, Yaml)>, cfg: InjectConfig, pw: Option<Seq<char>>, k2: Seq<char>)
    requires
        keys_distinct(m),
    ensures
        keys_distinct(merge_identity(merge_basics(m, cfg), cfg, pw)),
        !merge_section_key(k2) || k2 == "packages"@ || k2 == "late-commands"@ ==> mget(
            merge_identity(merge_basics(m, cfg), cfg, pw),
            k2,
        ) == mget(m, k2),
        mget(merge_identity(merge_basics(m, cfg), cfg, pw), "identity"@) == (if has_identity(cfg) {
            Some(
                Yaml::Mapping(
                    merged_identity(section_of(merge_basics(m, cfg), "identity"@), cfg, pw),
                ),
            )
        } else {
            mget(m, "identity"@)
        }),
{
    lemma_key_literals();
    let m1 = set_str(m, "locale"@, cfg.locale);
    let m2 = set_str(m1, "timezone"@, cfg.timezone);
    lemma_set_str(m, "locale"@, cfg.locale, k2);
    lemma_set_str(m1, "timezone"@, cfg.timezone, k2);
    lemma_set_str(m, "locale"@, cfg.locale, "identity"@);
    lemma_set_str(m1, "timezone"@, cfg.timezone, "identity"@);
    let m3 = merge_basics(m, cfg);
    if let Some(kb) = cfg.keyboard_layout {
        let e = minsert(section_of(m2, "keyboard"@), "layout"@, Yaml::Str(kb@));
        lemma_resection(m2, "keyboard"@, e, k2);
        lemma_resection(m2, "keyboard"@, e, "identity"@);
    }
    if has_identity(cfg) {
        let e = merged_identity(section_of(m3, "identity"@), cfg, pw);
        lemma_resection(m3, "identity"@, e, k2);
        lemma_resection(m3, "identity"@, e, "identity"@);
    }
}

proof fn lemma_merge_middle(m: Seq<(Yaml, Yaml)>, cfg: InjectConfig, k2: Seq<char>)
    requires
        keys_distinct(m),
    ensures
        keys_distinct(merge_apt(merge_storage(merge_network(merge_ssh(m, cfg), cfg), cfg), cfg)),
        !merge_section_key(k2) || k2 == "identity"@ || k2 == "packages"@ || k2 == "late-commands"@
            || k2 == "locale"@ || k2 == "timezone"@ ==> mget(
            merge_apt(merge_storage(merge_network(merge_ssh(m, cfg), cfg), cfg), cfg),
            k2,
        ) == mget(m, k2),
{
    lemma_key_literals();
    lemma_basic_key_literals();
    let a = merge_ssh(m, cfg);
    if touches_ssh(cfg) {
        lemma_resection(m, "ssh"@, merged_ssh(section_of(m, "ssh"@), cfg), k2);
    }
    let b = merge_network(a, cfg);
    if touches_network(cfg) {
        lemma_resection(a, "network"@, merged_network(section_of(a, "network"@), cfg), k2);
    }
    let c = merge_storage(b, cfg);
    if let Some(l) = cfg.storage_layout {
        lemma_resection(
            b,
            "storage"@,
            minsert(
                section_of(b, "storage"@),
                "layout"@,
                Yaml::Mapping(storage_layout_entries(cfg, l@)),
            ),
            k2,
        );
    }
    if let Some(mi) = cfg.apt_mirror {
        lemma_resection(c, "apt"@, minsert(section_of(c, "apt"@), "primary"@, apt_primary(mi@)), k2);
    }
}

proof fn lemma_merge_lists(m: Seq<(Yaml, Yaml)>, cfg: InjectConfig, k2: Seq<char>)
    requires
        keys_distinct(m),
    ensures
        keys_distinct(merge_lists(m, cfg)),
        k2 != "packages"@ && k2 != "late-commands"@ && k2 != "interactive-sections"@ ==> mget(
            merge_lists(m, cfg),
            k2,
        ) == mget(m, k2),
        merged_late_commands(m, cfg).len() > 0 ==> mget(merge_lists(m, cfg), "late-commands"@)
            == Some(ylist_of_strs(merged_late_commands(m, cfg))),
        merged_packages(m, cfg).len() > 0 ==> mget(merge_lists(m, cfg), "packages"@) == Some(
            ylist_of_strs(merged_packages(m, cfg)),
        ),
{
    lemma_key_literals();
    let a = set_list(m, "packages"@, merged_packages(m, cfg));
    lemma_set_list(m, "packages"@, merged_packages(m, cfg), k2);
    lemma_set_list(m, "packages"@, merged_packages(m, cfg), "late-commands"@);
    lemma_set_list(m, "packages"@, merged_packages(m, cfg), "packages"@);
    assert(merged_late_commands(a, cfg) == merged_late_commands(m, cfg));
    let b = set_list(a, "late-commands"@, merged_late_commands(a, cfg));
    lemma_set_list(a, "late-commands"@, merged_late_commands(a, cfg), k2);
    lemma_set_list(a, "late-commands"@, merged_late_commands(a, cfg), "late-commands"@);
    lemma_set_list(a, "late-commands"@, merged_late_commands(a, cfg), "packages"@);
    if cfg.no_user_interaction {
        lemma_minsert_get(b, "interactive-sections"@, Yaml::List(Seq::empty()), k2);
        lemma_minsert_get(b, "interactive-sections"@, Yaml::List(Seq::empty()), "late-commands"@);
        lemma_minsert_get(b, "interactive-sections"@, Yaml::List(Seq::empty()), "packages"@);
        lemma_minsert_distinct(b, "interactive-sections"@, Yaml::List(Seq::empty()));
    }
}

/// A merge leaves every entry of the `autoinstall` mapping under a key it
/// does not set as it was, and keeps the keys distinct.
pub proof fn law_merge_keeps_other_entries(
    m: Seq<(Yaml, Yaml)>,
    cfg: InjectConfig,
    pw: Option<Seq<char>>,
    k: Seq<char>,
)
    requires
        keys_distinct(m),
        !merge_section_key(k),
    ensures
        keys_distinct(merged_entries(m, cfg, pw)),
        mget(merged_entries(m, cfg, pw), k) == mget(m, k),
{
    lemma_key_literals();
    let h = merge_identity(merge_basics(m, cfg), cfg, pw);
    lemma_merge_head(m, cfg, pw, k);
    let mid = merge_apt(merge_storage(merge_network(merge_ssh(h, cfg), cfg), cfg), cfg);
    lemma_merge_middle(h, cfg, k);
    lemma_merge_lists(mid, cfg, k);
}

/// A merge sets the given locale and time zone, replacing what was there,
/// and leaves each as it was when none is given.
pub proof fn law_merge_sets_locale_and_timezone(
    m: Seq<(Yaml, Yaml)>,
    cfg: InjectConfig,
    pw: Option<Seq<char>>,
)
    requires
        keys_distinct(m),
    ensures
        cfg.timezone matches Some(t) ==> mget(merged_entries(m, cfg, pw), "timezone"@) == Some(
            Yaml::Str(t@),
        ),
        cfg.locale matches Some(l) ==> mget(merged_entries(m, cfg, pw), "locale"@) == Some(
            Yaml::Str(l@),
        ),
        cfg.timezone is None ==> mget(merged_entries(m, cfg, pw), "timezone"@) == mget(
            m,
            "timezone"@,
        ),
        cfg.locale is None ==> mget(merged_entries(m, cfg, pw), "locale"@) == mget(m, "locale"@),
{
    lemma_key_literals();
    lemma_basic_key_literals();
    let m1 = set_str(m, "locale"@, cfg.locale);
    let m2 = set_str(m1, "timezone"@, cfg.timezone);
    lemma_set_str(m, "locale"@, cfg.locale, "locale"@);
    lemma_set_str(m, "locale"@, cfg.locale, "timezone"@);
    lemma_set_str(m1, "timezone"@, cfg.timezone, "locale"@);
    lemma_set_str(m1, "timezone"@, cfg.timezone, "timezone"@);
    if let Some(kb) = cfg.keyboard_layout {
        let e = minsert(section_of(m2, "keyboard"@), "layout"@, Yaml::Str(kb@));
        lemma_resection(m2, "keyboard"@, e, "locale"@);
        lemma_resection(m2, "keyboard"@, e, "timezone"@);
    }
    let m3 = merge_basics(m, cfg);
    if has_identity(cfg) {
        let e = merged_identity(section_of(m3, "identity"@), cfg, pw);
        lemma_resection(m3, "identity"@, e, "locale"@);
        lemma_resection(m3, "identity"@, e, "timezone"@);
    }
    let h = merge_identity(m3, cfg, pw);
    lemma_merge_head(m, cfg, pw, "locale"@);
    lemma_merge_middle(h, cfg, "locale"@);
    lemma_merge_middle(h, cfg, "timezone"@);
    let mid = merge_apt(merge_storage(merge_network(merge_ssh(h, cfg), cfg), cfg), cfg);
    lemma_merge_lists(mid, cfg, "locale"@);
    lemma_merge_lists(mid, cfg, "timezone"@);
}

/// With identity fields given, the merged `identity` section is the existing
/// one with each given field set: the given hostname, username, password
/// hash and real name replace the old ones, the other fields stay.
pub proof fn law_merge_overrides_identity(
    m: Seq<(Yaml, Yaml)>,
    cfg: InjectConfig,
    pw: Option<Seq<char>>,
    k: Seq<char>,
)
    requires
        keys_distinct(m),
        has_identity(cfg),
    ensures
        mget(merged_entries(m, cfg, pw), "identity"@) == Some(
            Yaml::Mapping(merged_identity(section_of(merge_basics(m, cfg), "identity"@), cfg, pw)),
        ),
        cfg.hostname matches Some(h) ==> mget(
            merged_identity(section_of(merge_basics(m, cfg), "identity"@), cfg, pw),
            "hostname"@,
        ) == Some(Yaml::Str(h@)),
        cfg.username matches Some(u) ==> mget(
            merged_identity(section_of(merge_basics(m, cfg), "identity"@), cfg, pw),
            "username"@,
        ) == Some(Yaml::Str(u@)),
        k != "hostname"@ && k != "username"@ && k != "password"@ && k != "realname"@ ==> mget(
            merged_identity(section_of(merge_basics(m, cfg), "identity"@), cfg, pw),
            k,
        ) == mget(section_of(merge_basics(m, cfg), "identity"@), k),
{
    lemma_key_literals();
    let h = merge_identity(merge_basics(m, cfg), cfg, pw);
    lemma_merge_head(m, cfg, pw, "identity"@);
    let mid = merge_apt(merge_storage(merge_network(merge_ssh(h, cfg), cfg), cfg), cfg);
    lemma_merge_middle(h, cfg, "identity"@);
    lemma_merge_lists(mid, cfg, "identity"@);
    let base = section_of(merge_basics(m, cfg), "identity"@);
    let a = set_str(base, "hostname"@, cfg.hostname);
    let b = set_str(a, "username"@, cfg.username);
    let c = match pw {
        Some(x) => minsert(b, "password"@, Yaml::Str(x)),
        None => b,
    };
    lemma_set_str(base, "hostname"@, cfg.hostname, "hostname"@);
    lemma_set_str(a, "username"@, cfg.username, "hostname"@);
    lemma_set_str(a, "username"@, cfg.username, "username"@);
    lemma_set_str(base, "hostname"@, cfg.hostname, k);
    lemma_set_str(a, "username"@, cfg.username, k);
    if let Some(x) = pw {
        lemma_minsert_get(b, "password"@, Yaml::Str(x), "hostname"@);
        lemma_minsert_get(b, "password"@, Yaml::Str(x), "username"@);
        lemma_minsert_get(b, "password"@, Yaml::Str(x), k);
    }
    lemma_set_str(c, "realname"@, cfg.realname, "hostname"@);
    lemma_set_str(c, "realname"@, cfg.realname, "username"@);
    lemma_set_str(c, "realname"@, cfg.realname, k);
}

/// The merged late-commands are the string commands already there, in their
/// order, followed by the feature commands; the merged packages are the
/// requested and the existing ones, sorted, without repeats.
pub proof fn law_merge_appends_late_commands(
    m: Seq<(Yaml, Yaml)>,
    cfg: InjectConfig,
    pw: Option<Seq<char>>,
)
    requires
        keys_distinct(m),
    ensures
        merged_late_commands(m, cfg).len() > 0 ==> mget(
            merged_entries(m, cfg, pw),
            "late-commands"@,
        ) == Some(
            ylist_of_strs(list_strings(mget(m, "late-commands"@)) + feature_late_commands(cfg)),
        ),
        merged_packages(m, cfg).len() > 0 ==> mget(merged_entries(m, cfg, pw), "packages"@) == Some(
            ylist_of_strs(
                sort_dedup(requested_packages(cfg) + list_strings(mget(m, "packages"@))),
            ),
        ),
{
    lemma_key_literals();
    let h = merge_identity(merge_basics(m, cfg), cfg, pw);
    lemma_merge_head(m, cfg, pw, "late-commands"@);
    lemma_merge_head(m, cfg, pw, "packages"@);
    let mid = merge_apt(merge_storage(merge_network(merge_ssh(h, cfg), cfg), cfg), cfg);
    lemma_merge_middle(h, cfg, "late-commands"@);
    lemma_merge_middle(h, cfg, "packages"@);
    lemma_merge_lists(mid, cfg, "late-commands"@);
    assert(merged_late_commands(mid, cfg) == merged_late_commands(m, cfg));
    assert(merged_packages(mid, cfg) == merged_packages(m, cfg));
}

proof fn lemma_untag_replace(v: Yaml, inner: Yaml)
    ensures
        untag(replace_untagged(v, inner)) == untag(inner),
    decreases v,
{
    if let Yaml::Tagged(_, b) = v {
        lemma_untag_replace(*b, inner);
    }
}

/// A merge into a mapping document keeps every top-level entry other than
/// `autoinstall` as it was, and leaves an `autoinstall` mapping in it.
pub proof fn law_merge_keeps_top_level(root: Yaml, cfg: InjectConfig, pw: Option<Seq<char>>, k: Seq<char>)
    requires
        as_mapping(root) is Some,
        !merge_refused(root),
        k != "autoinstall"@,
    ensures
        as_mapping(merged_document(root, cfg, pw)) is Some,
        mget(as_mapping(merged_document(root, cfg, pw)).unwrap(), k) == mget(
            as_mapping(root).unwrap(),
            k,
        ),
        mget(as_mapping(merged_document(root, cfg, pw)).unwrap(), "autoinstall"@) is Some,
        as_mapping(
            mget(as_mapping(merged_document(root, cfg, pw)).unwrap(), "autoinstall"@).unwrap(),
        ) is Some,
{
    let rm = as_mapping(root).unwrap();
    let section = Yaml::Mapping(merged_entries(Seq::empty(), cfg, pw));
    match mget(rm, "autoinstall"@) {
        Some(ai) => {
            let aim = as_mapping(ai).unwrap();
            let newai = replace_untagged(ai, Yaml::Mapping(merged_entries(aim, cfg, pw)));
            let m2 = minsert(rm, "autoinstall"@, newai);
            lemma_untag_replace(root, Yaml::Mapping(m2));
            lemma_untag_replace(ai, Yaml::Mapping(merged_entries(aim, cfg, pw)));
            lemma_minsert_get(rm, "autoinstall"@, newai, k);
            lemma_minsert_get(rm, "autoinstall"@, newai, "autoinstall"@);
        },
        None => {
            let m2 = minsert(rm, "autoinstall"@, section);
            lemma_untag_replace(root, Yaml::Mapping(m2));
            lemma_minsert_get(rm, "autoinstall"@, section, k);
            lemma_minsert_get(rm, "autoinstall"@, section, "autoinstall"@);
        },
    }
}

proof fn lemma_ssh_key_literals()
    ensures
        "authorized-keys"@ != "allow-pw"@,
        "authorized-keys"@ != "install-server"@,
{
    reveal_strlit("authorized-keys");
    reveal_strlit("allow-pw");
    reveal_strlit("install-server");
    assert("authorized-keys"@[1] != "allow-pw"@[1]);
    assert("authorized-keys"@[0] != "install-server"@[0]);
}

/// With keys given, the merged ssh section lists the keys already there
/// followed by the given ones, each key once: every old and every new key
/// is kept, and none appears twice.
pub proof fn law_merge_merges_ssh_keys(base: Seq<(Yaml, Yaml)>, cfg: InjectConfig)
    requires
        cfg.ssh.authorized_keys@.len() > 0,
    ensures
        mget(merged_ssh(base, cfg), "authorized-keys"@) == Some(ylist_of_strs(merged_keys(base, cfg))),
        no_repeats(merged_keys(base, cfg)),
        forall|key: Seq<char>|
            #[trigger] merged_keys(base, cfg).contains(key) <==> (list_strings(
                mget(base, "authorized-keys"@),
            ).contains(key) || strs(cfg.ssh.authorized_keys@).contains(key)),
{
    lemma_ssh_key_literals();
    let old_keys = list_strings(mget(base, "authorized-keys"@));
    let new_keys = strs(cfg.ssh.authorized_keys@);
    let all = old_keys + new_keys;
    law_dedup_keep_first(all);
    let a = minsert(base, "authorized-keys"@, ylist_of_strs(merged_keys(base, cfg)));
    lemma_minsert_get(base, "authorized-keys"@, ylist_of_strs(merged_keys(base, cfg)), "authorized-keys"@);
    let b = set_bool(a, "allow-pw"@, cfg.ssh.allow_password_auth);
    if let Some(x) = cfg.ssh.allow_password_auth {
        lemma_minsert_get(a, "allow-pw"@, Yaml::Bool(x), "authorized-keys"@);
    }
    if let Some(x) = cfg.ssh.install_server {
        lemma_minsert_get(b, "install-server"@, Yaml::Bool(x), "authorized-keys"@);
    }
    assert forall|key: Seq<char>| all.contains(key) <==> (old_keys.contains(key)
        || new_keys.contains(key)) by {
        if old_keys.contains(key) {
            let i = choose|i: int| 0 <= i < old_keys.len() && old_keys[i] == key;
            assert(all[i] == key);
        }
        if new_keys.contains(key) {
            let i = choose|i: int| 0 <= i < new_keys.len() && new_keys[i] == key;
            assert(all[old_keys.len() + i] == key);
        }
        if all.contains(key) {
            let i = choose|i: int| 0 <= i < all.len() && all[i] == key;
            if i < old_keys.len() {
                assert(old_keys[i] == key);
            } else {
                assert(new_keys[i - old_keys.len()] == key);
            }
        }
    }
}

/// The kept lines of a rendered document: all but the `cloud-config:`
/// placeholder lines.
pub open spec fn kept_lines(l: Seq<Seq<char>>) -> Seq<Seq<char>>
    decreases l.len(),
{
    if l.len() == 0 {
        Seq::empty()
    } else if contains_seq(l.last(), "cloud-config:"@) {
        kept_lines(l.drop_last())
    } else {
        kept_lines(l.drop_last()).push(l.last())
    }
}

/// A rendered generated document keeps no `cloud-config:` placeholder
/// line.
pub proof fn law_generated_yaml_drops_placeholder(l: Seq<Seq<char>>)
    ensures
        forall|i: int|
            0 <= i < kept_lines(l).len() ==> !contains_seq(#[trigger] kept_lines(l)[i], "cloud-config:"@),
    decreases l.len(),
{
    if l.len() > 0 {
        law_generated_yaml_drops_placeholder(l.drop_last());
        let r = kept_lines(l.drop_last());
        assert forall|i: int| 0 <= i < kept_lines(l).len() implies !contains_seq(
            #[trigger] kept_lines(l)[i],
            "cloud-config:"@,
        ) by {
            if i < r.len() {
                assert(kept_lines(l)[i] == r[i]);
            }
        }
    }
}

/// The text of a generated document from its rendering: the `#cloud-config`
/// header, then the rendered lines without the placeholder.
pub fn finish_generated_yaml(rendered: &str) -> (r: String)
    ensures
        r@ == "#cloud-config\n"@ + join(kept_lines(lines_of(rendered@)), "\n"@),
{
    let lines = lines_exec(rendered);
    let ghost l = strs(lines@);
    let mut kept: Vec<String> = Vec::new();
    let mut i: usize = 0;
    while i < lines.len()
        invariant
            i <= lines@.len(),
            l == strs(lines@),
            strs(kept@) == kept_lines(l.take(i as int)),
        decreases lines.len() - i,
    {
        assert(l.take(i + 1).drop_last() =~= l.take(i as int));
        if !contains(lines[i].as_str(), "cloud-config:") {
            push_line(&mut kept, lines[i].clone());
        }
        i = i + 1;
    }
    assert(l.take(lines@.len() as int) =~= l);
    let body = join_strings(&kept, "\n");
    cat("#cloud-config\n", body.as_str())
}

/// The text of a merged document from its rendering: the `#cloud-config`
/// header is kept when the existing text had it.
pub fn finish_merged_yaml(existing: &str, rendered: &str) -> (r: String)
    ensures
        has_prefix(existing@, "#cloud-config"@) ==> r@ == "#cloud-config\n"@ + rendered@,
        !has_prefix(existing@, "#cloud-config"@) ==> r@ == rendered@,
{
    if starts_with(existing, "#cloud-config") {
        cat("#cloud-config\n", rendered)
    } else {
        owned(rendered)
    }
}

} // verus!

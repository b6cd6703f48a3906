//! Container runtime selection and `run` command lines.

use vstd::prelude::*;
use crate::error::EngineError;
pub use crate::orchestrator::CommandOutput;
use crate::orchestrator::tool_on_path;
use crate::text::{cat, cat3, decimal, decimal_string, owned, parse_unsigned, parse_unsigned_exec, push_line, strs};

verus! {

/// Which container runtime to try first.
#[derive(Clone, Copy, Debug, PartialEq, Eq, Structural)]
pub enum RuntimePreference {
    Docker,
    Podman,
}

/// One container run. `env` is kept in key order; `mounts` are host and
/// container paths.
#[derive(Clone, Debug)]
pub struct ContainerRunSpec {
    pub image: String,
    pub args: Vec<String>,
    pub env: Vec<(String, String)>,
    pub mounts: Vec<(String, String)>,
    pub workdir: Option<String>,
    pub uid_gid_map: Option<(u32, u32)>,
    pub timeout_seconds: u64,
}

/// The timeout of a run that sets none: one hour.
pub fn default_timeout_seconds() -> (r: u64)
    ensures
        r == 3600,
{
    3600
}

#[derive(Clone, Debug)]
pub struct RuntimeManager {
    pub preference: RuntimePreference,
}

/// The runtime chosen: the preferred one when it is there, else the other;
/// `None` when neither is.
pub open spec fn runtime_choice(pref: RuntimePreference, docker: bool, podman: bool) -> Option<Seq<char>> {
    match pref {
        RuntimePreference::Docker => if docker {
            Some("docker"@)
        } else if podman {
            Some("podman"@)
        } else {
            None
        },
        RuntimePreference::Podman => if podman {
            Some("podman"@)
        } else if docker {
            Some("docker"@)
        } else {
            None
        },
    }
}

impl RuntimeManager {
    pub fn new(preference: RuntimePreference) -> (r: RuntimeManager)
        ensures
            r.preference == preference,
    {
        RuntimeManager { preference }
    }

    /// The runtime to use, given which runtimes are installed.
    pub fn select_binary(&self, docker: bool, podman: bool) -> (r: Result<String, EngineError>)
        ensures
            match runtime_choice(self.preference, docker, podman) {
                Some(b) => r matches Ok(x) && x@ == b,
                None => r matches Err(EngineError::MissingTool(m)) && m@
                    == "neither docker nor podman is available"@,
            },
    {
        let first = match self.preference {
            RuntimePreference::Docker => docker,
            RuntimePreference::Podman => podman,
        };
        let second = match self.preference {
            RuntimePreference::Docker => podman,
            RuntimePreference::Podman => docker,
        };
        if first {
            match self.preference {
                RuntimePreference::Docker => Ok(owned("docker")),
                RuntimePreference::Podman => Ok(owned("podman")),
            }
        } else if second {
            match self.preference {
                RuntimePreference::Docker => Ok(owned("podman")),
                RuntimePreference::Podman => Ok(owned("docker")),
            }
        } else {
            Err(EngineError::MissingTool(owned("neither docker nor podman is available")))
        }
    }

    /// The runtime to use, looked up on the `PATH`.
    pub fn selected_binary(&self) -> (r: Result<String, EngineError>)
        ensures
            exists|docker: bool, podman: bool|
                match #[trigger] runtime_choice(self.preference, docker, podman) {
                    Some(b) => r matches Ok(x) && x@ == b,
                    None => r matches Err(EngineError::MissingTool(m)) && m@
                        == "neither docker nor podman is available"@,
                },
    {
        let docker = tool_on_path("docker");
        let podman = tool_on_path("podman");
        self.select_binary(docker, podman)
    }
}

pub open spec fn pair_text(a: Seq<char>, sep: Seq<char>, b: Seq<char>) -> Seq<char> {
    a + sep + b
}

/// `-v host:container` for each mount.
pub open spec fn mount_args(m: Seq<(String, String)>) -> Seq<Seq<char>>
    decreases m.len(),
{
    if m.len() == 0 {
        Seq::empty()
    } else {
        mount_args(m.drop_last()) + seq!["-v"@, pair_text(m.last().0@, ":"@, m.last().1@)]
    }
}

/// `-e key=value` for each variable.
pub open spec fn env_args(e: Seq<(String, String)>) -> Seq<Seq<char>>
    decreases e.len(),
{
    if e.len() == 0 {
        Seq::empty()
    } else {
        env_args(e.drop_last()) + seq!["-e"@, pair_text(e.last().0@, "="@, e.last().1@)]
    }
}

/// The arguments of the runtime's `run` for a spec.
pub open spec fn run_arg_list(s: ContainerRunSpec) -> Seq<Seq<char>> {
    seq!["run"@, "--rm"@] + (match s.uid_gid_map {
        Some((u, g)) => seq!["--user"@, decimal(u as nat) + ":"@ + decimal(g as nat)],
        None => Seq::empty(),
    }) + mount_args(s.mounts@) + (match s.workdir {
        Some(w) => seq!["-w"@, w@],
        None => Seq::empty(),
    }) + env_args(s.env@) + seq![s.image@] + strs(s.args@)
}

fn push_pairs(out: &mut Vec<String>, flag: &str, sep: &str, pairs: &Vec<(String, String)>)
    requires
        flag@ == "-v"@ && sep@ == ":"@ || flag@ == "-e"@ && sep@ == "="@,
    ensures
        flag@ == "-v"@ ==> strs(final(out)@) == strs(old(out)@) + mount_args(pairs@),
        flag@ == "-e"@ ==> strs(final(out)@) == strs(old(out)@) + env_args(pairs@),
{
    let ghost start = strs(out@);
    let mut i: usize = 0;
    assert(pairs@.take(0) =~= Seq::<(String, String)>::empty());
    assert(start + Seq::<Seq<char>>::empty() =~= start);
    while i < pairs.len()
        invariant
            i <= pairs@.len(),
            flag@ == "-v"@ && sep@ == ":"@ || flag@ == "-e"@ && sep@ == "="@,
            flag@ == "-v"@ ==> strs(out@) == start + mount_args(pairs@.take(i as int)),
            flag@ == "-e"@ ==> strs(out@) == start + env_args(pairs@.take(i as int)),
        decreases pairs.len() - i,
    {
        proof {
            reveal_strlit("-v");
            reveal_strlit("-e");
            assert("-v"@[1] != "-e"@[1]);
        }
        let ghost before = strs(out@);
        assert(pairs@.take(i + 1).drop_last() =~= pairs@.take(i as int));
        assert(pairs@.take(i + 1).last() == pairs@[i as int]);
        push_line(out, owned(flag));
        push_line(out, cat3(pairs[i].0.as_str(), sep, pairs[i].1.as_str()));
        proof {
            if flag@ == "-v"@ {
                assert(strs(out@) =~= start + mount_args(pairs@.take(i + 1)));
            } else {
                assert(strs(out@) =~= start + env_args(pairs@.take(i + 1)));
            }
        }
        i = i + 1;
    }
    assert(pairs@.take(pairs@.len() as int) =~= pairs@);
}

/// The arguments of `docker run` / `podman run` for a spec.
pub fn run_args(spec: &ContainerRunSpec) -> (r: Vec<String>)
    ensures
        strs(r@) == run_arg_list(*spec),
{
    let mut args: Vec<String> = Vec::new();
    args.push(owned("run"));
    args.push(owned("--rm"));
    assert(strs(args@) =~= seq!["run"@, "--rm"@]);
    let ghost s0 = strs(args@);
    if let Some((uid, gid)) = spec.uid_gid_map {
        args.push(owned("--user"));
        let u = decimal_string(uid as u64);
        let g = decimal_string(gid as u64);
        args.push(cat3(u.as_str(), ":", g.as_str()));
    }
    let ghost s1 = strs(args@);
    assert(s1 =~= s0 + match spec.uid_gid_map {
        Some((u, g)) => seq!["--user"@, decimal(u as nat) + ":"@ + decimal(g as nat)],
        None => Seq::empty(),
    });
    push_pairs(&mut args, "-v", ":", &spec.mounts);
    let ghost s2 = strs(args@);
    if let Some(w) = &spec.workdir {
        args.push(owned("-w"));
        args.push(w.clone());
    }
    let ghost s3 = strs(args@);
    assert(s3 =~= s2 + match spec.workdir {
        Some(w) => seq!["-w"@, w@],
        None => Seq::empty(),
    });
    push_pairs(&mut args, "-e", "=", &spec.env);
    let ghost s4 = strs(args@);
    args.push(spec.image.clone());
    assert(strs(args@) =~= s4 + seq![spec.image@]);
    crate::text::push_all(&mut args, &spec.args);
    args
}

/// The user and group a container runs as, from the `UID` and `GID`
/// variables, when both are set and numeric.
pub fn parse_uid_gid(uid: Option<&str>, gid: Option<&str>) -> (r: Option<(u32, u32)>)
    ensures
        r == (match (uid, gid) {
            (Some(u), Some(g)) => match (parse_unsigned(u@, 0xffff_ffff), parse_unsigned(g@, 0xffff_ffff)) {
                (Some(a), Some(b)) => Some((a as u32, b as u32)),
                _ => None,
            },
            _ => None,
        }),
{
    match (uid, gid) {
        (Some(u), Some(g)) => match (parse_unsigned_exec(u, 0xffff_ffff), parse_unsigned_exec(g, 0xffff_ffff)) {
            (Some(a), Some(b)) => Some((a as u32, b as u32)),
            _ => None,
        },
        _ => None,
    }
}

} // verus!

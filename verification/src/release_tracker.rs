//! The releases offered for each distribution.

use vstd::prelude::*;
use crate::config::Distro;
use crate::error::EngineError;
use crate::text::{
    after_prefix, cat, decimal, decimal_string, lines_exec, lines_of, owned, replace_all,
    replace_all_exec, sort_dedup, sort_dedup_exec, strip_prefix_exec, strs, trim, trim_exec,
    ws_tokens, ws_tokens_exec,
};

verus! {

#[derive(Clone, Debug)]
pub struct ReleaseInfo {
    pub distro: Distro,
    pub version: String,
    pub lts: bool,
    pub stable: bool,
    pub eol_warning: Option<String>,
}

/// Looks up the releases of each distribution.
#[derive(Clone, Debug)]
pub struct ReleaseTracker {}

impl ReleaseTracker {
    pub fn new() -> (r: ReleaseTracker) {
        ReleaseTracker {  }
    }
}

/// The version a `Version:` line of Ubuntu's `meta-release-lts` names:
/// its first word once ` LTS` is removed.
pub open spec fn meta_version(line: Seq<char>) -> Option<Seq<char>> {
    match after_prefix(line, "Version:"@) {
        Some(raw) => {
            let words = ws_tokens(replace_all(trim(raw), " LTS"@, ""@));
            if words.len() > 0 {
                Some(words[0])
            } else {
                None
            }
        },
        None => None,
    }
}

/// The versions named by a `meta-release-lts` text, in order.
pub open spec fn meta_versions(lines: Seq<Seq<char>>) -> Seq<Seq<char>>
    decreases lines.len(),
{
    if lines.len() == 0 {
        Seq::empty()
    } else {
        match meta_version(lines.last()) {
            Some(v) => meta_versions(lines.drop_last()).push(v),
            None => meta_versions(lines.drop_last()),
        }
    }
}

/// `s` back to front.
pub open spec fn reversed(s: Seq<Seq<char>>) -> Seq<Seq<char>> {
    Seq::new(s.len(), |i: int| s[s.len() - 1 - i])
}

/// The Ubuntu LTS versions offered: those the text names (24.04 and 22.04
/// when it names none), newest first, each once.
pub open spec fn ubuntu_versions(body: Seq<char>) -> Seq<Seq<char>> {
    let found = meta_versions(lines_of(body));
    let all = if found.len() == 0 {
        seq!["24.04"@, "22.04"@]
    } else {
        found
    };
    reversed(sort_dedup(all))
}

pub fn ubuntu_lts_versions(body: &str) -> (r: Vec<String>)
    ensures
        strs(r@) == ubuntu_versions(body@),
{
    let lines = lines_exec(body);
    let ghost all = strs(lines@);
    let mut found: Vec<String> = Vec::new();
    let mut i: usize = 0;
    assert(strs(found@) =~= Seq::<Seq<char>>::empty());
    while i < lines.len()
        invariant
            i <= lines@.len(),
            all == strs(lines@),
            strs(found@) == meta_versions(all.take(i as int)),
        decreases lines.len() - i,
    {
        let ghost cur = all.take(i + 1);
        assert(cur.drop_last() =~= all.take(i as int));
        assert(cur.last() == lines@[i as int]@);
        if let Some(raw) = strip_prefix_exec(lines[i].as_str(), "Version:") {
            let t = trim_exec(raw.as_str());
            proof {
                reveal_strlit(" LTS");
            }
            let cleaned = replace_all_exec(t.as_str(), " LTS", "");
            let words = ws_tokens_exec(cleaned.as_str());
            if words.len() > 0 {
                crate::text::push_line(&mut found, words[0].clone());
            }
        }
        i = i + 1;
    }
    assert(all.take(lines@.len() as int) =~= all);
    if found.len() == 0 {
        found.push(owned("24.04"));
        found.push(owned("22.04"));
        assert(strs(found@) =~= seq!["24.04"@, "22.04"@]);
    }
    let sorted = sort_dedup_exec(&found);
    let ghost sv = strs(sorted@);
    let mut out: Vec<String> = Vec::new();
    let mut k: usize = sorted.len();
    assert(strs(out@) =~= reversed(sv).take(0));
    while k > 0
        invariant
            k <= sorted@.len(),
            sv == strs(sorted@),
            strs(out@) == reversed(sv).take(sorted@.len() - k),
        decreases k,
    {
        crate::text::push_line(&mut out, sorted[k - 1].clone());
        assert(reversed(sv).take(sorted@.len() - k + 1) =~= reversed(sv).take(
            sorted@.len() - k,
        ).push(sv[k - 1]));
        k = k - 1;
    }
    assert(reversed(sv).take(sorted@.len() as int) =~= reversed(sv));
    out
}

/// Zero-padded decimal text of at least `w` digits.
pub open spec fn padded(n: nat, w: nat) -> Seq<char> {
    let d = decimal(n);
    if d.len() < w {
        Seq::new((w - d.len()) as nat, |i: int| '0') + d
    } else {
        d
    }
}

fn padded_exec(n: u64, w: usize) -> (r: String)
    ensures
        r@ == padded(n as nat, w as nat),
{
    let d = decimal_string(n);
    let len = d.as_str().unicode_len();
    if len < w {
        let mut z = String::new();
        let mut k: usize = 0;
        while k < w - len
            invariant
                k <= w - len,
                len < w,
                z@ == Seq::new(k as nat, |i: int| '0'),
            decreases w - len - k,
        {
            crate::text::string_push(&mut z, '0');
            assert(z@ =~= Seq::new((k + 1) as nat, |i: int| '0'));
            k = k + 1;
        }
        z.append(d.as_str());
        z
    } else {
        d
    }
}

/// The `{:04}.{:02}.{:02}` text of a date.
pub open spec fn date_text(d: (i32, u32, u32)) -> Seq<char> {
    (if d.0 < 0 {
        "-"@ + padded((-d.0) as nat, 3)
    } else {
        padded(d.0 as nat, 4)
    }) + "."@ + padded(d.1 as nat, 2) + "."@ + padded(d.2 as nat, 2)
}

pub fn date_text_exec(d: (i32, u32, u32)) -> (r: String)
    ensures
        r@ == date_text(d),
{
    let y = if d.0 < 0 {
        let m: i64 = -(d.0 as i64);
        let p = padded_exec(m as u64, 3);
        cat("-", p.as_str())
    } else {
        padded_exec(d.0 as u64, 4)
    };
    let mo = padded_exec(d.1 as u64, 2);
    let da = padded_exec(d.2 as u64, 2);
    let mut r = y;
    r.append(".");
    r.append(mo.as_str());
    r.append(".");
    r.append(da.as_str());
    r
}

pub open spec fn info_view(r: ReleaseInfo) -> (Distro, Seq<char>, bool, bool, Option<Seq<char>>) {
    (r.distro, r.version@, r.lts, r.stable, crate::text::opt_view(r.eol_warning))
}

pub open spec fn infos_view(v: Seq<ReleaseInfo>) -> Seq<(Distro, Seq<char>, bool, bool, Option<Seq<char>>)> {
    Seq::new(v.len(), |i: int| info_view(v[i]))
}

/// The releases offered, given Ubuntu's `meta-release-lts` text (when it
/// could be fetched), the newest stable Fedora and today's date.
pub open spec fn releases_for(
    distro: Distro,
    ubuntu_body: Option<Seq<char>>,
    fedora_latest: nat,
    today: (i32, u32, u32),
) -> Seq<(Distro, Seq<char>, bool, bool, Option<Seq<char>>)> {
    match distro {
        Distro::Ubuntu => {
            let vs = ubuntu_versions(
                match ubuntu_body {
                    Some(b) => b,
                    None => Seq::empty(),
                },
            );
            Seq::new(vs.len(), |i: int| (Distro::Ubuntu, vs[i], true, true, None::<Seq<char>>))
        },
        Distro::Mint => seq![
            (Distro::Mint, "22"@, true, true, None),
            (Distro::Mint, "21.3"@, true, true, None),
            (Distro::Mint, "21.2"@, true, true, None),
        ],
        Distro::Fedora => seq![
            (
                Distro::Fedora,
                decimal(fedora_latest),
                false,
                true,
                Some(
                    "Fedora has a short support lifecycle and is not LTS. Validate upgrade cadence."@,
                ),
            ),
        ],
        Distro::Arch => seq![
            (
                Distro::Arch,
                date_text(today),
                false,
                true,
                Some("Arch is rolling; snapshot reproducibility is best effort."@),
            ),
        ],
    }
}

impl ReleaseTracker {
    /// The releases offered for `distro`, given what was fetched and the
    /// date; an error when there are none.
    pub fn releases_from(
        &self,
        distro: Distro,
        ubuntu_body: Option<&str>,
        fedora_latest: u16,
        today: (i32, u32, u32),
    ) -> (r: Result<Vec<ReleaseInfo>, EngineError>)
        ensures
            match r {
                Ok(v) => infos_view(v@) == releases_for(
                    distro,
                    match ubuntu_body {
                        Some(b) => Some(b@),
                        None => None,
                    },
                    fedora_latest as nat,
                    today,
                ) && v@.len() > 0,
                Err(e) => e is NotFound && releases_for(
                    distro,
                    match ubuntu_body {
                        Some(b) => Some(b@),
                        None => None,
                    },
                    fedora_latest as nat,
                    today,
                ).len() == 0,
            },
    {
        let mut out: Vec<ReleaseInfo> = Vec::new();
        match distro {
            Distro::Ubuntu => {
                let body = match ubuntu_body {
                    Some(b) => b,
                    None => "",
                };
                proof {
                    reveal_strlit("");
                }
                let vs = ubuntu_lts_versions(body);
                let mut i: usize = 0;
                while i < vs.len()
                    invariant
                        i <= vs@.len(),
                        infos_view(out@) == Seq::new(
                            i as nat,
                            |k: int| (Distro::Ubuntu, vs@[k]@, true, true, None::<Seq<char>>),
                        ),
                    decreases vs.len() - i,
                {
                    let ghost before = infos_view(out@);
                    out.push(
                        ReleaseInfo {
                            distro: Distro::Ubuntu,
                            version: vs[i].clone(),
                            lts: true,
                            stable: true,
                            eol_warning: None,
                        },
                    );
                    assert(infos_view(out@) =~= before.push(
                        (Distro::Ubuntu, vs@[i as int]@, true, true, None::<Seq<char>>),
                    ));
                    assert(infos_view(out@) =~= Seq::new(
                        (i + 1) as nat,
                        |k: int| (Distro::Ubuntu, vs@[k]@, true, true, None::<Seq<char>>),
                    ));
                    i = i + 1;
                }
                assert(infos_view(out@) =~= releases_for(
                    distro,
                    match ubuntu_body {
                        Some(b) => Some(b@),
                        None => None,
                    },
                    fedora_latest as nat,
                    today,
                ));
            },
            Distro::Mint => {
                out.push(
                    ReleaseInfo {
                        distro: Distro::Mint,
                        version: owned("22"),
                        lts: true,
                        stable: true,
                        eol_warning: None,
                    },
                );
                out.push(
                    ReleaseInfo {
                        distro: Distro::Mint,
                        version: owned("21.3"),
                        lts: true,
                        stable: true,
                        eol_warning: None,
                    },
                );
                out.push(
                    ReleaseInfo {
                        distro: Distro::Mint,
                        version: owned("21.2"),
                        lts: true,
                        stable: true,
                        eol_warning: None,
                    },
                );
                assert(infos_view(out@) =~= releases_for(
                    distro,
                    match ubuntu_body {
                        Some(b) => Some(b@),
                        None => None,
                    },
                    fedora_latest as nat,
                    today,
                ));
            },
            Distro::Fedora => {
                out.push(
                    ReleaseInfo {
                        distro: Distro::Fedora,
                        version: decimal_string(fedora_latest as u64),
                        lts: false,
                        stable: true,
                        eol_warning: Some(
                            owned(
                                "Fedora has a short support lifecycle and is not LTS. Validate upgrade cadence.",
                            ),
                        ),
                    },
                );
                assert(infos_view(out@) =~= releases_for(
                    distro,
                    match ubuntu_body {
                        Some(b) => Some(b@),
                        None => None,
                    },
                    fedora_latest as nat,
                    today,
                ));
            },
            Distro::Arch => {
                out.push(
                    ReleaseInfo {
                        distro: Distro::Arch,
                        version: date_text_exec(today),
                        lts: false,
                        stable: true,
                        eol_warning: Some(
                            owned("Arch is rolling; snapshot reproducibility is best effort."),
                        ),
                    },
                );
                assert(infos_view(out@) =~= releases_for(
                    distro,
                    match ubuntu_body {
                        Some(b) => Some(b@),
                        None => None,
                    },
                    fedora_latest as nat,
                    today,
                ));
            },
        }
        if out.len() == 0 {
            let name = match distro {
                Distro::Ubuntu => "Ubuntu",
                Distro::Mint => "Mint",
                Distro::Fedora => "Fedora",
                Distro::Arch => "Arch",
            };
            return Err(EngineError::NotFound(cat("no releases discovered for ", name)));
        }
        Ok(out)
    }
}

} // verus!

//! The command line's own decisions: profile and distribution names,
//! `key=value` settings and which firmware a boot test covers.

use vstd::prelude::*;
use crate::config::{Distro, ProfileKind};
use crate::text::{cat3, index_of_from, owned, push_line, str_eq};

verus! {

/// A build profile by name.
pub fn parse_profile(raw: &str) -> (r: Result<ProfileKind, String>)
    ensures
        raw@ == "minimal"@ ==> r == Ok::<ProfileKind, String>(ProfileKind::Minimal),
        raw@ == "desktop"@ ==> r == Ok::<ProfileKind, String>(ProfileKind::Desktop),
        raw@ != "minimal"@ && raw@ != "desktop"@ ==> (r matches Err(m) && m@
            == "unsupported profile '"@ + raw@ + "': expected minimal|desktop"@),
{
    proof {
        reveal_strlit("minimal");
        reveal_strlit("desktop");
        assert("minimal"@[0] != "desktop"@[0]);
    }
    if str_eq(raw, "minimal") {
        Ok(ProfileKind::Minimal)
    } else if str_eq(raw, "desktop") {
        Ok(ProfileKind::Desktop)
    } else {
        Err(cat3("unsupported profile '", raw, "': expected minimal|desktop"))
    }
}

/// The target distribution of `--distro`: none given, or `ubuntu`, means
/// the default; `fedora`, `arch` and `mint` name theirs; anything else is
/// refused.
pub open spec fn distro_flag(raw: Option<Seq<char>>) -> Result<Option<Distro>, Seq<char>> {
    match raw {
        None => Ok(None),
        Some(s) => if s == "ubuntu"@ {
            Ok(None)
        } else if s == "fedora"@ {
            Ok(Some(Distro::Fedora))
        } else if s == "arch"@ {
            Ok(Some(Distro::Arch))
        } else if s == "mint"@ {
            Ok(Some(Distro::Mint))
        } else {
            Err("ERROR: unknown distro '"@ + s + "'. Valid: ubuntu, fedora, arch, mint"@)
        },
    }
}

pub fn parse_distro_flag(raw: Option<&str>) -> (r: Result<Option<Distro>, String>)
    ensures
        match distro_flag(
            match raw {
                Some(s) => Some(s@),
                None => None,
            },
        ) {
            Ok(d) => r == Ok::<Option<Distro>, String>(d),
            Err(m) => r matches Err(x) && x@ == m,
        },
{
    proof {
        reveal_strlit("ubuntu");
        reveal_strlit("fedora");
        reveal_strlit("arch");
        reveal_strlit("mint");
        assert("ubuntu"@[0] != "fedora"@[0] && "ubuntu"@[0] != "arch"@[0] && "ubuntu"@[0] != "mint"@[0]);
        assert("fedora"@[0] != "arch"@[0] && "fedora"@[0] != "mint"@[0] && "arch"@[0] != "mint"@[0]);
    }
    match raw {
        None => Ok(None),
        Some(s) => if str_eq(s, "ubuntu") {
            Ok(None)
        } else if str_eq(s, "fedora") {
            Ok(Some(Distro::Fedora))
        } else if str_eq(s, "arch") {
            Ok(Some(Distro::Arch))
        } else if str_eq(s, "mint") {
            Ok(Some(Distro::Mint))
        } else {
            Err(cat3("ERROR: unknown distro '", s, "'. Valid: ubuntu, fedora, arch, mint"))
        },
    }
}

/// A `key=value` setting split at its first `=`; `None` without one.
pub open spec fn setting_pair(s: Seq<char>) -> Option<(Seq<char>, Seq<char>)> {
    match index_of_from(s, "="@, 0) {
        Some(k) => Some((s.subrange(0, k), s.subrange(k + 1, s.len() as int))),
        None => None,
    }
}

/// The settings that have a `=`, in order.
pub open spec fn setting_pairs(items: Seq<Seq<char>>) -> Seq<(Seq<char>, Seq<char>)>
    decreases items.len(),
{
    if items.len() == 0 {
        Seq::empty()
    } else {
        match setting_pair(items.last()) {
            Some(p) => setting_pairs(items.drop_last()).push(p),
            None => setting_pairs(items.drop_last()),
        }
    }
}

pub open spec fn pairs_view(v: Seq<(String, String)>) -> Seq<(Seq<char>, Seq<char>)> {
    Seq::new(v.len(), |i: int| (v[i].0@, v[i].1@))
}

/// The `--sysctl key=value` settings as pairs.
pub fn parse_sysctl_pairs(items: &Vec<String>) -> (r: Vec<(String, String)>)
    ensures
        pairs_view(r@) == setting_pairs(crate::text::strs(items@)),
{
    let ghost all = crate::text::strs(items@);
    let mut out: Vec<(String, String)> = Vec::new();
    let mut i: usize = 0;
    assert(pairs_view(out@) =~= Seq::<(Seq<char>, Seq<char>)>::empty());
    while i < items.len()
        invariant
            i <= items@.len(),
            all == crate::text::strs(items@),
            pairs_view(out@) == setting_pairs(all.take(i as int)),
        decreases items.len() - i,
    {
        assert(all.take(i + 1).drop_last() =~= all.take(i as int));
        assert(all.take(i + 1).last() == items@[i as int]@);
        let s = items[i].as_str();
        proof {
            reveal_strlit("=");
        }
        match crate::text::find_from(s, "=", 0) {
            Some(k) => {
                let n = s.unicode_len();
                let key = owned(s.substring_char(0, k));
                let value = owned(s.substring_char(k + 1, n));
                let ghost before = pairs_view(out@);
                out.push((key, value));
                assert(pairs_view(out@) =~= before.push((s@.subrange(0, k as int), s@.subrange(k + 1, n as int))));
            },
            None => {},
        }
        i = i + 1;
    }
    assert(all.take(items@.len() as int) =~= all);
    out
}

/// The firmware a boot test covers: both unless exactly one is asked for.
pub fn test_targets(bios: bool, uefi: bool) -> (r: (bool, bool))
    ensures
        r == (bios || !uefi, uefi || !bios),
{
    (bios || !uefi, uefi || !bios)
}

} // verus!

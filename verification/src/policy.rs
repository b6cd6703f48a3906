//! Release policy: which releases of each distribution are accepted, and
//! the lifecycle warnings attached to them.

use vstd::prelude::*;
use chrono::Datelike;
use crate::config::Distro;
use crate::error::EngineError;
use crate::iso::{regex_error_text, regex_is_match};
use crate::text::{cat, cat3, owned, parse_unsigned, parse_unsigned_exec, str_eq};

verus! {

/// A non-fatal note about a release.
#[derive(Clone, Debug)]
pub struct PolicyWarning {
    pub code: String,
    pub message: String,
}

// ---------------------------------------------------------------------------
// Dates (chrono)
// ---------------------------------------------------------------------------

/// `NaiveDate::parse_from_str(text, "%Y.%m.%d")` as (year, month, day).
pub uninterp spec fn snapshot_date(text: Seq<char>) -> Option<(i32, u32, u32)>;

/// `NaiveDate::parse_from_str(text, "%Y.%m.%d")`, as year, month (1 to 12)
/// and day (1 to 31).
#[verifier::external_body]
fn parse_snapshot_date(text: &str) -> (r: Option<(i32, u32, u32)>)
    ensures
        r == snapshot_date(text@),
        r matches Some(d) ==> 1 <= d.1 <= 12 && 1 <= d.2 <= 31,
{
    match chrono::NaiveDate::parse_from_str(text, "%Y.%m.%d") {
        Ok(d) => Some((d.year(), d.month(), d.day())),
        Err(_) => None,
    }
}

/// Today's UTC date as year, month (1 to 12) and day (1 to 31); it depends
/// on the clock and nothing else is stated.
#[verifier::external_body]
pub(crate) fn today_utc() -> (r: (i32, u32, u32))
    ensures
        1 <= r.1 <= 12 && 1 <= r.2 <= 31,
{
    let d = chrono::Utc::now().date_naive();
    (d.year(), d.month(), d.day())
}

/// Date order: year, then month, then day.
pub open spec fn date_after(a: (i32, u32, u32), b: (i32, u32, u32)) -> bool {
    a.0 > b.0 || (a.0 == b.0 && (a.1 > b.1 || (a.1 == b.1 && a.2 > b.2)))
}

// ---------------------------------------------------------------------------
// The newest stable Fedora
// ---------------------------------------------------------------------------

/// The newest stable Fedora release in a given month.
pub open spec fn fedora_stable_at(year: int, month: int) -> int {
    if year == 2025 {
        if 1 <= month <= 4 {
            41
        } else if 5 <= month <= 10 {
            42
        } else {
            43
        }
    } else if year == 2026 {
        if 1 <= month <= 4 {
            43
        } else if 5 <= month <= 10 {
            44
        } else {
            45
        }
    } else if year == 2027 {
        if 1 <= month <= 4 {
            45
        } else if 5 <= month <= 10 {
            46
        } else {
            46
        }
    } else {
        46
    }
}

pub fn fedora_stable_for(year: i32, month: u32) -> (r: u16)
    ensures
        r as int == fedora_stable_at(year as int, month as int),
{
    if year == 2025 {
        if 1 <= month && month <= 4 {
            41
        } else if 5 <= month && month <= 10 {
            42
        } else {
            43
        }
    } else if year == 2026 {
        if 1 <= month && month <= 4 {
            43
        } else if 5 <= month && month <= 10 {
            44
        } else {
            45
        }
    } else if year == 2027 {
        if 1 <= month && month <= 4 {
            45
        } else {
            46
        }
    } else {
        46
    }
}

/// The newest stable Fedora release now.
pub fn inferred_fedora_stable() -> (r: u16)
    ensures
        exists|y: int, m: int| 1 <= m <= 12 && r as int == #[trigger] fedora_stable_at(y, m),
        41 <= r <= 46,
{
    let (y, m, _d) = today_utc();
    fedora_stable_for(y, m)
}

// ---------------------------------------------------------------------------
// Acceptance
// ---------------------------------------------------------------------------

/// The accepted Linux Mint releases.
pub open spec fn mint_lts(release: Seq<char>) -> bool {
    release == "20"@ || release == "20.1"@ || release == "20.2"@ || release == "20.3"@ || release
        == "21"@ || release == "21.1"@ || release == "21.2"@ || release == "21.3"@ || release
        == "22"@
}

pub open spec fn ubuntu_lts_pattern() -> Seq<char> {
    "^(20|22|24|26|28|30)\\.04$"@
}

/// The accepted Ubuntu releases: the April releases of the even years
/// 2020 to 2030.
pub open spec fn ubuntu_lts_release(release: Seq<char>) -> bool {
    release == "20.04"@ || release == "22.04"@ || release == "24.04"@ || release == "26.04"@
        || release == "28.04"@ || release == "30.04"@
}

/// A Fedora release number that is too large to be two releases behind
/// anything.
pub open spec fn fedora_overflows(release: Seq<char>) -> bool {
    parse_unsigned(release, 65535) matches Some(v) && v + 2 > 65535
}

/// The verdict on a release, given the newest stable Fedora and today's
/// date; `Err` carries the violation's message.
pub open spec fn release_verdict(
    distro: Distro,
    release: Seq<char>,
    fedora_latest: int,
    today: (i32, u32, u32),
) -> Result<(), Seq<char>> {
    match distro {
        Distro::Ubuntu => if ubuntu_lts_release(release) {
            Ok(())
        } else {
            Err("Ubuntu release '"@ + release + "' violates LTS-only policy"@)
        },
        Distro::Mint => if mint_lts(release) {
            Ok(())
        } else {
            Err("Linux Mint release '"@ + release + "' violates LTS-only policy"@)
        },
        Distro::Fedora => match parse_unsigned(release, 65535) {
            None => Err("Fedora release '"@ + release + "' must be a numeric stable release"@),
            Some(v) => if v + 2 < fedora_latest {
                Err("Fedora release '"@ + release + "' is outside supported stable window"@)
            } else {
                Ok(())
            },
        },
        Distro::Arch => match snapshot_date(release) {
            None => Err("Arch release must use YYYY.MM.DD snapshot format"@),
            Some(d) => if date_after(d, today) {
                Err("Arch snapshot cannot be in the future"@)
            } else {
                Ok(())
            },
        },
    }
}

/// The Ubuntu verdict once the LTS pattern has been tried.
pub fn ubuntu_lts_verdict(release: &str, is_lts: bool) -> (r: Result<(), EngineError>)
    ensures
        is_lts ==> r is Ok,
        !is_lts ==> (r matches Err(EngineError::PolicyViolation(m)) && m@ == "Ubuntu release '"@
            + release@ + "' violates LTS-only policy"@),
{
    if is_lts {
        Ok(())
    } else {
        Err(EngineError::PolicyViolation(cat3("Ubuntu release '", release, "' violates LTS-only policy")))
    }
}

fn enforce_ubuntu_lts(release: &str) -> (r: Result<(), EngineError>)
    ensures
        match release_verdict(Distro::Ubuntu, release@, 0, (0, 1, 1)) {
            Ok(()) => r is Ok,
            Err(m) => r matches Err(EngineError::PolicyViolation(x)) && x@ == m,
        },
{
    match regex_is_match("^(20|22|24|26|28|30)\\.04$", release) {
        Ok(b) => ubuntu_lts_verdict(release, b),
        Err(e) => {
            let t = regex_error_text(&e);
            Err(EngineError::PolicyViolation(cat("regex error: ", t.as_str())))
        },
    }
}

fn enforce_mint_lts(release: &str) -> (r: Result<(), EngineError>)
    ensures
        match release_verdict(Distro::Mint, release@, 0, (0, 1, 1)) {
            Ok(()) => r is Ok,
            Err(m) => r matches Err(EngineError::PolicyViolation(x)) && x@ == m,
        },
{
    let allowed = str_eq(release, "20") || str_eq(release, "20.1") || str_eq(release, "20.2")
        || str_eq(release, "20.3") || str_eq(release, "21") || str_eq(release, "21.1") || str_eq(
        release,
        "21.2",
    ) || str_eq(release, "21.3") || str_eq(release, "22");
    if allowed {
        Ok(())
    } else {
        Err(
            EngineError::PolicyViolation(
                cat3("Linux Mint release '", release, "' violates LTS-only policy"),
            ),
        )
    }
}

/// The Fedora verdict against a given newest stable release.
pub fn enforce_fedora_at(release: &str, latest: u16) -> (r: Result<(), EngineError>)
    requires
        !fedora_overflows(release@),
    ensures
        match release_verdict(Distro::Fedora, release@, latest as int, (0, 1, 1)) {
            Ok(()) => r is Ok,
            Err(m) => r matches Err(EngineError::PolicyViolation(x)) && x@ == m,
        },
{
    match parse_unsigned_exec(release, 65535) {
        None => Err(
            EngineError::PolicyViolation(
                cat3("Fedora release '", release, "' must be a numeric stable release"),
            ),
        ),
        Some(v) => {
            let version = v as u16;
            if version + 2 < latest {
                Err(
                    EngineError::PolicyViolation(
                        cat3("Fedora release '", release, "' is outside supported stable window"),
                    ),
                )
            } else {
                Ok(())
            }
        },
    }
}

/// The Arch verdict against a given date.
pub fn enforce_arch_at(release: &str, today: (i32, u32, u32)) -> (r: Result<(), EngineError>)
    ensures
        match release_verdict(Distro::Arch, release@, 0, today) {
            Ok(()) => r is Ok,
            Err(m) => r matches Err(EngineError::PolicyViolation(x)) && x@ == m,
        },
{
    match parse_snapshot_date(release) {
        None => Err(
            EngineError::PolicyViolation(owned("Arch release must use YYYY.MM.DD snapshot format")),
        ),
        Some(d) => {
            let later = d.0 > today.0 || (d.0 == today.0 && (d.1 > today.1 || (d.1 == today.1
                && d.2 > today.2)));
            if later {
                Err(EngineError::PolicyViolation(owned("Arch snapshot cannot be in the future")))
            } else {
                Ok(())
            }
        },
    }
}

/// The verdict on a release of a distribution, given the newest stable
/// Fedora and today's date.
pub fn enforce_release_policy_at(
    distro: &Distro,
    release: &str,
    fedora_latest: u16,
    today: (i32, u32, u32),
) -> (r: Result<(), EngineError>)
    requires
        *distro == Distro::Fedora ==> !fedora_overflows(release@),
    ensures
        r matches Err(e) ==> e is PolicyViolation,
        match release_verdict(*distro, release@, fedora_latest as int, today) {
            Ok(()) => r is Ok,
            Err(m) => r matches Err(EngineError::PolicyViolation(x)) && x@ == m,
        },
{
    match distro {
        Distro::Ubuntu => enforce_ubuntu_lts(release),
        Distro::Mint => enforce_mint_lts(release),
        Distro::Fedora => enforce_fedora_at(release, fedora_latest),
        Distro::Arch => enforce_arch_at(release, today),
    }
}

/// The verdict on a release now.
pub fn enforce_release_policy(distro: &Distro, release: &str) -> (r: Result<(), EngineError>)
    requires
        *distro == Distro::Fedora ==> !fedora_overflows(release@),
    ensures
        r matches Err(e) ==> e is PolicyViolation,
        *distro == Distro::Ubuntu ==> (r is Ok <==> ubuntu_lts_release(release@)),
        *distro == Distro::Mint ==> (r is Ok <==> mint_lts(release@)),
        *distro == Distro::Fedora && parse_unsigned(release@, 65535) is None ==> r is Err,
        *distro == Distro::Arch && snapshot_date(release@) is None ==> r is Err,
        exists|latest: int, today: (i32, u32, u32)|
            41 <= latest <= 46 && 1 <= today.1 <= 12 && 1 <= today.2 <= 31 && (match #[trigger] release_verdict(
                *distro,
                release@,
                latest,
                today,
            ) {
                Ok(()) => r is Ok,
                Err(m) => r matches Err(EngineError::PolicyViolation(x)) && x@ == m,
            }),
{
    let latest = if *distro == Distro::Fedora {
        inferred_fedora_stable()
    } else {
        46
    };
    let today = today_utc();
    enforce_release_policy_at(distro, release, latest, today)
}

// ---------------------------------------------------------------------------
// Warnings
// ---------------------------------------------------------------------------

pub open spec fn fedora_lifecycle_text() -> Seq<char> {
    "Fedora is short lifecycle and not LTS; monitor support windows in production."@
}

/// The warnings for a release, given the newest stable Fedora: Fedora is
/// short-lived (possibly near its end of life), Arch is rolling.
pub open spec fn warnings_for(distro: Distro, release: Seq<char>, latest: int) -> Seq<(Seq<char>, Seq<char>)> {
    match distro {
        Distro::Fedora => seq![
            (
                "fedora_lifecycle"@,
                match parse_unsigned(release, 65535) {
                    Some(v) => if v + 1 < latest {
                        "Fedora "@ + release
                            + " may be at or near EOL. Fedora is short lifecycle and not LTS."@
                    } else {
                        fedora_lifecycle_text()
                    },
                    None => fedora_lifecycle_text(),
                },
            ),
        ],
        Distro::Arch => seq![
            (
                "arch_rolling"@,
                "Arch uses rolling snapshots; reproducibility is best effort."@,
            ),
        ],
        _ => Seq::empty(),
    }
}

pub open spec fn warnings_view(w: Seq<PolicyWarning>) -> Seq<(Seq<char>, Seq<char>)> {
    Seq::new(w.len(), |i: int| (w[i].code@, w[i].message@))
}

pub fn policy_warnings_at(distro: &Distro, release: &str, latest: u16) -> (r: Vec<PolicyWarning>)
    ensures
        warnings_view(r@) == warnings_for(*distro, release@, latest as int),
{
    let mut warnings: Vec<PolicyWarning> = Vec::new();
    match distro {
        Distro::Fedora => {
            let msg = match parse_unsigned_exec(release, 65535) {
                Some(v) => {
                    if v + 1 < latest as u64 {
                        cat3(
                            "Fedora ",
                            release,
                            " may be at or near EOL. Fedora is short lifecycle and not LTS.",
                        )
                    } else {
                        owned(
                            "Fedora is short lifecycle and not LTS; monitor support windows in production.",
                        )
                    }
                },
                None => owned(
                    "Fedora is short lifecycle and not LTS; monitor support windows in production.",
                ),
            };
            warnings.push(PolicyWarning { code: owned("fedora_lifecycle"), message: msg });
        },
        Distro::Arch => {
            warnings.push(
                PolicyWarning {
                    code: owned("arch_rolling"),
                    message: owned("Arch uses rolling snapshots; reproducibility is best effort."),
                },
            );
        },
        _ => {},
    }
    assert(warnings_view(warnings@) =~= warnings_for(*distro, release@, latest as int));
    warnings
}

/// The warnings for a release now.
pub fn policy_warnings(distro: &Distro, release: &str) -> (r: Vec<PolicyWarning>)
    ensures
        exists|latest: int|
            41 <= latest <= 46 && warnings_view(r@) == #[trigger] warnings_for(
                *distro,
                release@,
                latest,
            ),
{
    let latest = if *distro == Distro::Fedora {
        inferred_fedora_stable()
    } else {
        46
    };
    policy_warnings_at(distro, release, latest)
}

/// Every Fedora release gets exactly one lifecycle warning, whatever its
/// number; Ubuntu and Mint releases get none.
pub proof fn law_fedora_lifecycle_warning(release: Seq<char>, latest: int)
    ensures
        warnings_for(Distro::Fedora, release, latest).len() == 1,
        warnings_for(Distro::Fedora, release, latest)[0].0 == "fedora_lifecycle"@,
        warnings_for(Distro::Ubuntu, release, latest).len() == 0,
        warnings_for(Distro::Mint, release, latest).len() == 0,
{
}

/// Ubuntu releases are accepted exactly when they are LTS releases, and
/// every accepted release has the `xx.04` form.
pub proof fn law_ubuntu_lts_only(release: Seq<char>, latest: int, today: (i32, u32, u32))
    ensures
        release_verdict(Distro::Ubuntu, release, latest, today) is Ok <==> ubuntu_lts_release(release),
        ubuntu_lts_release(release) ==> release.len() == 5 && release.subrange(2, 5) == ".04"@,
{
    reveal_strlit(".04");
    reveal_strlit("20.04");
    reveal_strlit("22.04");
    reveal_strlit("24.04");
    reveal_strlit("26.04");
    reveal_strlit("28.04");
    reveal_strlit("30.04");
    if ubuntu_lts_release(release) {
        assert(release.subrange(2, 5) =~= ".04"@);
    }
}

} // verus!


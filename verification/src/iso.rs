//! What an ISO image tells about itself: its volume label, its boot
//! catalogue, and the release files it carries.

use vstd::prelude::*;
use crate::config::Distro;
use crate::error::EngineError;
use crate::policy::{ubuntu_lts_pattern, ubuntu_lts_release};
use crate::text::{
    after_prefix, all_ascii, ascii_lowercase, all_ascii_bytes, ascii_chars, byte_range, cat, contains, contains_seq,
    lines_exec, lines_of, lowercase, opt_view, owned, strip_prefix_exec, strs, to_lowercase,
    trim, trim_char, trim_char_exec, trim_exec, utf8_lossy, utf8_lossy_exec,
};

verus! {

#[derive(Clone, Copy, Debug, PartialEq, Eq, Structural)]
pub enum SourceKind {
    LocalPath,
    DownloadedUrl,
}

/// Which firmware the image boots under.
#[derive(Clone, Copy, Debug, PartialEq, Eq, Structural)]
pub struct BootSupport {
    pub bios: bool,
    pub uefi: bool,
}

impl Default for BootSupport {
    fn default() -> (r: Self)
        ensures
            !r.bios,
            !r.uefi,
    {
        BootSupport { bios: false, uefi: false }
    }
}

/// What an inspection found out about an image.
#[derive(Clone, Debug)]
pub struct IsoMetadata {
    pub source_path: String,
    pub source_kind: SourceKind,
    pub source_value: String,
    pub size_bytes: u64,
    pub sha256: String,
    pub volume_id: Option<String>,
    pub distro: Option<Distro>,
    pub release: Option<String>,
    pub edition: Option<String>,
    pub architecture: Option<String>,
    pub rootfs_path: Option<String>,
    pub boot: BootSupport,
    pub inspected_at: String,
    pub warnings: Vec<String>,
}

/// A source image on the local disk, with where it came from.
#[derive(Clone, Debug)]
pub struct ResolvedIso {
    pub source_path: String,
    pub source_kind: SourceKind,
    pub source_value: String,
    pub download_dir: Option<String>,
}

// ---------------------------------------------------------------------------
// Regular expressions (regex)
// ---------------------------------------------------------------------------

#[verifier::external_type_specification]
#[verifier::external_body]
pub struct ExRegexError(regex::Error);

/// Whether `Regex::new` accepts the pattern.
pub uninterp spec fn regex_compiles(pattern: Seq<char>) -> bool;

/// The text of capture group 1 of the leftmost match of a pattern.
pub uninterp spec fn regex_first_group(pattern: Seq<char>, haystack: Seq<char>) -> Option<Seq<char>>;

/// Whether a pattern matches somewhere in the haystack.
pub uninterp spec fn regex_matches(pattern: Seq<char>, haystack: Seq<char>) -> bool;

/// `Regex::new(pattern)` then `captures(haystack)` and group 1 of it: `None`
/// when the pattern does not compile, nothing matches, or group 1 did not
/// take part; the group's text is part of the haystack.
#[verifier::external_body]
pub(crate) fn regex_capture_one(pattern: &str, haystack: &str) -> (r: Option<String>)
    ensures
        opt_view(r) == (if regex_compiles(pattern@) {
            regex_first_group(pattern@, haystack@)
        } else {
            None
        }),
        r matches Some(g) ==> contains_seq(haystack@, g@),
{
    match regex::Regex::new(pattern) {
        Ok(re) => match re.captures(haystack) {
            Some(caps) => match caps.get(1) {
                Some(m) => Some(m.as_str().to_string()),
                None => None,
            },
            None => None,
        },
        Err(_) => None,
    }
}

/// `Regex::new(pattern)` then `is_match(haystack)`; the error of a pattern
/// that does not compile is handed back. The Ubuntu LTS pattern
/// `^(20|22|24|26|28|30)\.04$` compiles, and as `^` and `$` anchor it at
/// both ends of the haystack it matches exactly the six texts `20.04` to
/// `30.04`.
#[verifier::external_body]
pub(crate) fn regex_is_match(pattern: &str, haystack: &str) -> (r: Result<bool, regex::Error>)
    ensures
        (r is Ok) == regex_compiles(pattern@),
        r matches Ok(b) ==> b == regex_matches(pattern@, haystack@),
        r is Err ==> pattern@ != ubuntu_lts_pattern(),
        r matches Ok(b) ==> (pattern@ == ubuntu_lts_pattern() ==> b == ubuntu_lts_release(haystack@)),
{
    match regex::Regex::new(pattern) {
        Ok(re) => Ok(re.is_match(haystack)),
        Err(e) => Err(e),
    }
}

/// The `Display` text of a regex error.
#[verifier::external_body]
pub(crate) fn regex_error_text(e: &regex::Error) -> (r: String) {
    format!("{}", e)
}

// ---------------------------------------------------------------------------
// Labels and release files
// ---------------------------------------------------------------------------

pub open spec fn version_pattern() -> Seq<char> {
    "(\\d{4}\\.\\d{2}\\.\\d{2}|\\d{2}\\.\\d{2}|\\d{1,2}(?:\\.\\d+)?)"@
}

/// The version found in a label: a date `YYYY.MM.DD`, else `NN.NN`, else a
/// number with an optional fraction, whichever matches first.
pub open spec fn version_in(label: Seq<char>) -> Option<Seq<char>> {
    if regex_compiles(version_pattern()) {
        regex_first_group(version_pattern(), label)
    } else {
        None
    }
}

/// The distribution a lower-cased label names, checked in this order.
pub open spec fn distro_in(lower: Seq<char>) -> Option<Distro> {
    if contains_seq(lower, "ubuntu"@) {
        Some(Distro::Ubuntu)
    } else if contains_seq(lower, "mint"@) {
        Some(Distro::Mint)
    } else if contains_seq(lower, "fedora"@) {
        Some(Distro::Fedora)
    } else if contains_seq(lower, "arch"@) {
        Some(Distro::Arch)
    } else {
        None
    }
}

/// The architecture a lower-cased label names.
pub open spec fn arch_in(lower: Seq<char>) -> Option<Seq<char>> {
    if contains_seq(lower, "amd64"@) || contains_seq(lower, "x86_64"@) {
        Some("x86_64"@)
    } else if contains_seq(lower, "arm64"@) || contains_seq(lower, "aarch64"@) {
        Some("aarch64"@)
    } else {
        None
    }
}

/// The fields an inspection step leaves alone.
pub open spec fn same_source(a: IsoMetadata, b: IsoMetadata) -> bool {
    &&& a.source_path == b.source_path
    &&& a.source_kind == b.source_kind
    &&& a.source_value == b.source_value
    &&& a.size_bytes == b.size_bytes
    &&& a.sha256 == b.sha256
    &&& a.volume_id == b.volume_id
    &&& a.boot == b.boot
    &&& a.inspected_at == b.inspected_at
    &&& a.warnings == b.warnings
}

/// What a label adds: the distribution it names, and the architecture and
/// release when they are not known yet.
pub open spec fn label_applied(old_info: IsoMetadata, new_info: IsoMetadata, label: Seq<char>) -> bool {
    label_applied_with(old_info, new_info, label, lowercase(label))
}

/// A label applied, given its lower-cased text `lower`.
pub open spec fn label_applied_with(
    old_info: IsoMetadata,
    new_info: IsoMetadata,
    label: Seq<char>,
    lower: Seq<char>,
) -> bool {
    &&& new_info.distro == (match distro_in(lower) {
        Some(d) => Some(d),
        None => old_info.distro,
    })
    &&& opt_view(new_info.architecture) == (if old_info.architecture is None {
        arch_in(lower)
    } else {
        opt_view(old_info.architecture)
    })
    &&& opt_view(new_info.release) == (if old_info.release is None {
        version_in(label)
    } else {
        opt_view(old_info.release)
    })
}

/// The version in a label (`capture_version`).
pub fn capture_version(input: &str) -> (r: Option<String>)
    ensures
        opt_view(r) == version_in(input@),
        r matches Some(v) ==> contains_seq(input@, v@),
{
    regex_capture_one("(\\d{4}\\.\\d{2}\\.\\d{2}|\\d{2}\\.\\d{2}|\\d{1,2}(?:\\.\\d+)?)", input)
}

/// The architecture a label names.
pub fn infer_architecture(input: &str) -> (r: Option<String>)
    ensures
        opt_view(r) == arch_in(lowercase(input@)),
        all_ascii(input@) ==> opt_view(r) == arch_in(ascii_lowercase(input@)),
{
    let lowered = to_lowercase(input);
    let l = lowered.as_str();
    if contains(l, "amd64") || contains(l, "x86_64") {
        Some(owned("x86_64"))
    } else if contains(l, "arm64") || contains(l, "aarch64") {
        Some(owned("aarch64"))
    } else {
        None
    }
}

/// Learn distribution, architecture and release from a label.
pub fn infer_from_label(label: &str, info: &mut IsoMetadata)
    ensures
        same_source(*old(info), *final(info)),
        final(info).edition == old(info).edition,
        final(info).rootfs_path == old(info).rootfs_path,
        label_applied(*old(info), *final(info), label@),
        all_ascii(label@) ==> label_applied_with(
            *old(info),
            *final(info),
            label@,
            ascii_lowercase(label@),
        ),
{
    let lowered = to_lowercase(label);
    let l = lowered.as_str();
    if contains(l, "ubuntu") {
        info.distro = Some(Distro::Ubuntu);
    } else if contains(l, "mint") {
        info.distro = Some(Distro::Mint);
    } else if contains(l, "fedora") {
        info.distro = Some(Distro::Fedora);
    } else if contains(l, "arch") {
        info.distro = Some(Distro::Arch);
    }
    if info.architecture.is_none() {
        info.architecture = infer_architecture(label);
    }
    if info.release.is_none() {
        info.release = capture_version(label);
    }
}

/// Learn from `/.disk/info`: its trimmed text is a label, and the edition
/// when none is known yet. Blank text teaches nothing.
pub fn infer_from_disk_info(body: &str, info: &mut IsoMetadata)
    ensures
        same_source(*old(info), *final(info)),
        final(info).rootfs_path == old(info).rootfs_path,
        trim(body@).len() == 0 ==> *final(info) == *old(info),
        trim(body@).len() > 0 ==> label_applied(*old(info), *final(info), trim(body@))
            && opt_view(final(info).edition) == (if old(info).edition is None {
            Some(trim(body@))
        } else {
            opt_view(old(info).edition)
        }),
{
    let trimmed = trim_exec(body);
    if trimmed.as_str().unicode_len() == 0 {
        return;
    }
    infer_from_label(trimmed.as_str(), info);
    if info.edition.is_none() {
        info.edition = Some(trimmed);
    }
}

/// The trimmed value of the last line of `lines` that starts with `key`.
pub open spec fn last_value(lines: Seq<Seq<char>>, key: Seq<char>) -> Option<Seq<char>>
    decreases lines.len(),
{
    if lines.len() == 0 {
        None
    } else {
        match after_prefix(lines.last(), key) {
            Some(v) => Some(trim(v)),
            None => last_value(lines.drop_last(), key),
        }
    }
}

/// The trimmed rest of a line that starts with `key`.
pub open spec fn line_value(line: Seq<char>, key: Seq<char>) -> Option<Seq<char>> {
    match after_prefix(line, key) {
        Some(v) => Some(trim(v)),
        None => None,
    }
}

/// A key's value is taken from the last line that starts with it: there is
/// a value exactly when some line starts with the key, and then it is that
/// line's trimmed rest, with no later line starting with the key.
pub proof fn law_treeinfo_last_line_wins(lines: Seq<Seq<char>>, key: Seq<char>)
    ensures
        last_value(lines, key) is None <==> forall|i: int|
            0 <= i < lines.len() ==> #[trigger] line_value(lines[i], key) is None,
        last_value(lines, key) is Some ==> exists|i: int|
            0 <= i < lines.len() && #[trigger] line_value(lines[i], key) == last_value(lines, key)
                && forall|j: int| i < j < lines.len() ==> line_value(lines[j], key) is None,
        lines.len() > 0 && line_value(lines.last(), key) is Some ==> last_value(lines, key)
            == line_value(lines.last(), key),
    decreases lines.len(),
{
    if lines.len() > 0 {
        let d = lines.drop_last();
        law_treeinfo_last_line_wins(d, key);
        let n = lines.len() - 1;
        assert(lines[n] == lines.last());
        assert forall|i: int| 0 <= i < d.len() implies line_value(lines[i], key) == line_value(
            #[trigger] d[i],
            key,
        ) by {
            assert(lines[i] == d[i]);
        }
        if line_value(lines.last(), key) is None {
            if last_value(d, key) is Some {
                let i = choose|i: int|
                    0 <= i < d.len() && #[trigger] line_value(d[i], key) == last_value(d, key)
                        && forall|j: int| i < j < d.len() ==> line_value(d[j], key) is None;
                assert(line_value(lines[i], key) == last_value(lines, key));
                assert forall|j: int| i < j < lines.len() implies line_value(lines[j], key) is None by {
                    if j < d.len() {
                        assert(lines[j] == d[j]);
                    }
                }
            }
            if forall|i: int| 0 <= i < lines.len() ==> #[trigger] line_value(lines[i], key) is None {
                assert forall|i: int| 0 <= i < d.len() implies #[trigger] line_value(d[i], key) is None by {
                    assert(lines[i] == d[i]);
                    assert(line_value(lines[i], key) is None);
                }
            }
            if last_value(d, key) is None {
                assert forall|i: int| 0 <= i < lines.len() implies #[trigger] line_value(
                    lines[i],
                    key,
                ) is None by {
                    if i < d.len() {
                        assert(lines[i] == d[i]);
                        assert(line_value(d[i], key) is None);
                    }
                }
            }
        } else {
            assert(line_value(lines[n], key) is Some);
        }
    }
}

/// Some `family =` line names Fedora.
pub open spec fn family_fedora(lines: Seq<Seq<char>>) -> bool {
    exists|i: int|
        0 <= i < lines.len() && #[trigger] after_prefix(lines[i], "family ="@) is Some
            && contains_seq(lowercase(trim(after_prefix(lines[i], "family ="@)->0)), "fedora"@)
}

pub open spec fn or_else(v: Option<Seq<char>>, o: Option<String>) -> Option<Seq<char>> {
    match v {
        Some(x) => Some(x),
        None => opt_view(o),
    }
}

/// What `.treeinfo` lines set.
pub open spec fn treeinfo_applied(old_info: IsoMetadata, new_info: IsoMetadata, lines: Seq<Seq<char>>) -> bool {
    &&& new_info.distro == (if family_fedora(lines) {
        Some(Distro::Fedora)
    } else {
        old_info.distro
    })
    &&& opt_view(new_info.release) == or_else(last_value(lines, "version ="@), old_info.release)
    &&& opt_view(new_info.architecture) == or_else(
        last_value(lines, "arch ="@),
        old_info.architecture,
    )
    &&& opt_view(new_info.edition) == or_else(last_value(lines, "variant ="@), old_info.edition)
}

fn set_from_line(line: &str, key: &str, field: &mut Option<String>)
    ensures
        opt_view(*final(field)) == match after_prefix(line@, key@) {
            Some(v) => Some(trim(v)),
            None => opt_view(*old(field)),
        },
{
    if let Some(v) = strip_prefix_exec(line, key) {
        *field = Some(trim_exec(v.as_str()));
    }
}

/// Learn from `/.treeinfo`: `family`, `version`, `arch` and `variant` lines;
/// the root file system defaults to `LiveOS/squashfs.img`.
pub fn infer_from_treeinfo(body: &str, info: &mut IsoMetadata)
    ensures
        same_source(*old(info), *final(info)),
        treeinfo_applied(*old(info), *final(info), lines_of(body@)),
        opt_view(final(info).rootfs_path) == (if old(info).rootfs_path is None {
            Some("LiveOS/squashfs.img"@)
        } else {
            opt_view(old(info).rootfs_path)
        }),
{
    let lines = lines_exec(body);
    let ghost ls = strs(lines@);
    let ghost start = *info;
    let mut i: usize = 0;
    while i < lines.len()
        invariant
            i <= lines@.len(),
            ls == strs(lines@),
            same_source(start, *info),
            info.rootfs_path == start.rootfs_path,
            treeinfo_applied(start, *info, ls.take(i as int)),
        decreases lines.len() - i,
    {
        let line = lines[i].as_str();
        let ghost prev = ls.take(i as int);
        let ghost cur = ls.take(i + 1);
        assert(cur.drop_last() =~= prev);
        assert(cur.last() == line@);
        if let Some(v) = strip_prefix_exec(line, "family =") {
            let t = trim_exec(v.as_str());
            let family = to_lowercase(t.as_str());
            if contains(family.as_str(), "fedora") {
                info.distro = Some(Distro::Fedora);
            }
        }
        set_from_line(line, "version =", &mut info.release);
        set_from_line(line, "arch =", &mut info.architecture);
        set_from_line(line, "variant =", &mut info.edition);
        proof {
            if family_fedora(cur) {
                let w = choose|k: int|
                    0 <= k < cur.len() && #[trigger] after_prefix(cur[k], "family ="@) is Some
                        && contains_seq(
                        lowercase(trim(after_prefix(cur[k], "family ="@)->0)),
                        "fedora"@,
                    );
                if w < prev.len() {
                    assert(prev[w] == cur[w]);
                    assert(family_fedora(prev));
                }
            }
            if family_fedora(prev) {
                let w = choose|k: int|
                    0 <= k < prev.len() && #[trigger] after_prefix(prev[k], "family ="@) is Some
                        && contains_seq(
                        lowercase(trim(after_prefix(prev[k], "family ="@)->0)),
                        "fedora"@,
                    );
                assert(cur[w] == prev[w]);
            }
        }
        i = i + 1;
    }
    assert(ls.take(lines@.len() as int) =~= ls);
    if info.rootfs_path.is_none() {
        info.rootfs_path = Some(owned("LiveOS/squashfs.img"));
    }
}

/// Learn from `/arch/version`: the image is Arch Linux, its first line
/// (trimmed, when not blank) is the release, and the root file system
/// defaults to `arch/x86_64/airootfs.sfs`.
pub fn infer_from_arch_version(body: &str, info: &mut IsoMetadata)
    ensures
        same_source(*old(info), *final(info)),
        final(info).distro == Some(Distro::Arch),
        final(info).architecture == old(info).architecture,
        final(info).edition == old(info).edition,
        opt_view(final(info).release) == (if lines_of(body@).len() > 0 && trim(
            lines_of(body@)[0],
        ).len() > 0 {
            Some(trim(lines_of(body@)[0]))
        } else {
            opt_view(old(info).release)
        }),
        opt_view(final(info).rootfs_path) == (if old(info).rootfs_path is None {
            Some("arch/x86_64/airootfs.sfs"@)
        } else {
            opt_view(old(info).rootfs_path)
        }),
{
    info.distro = Some(Distro::Arch);
    let lines = lines_exec(body);
    if lines.len() > 0 {
        let first = trim_exec(lines[0].as_str());
        if first.as_str().unicode_len() > 0 {
            info.release = Some(first);
        }
    }
    if info.rootfs_path.is_none() {
        info.rootfs_path = Some(owned("arch/x86_64/airootfs.sfs"));
    }
}

// ---------------------------------------------------------------------------
// Boot catalogue and root file system
// ---------------------------------------------------------------------------

/// The boot support an El Torito report shows: `bios` (or `uefi`) anywhere
/// in the lower-cased output.
pub open spec fn boot_from_report(stdout: Seq<char>, stderr: Seq<char>) -> BootSupport {
    let report = lowercase(stdout) + "\n"@ + lowercase(stderr);
    BootSupport {
        bios: contains_seq(report, "pltf  bios"@) || contains_seq(report, "boot img :   1  bios"@)
            || contains_seq(report, "bios"@),
        uefi: contains_seq(report, "pltf  uefi"@) || contains_seq(report, "boot img :   2  uefi"@)
            || contains_seq(report, "uefi"@),
    }
}

/// Boot support from the output of `xorriso -report_el_torito plain`.
pub fn boot_support_from_report(stdout: &str, stderr: &str) -> (r: BootSupport)
    ensures
        r == boot_from_report(stdout@, stderr@),
{
    let mut report = to_lowercase(stdout);
    report.append("\n");
    let lower_err = to_lowercase(stderr);
    report.append(lower_err.as_str());
    let t = report.as_str();
    let bios = contains(t, "pltf  bios") || contains(t, "boot img :   1  bios") || contains(
        t,
        "bios",
    );
    let uefi = contains(t, "pltf  uefi") || contains(t, "boot img :   2  uefi") || contains(
        t,
        "uefi",
    );
    BootSupport { bios, uefi }
}

/// The root file system images looked for, in order.
pub fn rootfs_candidates() -> (r: Vec<String>)
    ensures
        strs(r@) == seq![
            "/casper/filesystem.squashfs"@,
            "/live/filesystem.squashfs"@,
            "/arch/x86_64/airootfs.sfs"@,
            "/LiveOS/squashfs.img"@,
        ],
{
    let mut r: Vec<String> = Vec::new();
    r.push(owned("/casper/filesystem.squashfs"));
    r.push(owned("/live/filesystem.squashfs"));
    r.push(owned("/arch/x86_64/airootfs.sfs"));
    r.push(owned("/LiveOS/squashfs.img"));
    assert(strs(r@) =~= seq![
        "/casper/filesystem.squashfs"@,
        "/live/filesystem.squashfs"@,
        "/arch/x86_64/airootfs.sfs"@,
        "/LiveOS/squashfs.img"@,
    ]);
    r
}

/// The recorded root file system path of a found candidate: without its
/// leading slashes.
pub fn rootfs_relative(candidate: &str) -> (r: String)
    ensures
        r@ == crate::text::strip_lead(candidate@, '/'),
{
    let n = candidate.unicode_len();
    let mut i: usize = 0;
    assert(candidate@.subrange(0, n as int) =~= candidate@);
    while i < n && candidate.get_char(i) == '/'
        invariant
            n == candidate@.len(),
            i <= n,
            crate::text::strip_lead(candidate@, '/') == crate::text::strip_lead(
                candidate@.subrange(i as int, n as int),
                '/',
            ),
        decreases n - i,
    {
        let ghost rest = candidate@.subrange(i as int, n as int);
        assert(rest.drop_first() =~= candidate@.subrange(i + 1, n as int));
        i = i + 1;
    }
    let rest = candidate.substring_char(i, n);
    assert(i < n ==> rest@[0] != '/');
    owned(rest)
}

/// Whether a `-find ... report_found` run found the path.
pub fn listing_mentions(stdout: &str, stderr: &str, iso_path: &str) -> (b: bool)
    ensures
        b == (contains_seq(stdout@, iso_path@) || contains_seq(stderr@, iso_path@)),
{
    contains(stdout, iso_path) || contains(stderr, iso_path)
}

// ---------------------------------------------------------------------------
// The primary volume descriptor
// ---------------------------------------------------------------------------

/// Bytes 1..6 of the descriptor are the standard identifier `CD001`.
pub open spec fn has_iso_magic(sector: Seq<u8>) -> bool {
    sector.len() >= 6 && sector[1] == 0x43u8 && sector[2] == 0x44u8 && sector[3] == 0x30u8
        && sector[4] == 0x30u8 && sector[5] == 0x31u8
}

/// The volume label of a primary volume descriptor: bytes 40..72 decoded,
/// with surrounding whitespace and NUL padding removed.
pub open spec fn volume_label(sector: Seq<u8>) -> Seq<char> {
    trim(trim_char(trim(utf8_lossy(sector.subrange(40, 72))), '\0'))
}

/// The volume identifier in the primary volume descriptor (sector 16, 2048
/// bytes, read by the caller) of the image at `path`: `None` when blank;
/// an error when the sector is no ISO-9660 descriptor.
pub fn volume_id_from_sector(path: &str, sector: &Vec<u8>) -> (r: Result<Option<String>, EngineError>)
    requires
        sector@.len() == 2048,
    ensures
        !has_iso_magic(sector@) ==> (r matches Err(EngineError::InvalidConfig(m)) && m@ == path@
            + " is not an ISO-9660 image"@),
        has_iso_magic(sector@) ==> (r matches Ok(v) && opt_view(v) == (if volume_label(sector@).len()
            == 0 {
            None::<Seq<char>>
        } else {
            Some(volume_label(sector@))
        })),
{
    if !(sector[1] == 0x43u8 && sector[2] == 0x44u8 && sector[3] == 0x30u8 && sector[4] == 0x30u8
        && sector[5] == 0x31u8) {
        return Err(EngineError::InvalidConfig(cat(path, " is not an ISO-9660 image")));
    }
    let raw = byte_range(sector, 40, 72);
    let text = utf8_lossy_exec(raw.as_slice());
    let t1 = trim_exec(text.as_str());
    let t2 = trim_char_exec(t1.as_str(), '\0');
    let t3 = trim_exec(t2.as_str());
    if t3.as_str().unicode_len() == 0 {
        Ok(None)
    } else {
        Ok(Some(t3))
    }
}

} // verus!

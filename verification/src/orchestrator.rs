//! The decisions of the build, inject, verify, diff and test pipelines:
//! names, command lines, checksum lookup, file-list comparison and verdicts.
//! The processes, files and downloads they concern are handled by the caller.

use vstd::prelude::*;
use crate::config::Distro;
use crate::error::EngineError;
use crate::iso::IsoMetadata;
use crate::text::{
    cat, cat3, contains, contains_seq, decimal, decimal_string, ends_with, has_suffix,
    is_ascii_alnum, is_ascii_alnum_char, join, join_strings, lemma_split_on_nonempty, lowercase,
    opt_view, owned, push_line, replace_all, replace_all_exec, split_on, split_on_exec,
    strip_lead, strip_trail, strs, to_lowercase, trim, trim_char, trim_char_exec, trim_exec,
};

verus! {

// ---------------------------------------------------------------------------
// Results handed back to callers
// ---------------------------------------------------------------------------

/// The output of a finished process.
#[derive(Clone, Debug)]
pub struct CommandOutput {
    pub program: String,
    pub status: i32,
    pub stdout: String,
    pub stderr: String,
}

/// Host prerequisites. `tooling` lists each tool with whether it is on the
/// `PATH`, by tool name.
#[derive(Clone, Debug)]
pub struct DoctorReport {
    pub host_os: String,
    pub host_arch: String,
    pub linux_supported: bool,
    pub tooling: Vec<(String, bool)>,
    pub warnings: Vec<String>,
    pub timestamp: String,
}

#[derive(Clone, Debug)]
pub struct BuildResult {
    pub workspace_root: String,
    pub output_dir: String,
    pub report_json: String,
    pub report_html: String,
    pub artifacts: Vec<String>,
    pub iso: IsoMetadata,
}

/// A finished scan and where its report was written.
#[derive(Clone, Debug)]
pub struct ScanResult {
    pub report: crate::scanner::ScanSummary,
    pub report_json: String,
}

#[derive(Clone, Debug)]
pub struct TestResult {
    pub bios: bool,
    pub uefi: bool,
    pub logs: Vec<String>,
    pub passed: bool,
}

#[derive(Clone, Debug)]
pub struct VerifyResult {
    pub filename: String,
    pub expected: String,
    pub actual: String,
    pub matched: bool,
}

#[derive(Clone, Debug)]
pub struct DiffEntry {
    pub path: String,
    pub base_size: u64,
    pub target_size: u64,
}

#[derive(Clone, Debug)]
pub struct IsoDiff {
    pub added: Vec<String>,
    pub removed: Vec<String>,
    pub modified: Vec<DiffEntry>,
    pub unchanged: usize,
}

// ---------------------------------------------------------------------------
// Names
// ---------------------------------------------------------------------------

/// Root file systems that can be unpacked and packed again.
pub open spec fn squashfs_like(path: Seq<char>) -> bool {
    has_suffix(path, ".squashfs"@) || has_suffix(path, ".sfs"@) || has_suffix(path, ".erofs"@)
}

pub fn is_squashfs_path(path: &str) -> (b: bool)
    ensures
        b == squashfs_like(path@),
{
    ends_with(path, ".squashfs") || ends_with(path, ".sfs") || ends_with(path, ".erofs")
}

/// What a build does with the root file system image of the source: it is
/// unpacked, overlaid and packed again only when it exists and is a
/// squashfs-like image; otherwise the build says why it is left alone.
#[derive(Clone, Debug)]
pub struct RootfsDecision {
    pub rewrite: bool,
    pub warning: Option<String>,
}

pub open spec fn rootfs_warning(rootfs_path: Option<Seq<char>>, image_exists: bool) -> Option<Seq<char>> {
    match rootfs_path {
        None => Some("No known root filesystem image was detected inside the ISO"@),
        Some(p) => if image_exists && !squashfs_like(p) {
            Some(
                "Root filesystem image '"@ + p
                    + "' is not yet rewriteable offline; only top-level ISO files will be updated"@,
            )
        } else {
            None
        },
    }
}

/// The decision for the image at `rootfs_path` (relative to the ISO root),
/// given whether it exists in the extracted tree.
pub fn rootfs_decision(rootfs_path: Option<&str>, image_exists: bool) -> (r: RootfsDecision)
    ensures
        r.rewrite == (rootfs_path matches Some(p) && image_exists && squashfs_like(p@)),
        opt_view(r.warning) == rootfs_warning(
            match rootfs_path {
                Some(p) => Some(p@),
                None => None,
            },
            image_exists,
        ),
{
    match rootfs_path {
        None => RootfsDecision {
            rewrite: false,
            warning: Some(owned("No known root filesystem image was detected inside the ISO")),
        },
        Some(p) => {
            let squash = is_squashfs_path(p);
            if image_exists && squash {
                RootfsDecision { rewrite: true, warning: None }
            } else if image_exists {
                RootfsDecision {
                    rewrite: false,
                    warning: Some(
                        cat3(
                            "Root filesystem image '",
                            p,
                            "' is not yet rewriteable offline; only top-level ISO files will be updated",
                        ),
                    ),
                }
            } else {
                RootfsDecision { rewrite: false, warning: None }
            }
        },
    }
}

/// The chars kept in file names.
pub open spec fn filename_char(c: char) -> bool {
    is_ascii_alnum(c) || c == '.' || c == '-' || c == '_'
}

/// Every other char becomes `-`.
pub open spec fn filename_chars(s: Seq<char>) -> Seq<char> {
    Seq::new(s.len(), |i: int| if filename_char(s[i]) { s[i] } else { '-' })
}

/// A file name made of ASCII letters, digits, `.`, `-` and `_`, without
/// leading or trailing `-`.
pub open spec fn sanitized(s: Seq<char>) -> Seq<char> {
    trim_char(filename_chars(s), '-')
}

pub fn sanitize_filename(input: &str) -> (r: String)
    ensures
        r@ == sanitized(input@),
{
    let n = input.unicode_len();
    let mut mapped = String::new();
    let mut i: usize = 0;
    while i < n
        invariant
            n == input@.len(),
            i <= n,
            mapped@ == filename_chars(input@).take(i as int),
        decreases n - i,
    {
        let c = input.get_char(i);
        let keep = is_ascii_alnum_char(c) || c == '.' || c == '-' || c == '_';
        if keep {
            crate::text::string_push(&mut mapped, c);
        } else {
            crate::text::string_push(&mut mapped, '-');
        }
        assert(filename_chars(input@).take(i + 1) =~= filename_chars(input@).take(i as int).push(
            filename_chars(input@)[i as int],
        ));
        i = i + 1;
    }
    assert(filename_chars(input@).take(n as int) =~= filename_chars(input@));
    trim_char_exec(mapped.as_str(), '-')
}

proof fn lemma_strip_lead_suffix(s: Seq<char>, c: char) -> (k: int)
    ensures
        0 <= k <= s.len(),
        strip_lead(s, c) == s.subrange(k, s.len() as int),
        k < s.len() ==> s[k] != c,
    decreases s.len(),
{
    if s.len() > 0 && s[0] == c {
        let k1 = lemma_strip_lead_suffix(s.drop_first(), c);
        assert(s.drop_first().subrange(k1, s.drop_first().len() as int) =~= s.subrange(
            k1 + 1,
            s.len() as int,
        ));
        k1 + 1
    } else {
        assert(s.subrange(0, s.len() as int) =~= s);
        0
    }
}

proof fn lemma_strip_trail_prefix(s: Seq<char>, c: char) -> (k: int)
    ensures
        0 <= k <= s.len(),
        strip_trail(s, c) == s.subrange(0, k),
        k > 0 ==> s[k - 1] != c,
    decreases s.len(),
{
    if s.len() > 0 && s.last() == c {
        let k1 = lemma_strip_trail_prefix(s.drop_last(), c);
        assert(s.drop_last().subrange(0, k1) =~= s.subrange(0, k1));
        k1
    } else {
        assert(s.subrange(0, s.len() as int) =~= s);
        s.len() as int
    }
}

/// `trim_char` takes a slice of its input whose ends are not `c`.
proof fn lemma_trim_char(s: Seq<char>, c: char) -> (r: (int, int))
    ensures
        0 <= r.0 <= r.1 <= s.len(),
        trim_char(s, c) == s.subrange(r.0, r.1),
        r.0 < r.1 ==> s[r.0] != c && s[r.1 - 1] != c,
{
    let a = lemma_strip_lead_suffix(s, c);
    let u = s.subrange(a, s.len() as int);
    let b = lemma_strip_trail_prefix(u, c);
    assert(u.subrange(0, b) =~= s.subrange(a, a + b));
    (a, a + b)
}

/// A sanitized file name keeps only ASCII letters, digits, `.`, `-` and `_`,
/// never starts or ends with `-`, and sanitizing it again changes nothing.
pub proof fn law_sanitize_filename(s: Seq<char>)
    ensures
        forall|i: int| 0 <= i < sanitized(s).len() ==> filename_char(#[trigger] sanitized(s)[i]),
        sanitized(s).len() > 0 ==> sanitized(s)[0] != '-' && sanitized(s).last() != '-',
        sanitized(sanitized(s)) == sanitized(s),
{
    let m = filename_chars(s);
    let (a, b) = lemma_trim_char(m, '-');
    let t = sanitized(s);
    assert(t == m.subrange(a, b));
    assert forall|i: int| 0 <= i < t.len() implies filename_char(#[trigger] t[i]) by {
        assert(t[i] == m[a + i]);
    }
    assert(filename_chars(t) =~= t);
    let (a2, b2) = lemma_trim_char(t, '-');
    if t.len() > 0 {
        assert(t[0] == m[a]);
        assert(t.last() == m[b - 1]);
        assert(a2 == 0) by {
            if a2 > 0 {
                let k = lemma_strip_lead_suffix(t, '-');
                assert(strip_lead(t, '-') == t);
            }
        }
    }
    assert(strip_lead(t, '-') == t);
    assert(strip_trail(t, '-') == t);
}

/// The name of the output image of a build: the sanitized build name with
/// `.iso` appended.
pub fn output_iso_name(build_name: &str) -> (r: String)
    ensures
        r@ == sanitized(build_name@) + ".iso"@,
{
    let s = sanitize_filename(build_name);
    cat(s.as_str(), ".iso")
}

/// The decimal text of a signed integer.
pub open spec fn int_text(n: int) -> Seq<char> {
    if n < 0 {
        "-"@ + decimal((-n) as nat)
    } else {
        decimal(n as nat)
    }
}

pub fn i64_text(n: i64) -> (r: String)
    ensures
        r@ == int_text(n as int),
{
    if n < 0 {
        let m: i128 = -(n as i128);
        let digits = decimal_string(m as u64);
        cat("-", digits.as_str())
    } else {
        decimal_string(n as u64)
    }
}

/// The file name a download is stored under: the sanitized last `/` segment
/// of the URL, or `download-<timestamp>.iso` when that is empty.
pub open spec fn download_name(url: Seq<char>, timestamp: int) -> Seq<char> {
    let seg = split_on(url, '/').last();
    if seg.len() > 0 && sanitized(seg).len() > 0 {
        sanitized(seg)
    } else {
        "download-"@ + int_text(timestamp) + ".iso"@
    }
}

proof fn lemma_decimal_filename_chars(n: nat)
    ensures
        forall|i: int| 0 <= i < decimal(n).len() ==> filename_char(#[trigger] decimal(n)[i]),
    decreases n,
{
    if n >= 10 {
        lemma_decimal_filename_chars(n / 10);
        let d = decimal(n / 10);
        assert forall|i: int| 0 <= i < decimal(n).len() implies filename_char(
            #[trigger] decimal(n)[i],
        ) by {
            if i < d.len() {
                assert(decimal(n)[i] == d[i]);
            }
        }
    }
}

/// A download is always stored under a non-empty name made of ASCII
/// letters, digits, `.`, `-` and `_` only: it holds no `/`.
pub proof fn law_download_name_is_plain(url: Seq<char>, timestamp: int)
    ensures
        download_name(url, timestamp).len() > 0,
        forall|i: int|
            0 <= i < download_name(url, timestamp).len() ==> filename_char(
                #[trigger] download_name(url, timestamp)[i],
            ),
{
    let seg = split_on(url, '/').last();
    if seg.len() > 0 && sanitized(seg).len() > 0 {
        law_sanitize_filename(seg);
    } else {
        reveal_strlit("download-");
        reveal_strlit(".iso");
        reveal_strlit("-");
        let m: nat = if timestamp < 0 {
            (-timestamp) as nat
        } else {
            timestamp as nat
        };
        lemma_decimal_filename_chars(m);
        let t = int_text(timestamp);
        assert forall|i: int| 0 <= i < t.len() implies filename_char(#[trigger] t[i]) by {
            if timestamp < 0 {
                if i > 0 {
                    assert(t[i] == decimal(m)[i - 1]);
                }
            } else {
                assert(t[i] == decimal(m)[i]);
            }
        }
        let a = "download-"@;
        let b = ".iso"@;
        let full = a + t + b;
        assert forall|i: int| 0 <= i < full.len() implies filename_char(#[trigger] full[i]) by {
            if i < a.len() {
                assert(full[i] == a[i]);
            } else if i < a.len() + t.len() {
                assert(full[i] == t[i - a.len()]);
            } else {
                assert(full[i] == b[i - a.len() - t.len()]);
            }
        }
    }
}

pub fn download_filename_at(url: &str, timestamp: i64) -> (r: String)
    ensures
        r@ == download_name(url@, timestamp as int),
{
    let segs = split_on_exec(url, '/');
    proof {
        lemma_split_on_nonempty(url@, '/');
    }
    let seg = segs[segs.len() - 1].as_str();
    assert(seg@ == split_on(url@, '/').last());
    if seg.unicode_len() > 0 {
        let s = sanitize_filename(seg);
        if s.as_str().unicode_len() > 0 {
            return s;
        }
    }
    let ts = i64_text(timestamp);
    cat3("download-", ts.as_str(), ".iso")
}

/// The current Unix time in seconds (`chrono::Utc::now().timestamp()`).
#[verifier::external_body]
fn unix_timestamp_now() -> (t: i64) {
    chrono::Utc::now().timestamp()
}

/// The download file name, the fallback stamped with the current time.
pub fn download_filename(url: &str) -> (r: String)
    ensures
        exists|t: int| r@ == download_name(url@, t),
{
    let t = unix_timestamp_now();
    download_filename_at(url, t)
}

// ---------------------------------------------------------------------------
// Command lines
// ---------------------------------------------------------------------------

/// The arguments without every `-V` / `-volid` flag and the value after it.
pub open spec fn without_volume_args(args: Seq<Seq<char>>) -> Seq<Seq<char>>
    decreases args.len(),
{
    if args.len() == 0 {
        Seq::empty()
    } else if args[0] == "-V"@ || args[0] == "-volid"@ {
        if args.len() >= 2 {
            without_volume_args(args.subrange(2, args.len() as int))
        } else {
            Seq::empty()
        }
    } else {
        seq![args[0]] + without_volume_args(args.drop_first())
    }
}

pub fn strip_volume_args(args: &Vec<String>) -> (r: Vec<String>)
    ensures
        strs(r@) == without_volume_args(strs(args@)),
{
    let ghost all = strs(args@);
    let mut filtered: Vec<String> = Vec::new();
    let mut index: usize = 0;
    assert(all.subrange(0, all.len() as int) =~= all);
    assert(strs(filtered@) =~= Seq::<Seq<char>>::empty());
    while index < args.len()
        invariant
            all == strs(args@),
            index <= args@.len(),
            strs(filtered@) + without_volume_args(all.subrange(index as int, all.len() as int))
                == without_volume_args(all),
        decreases args.len() - index,
    {
        let ghost rest = all.subrange(index as int, all.len() as int);
        let arg = args[index].as_str();
        assert(rest[0] == arg@);
        if crate::text::str_eq(arg, "-V") || crate::text::str_eq(arg, "-volid") {
            if index + 1 < args.len() {
                assert(rest.subrange(2, rest.len() as int) =~= all.subrange(
                    index + 2,
                    all.len() as int,
                ));
                index = index + 2;
            } else {
                assert(without_volume_args(rest) =~= Seq::<Seq<char>>::empty());
                assert(all.subrange(all.len() as int, all.len() as int) =~= Seq::<
                    Seq<char>,
                >::empty());
                index = args.len();
            }
        } else {
            let ghost before = strs(filtered@);
            push_line(&mut filtered, args[index].clone());
            assert(rest.drop_first() =~= all.subrange(index + 1, all.len() as int));
            assert(before + without_volume_args(rest) =~= strs(filtered@) + without_volume_args(
                rest.drop_first(),
            ));
            index = index + 1;
        }
    }
    assert(all.subrange(all.len() as int, all.len() as int) =~= Seq::<Seq<char>>::empty());
    assert(strs(filtered@) + Seq::<Seq<char>>::empty() =~= strs(filtered@));
    filtered
}

/// After stripping, no `-V` or `-volid` flag is left, and an argument list
/// without such a flag is kept as it is.
pub proof fn law_strip_volume_args(args: Seq<Seq<char>>)
    ensures
        forall|i: int|
            0 <= i < without_volume_args(args).len() ==> #[trigger] without_volume_args(args)[i]
                != "-V"@ && without_volume_args(args)[i] != "-volid"@,
        (forall|i: int| 0 <= i < args.len() ==> args[i] != "-V"@ && args[i] != "-volid"@)
            ==> without_volume_args(args) == args,
    decreases args.len(),
{
    if args.len() > 0 {
        if args[0] == "-V"@ || args[0] == "-volid"@ {
            if args.len() >= 2 {
                law_strip_volume_args(args.subrange(2, args.len() as int));
                assert(without_volume_args(args) == without_volume_args(
                    args.subrange(2, args.len() as int),
                ));
            } else {
                assert(without_volume_args(args).len() == 0);
            }
            assert(exists|i: int| 0 <= i < args.len() && !(args[i] != "-V"@ && args[i] != "-volid"@));
        } else {
            let rest = args.drop_first();
            law_strip_volume_args(rest);
            let r = without_volume_args(args);
            assert(r == seq![args[0]] + without_volume_args(rest));
            assert forall|i: int| 0 <= i < r.len() implies #[trigger] r[i] != "-V"@ && r[i]
                != "-volid"@ by {
                if i > 0 {
                    assert(r[i] == without_volume_args(rest)[i - 1]);
                } else {
                    assert(r[0] == args[0]);
                }
            }
            if forall|i: int| 0 <= i < args.len() ==> args[i] != "-V"@ && args[i] != "-volid"@ {
                assert forall|i: int| 0 <= i < rest.len() implies rest[i] != "-V"@ && rest[i]
                    != "-volid"@ by {
                    assert(rest[i] == args[i + 1]);
                }
                assert(seq![args[0]] + rest =~= args);
            }
        }
    }
}

/// The QEMU arguments of a boot smoke test writing its serial console to
/// `log`; `firmware` is passed as `-bios` for UEFI.
pub open spec fn qemu_args(iso: Seq<char>, firmware: Option<Seq<char>>, log: Seq<char>) -> Seq<Seq<char>> {
    seq![
        "-m"@,
        "2048"@,
        "-boot"@,
        "d"@,
        "-cdrom"@,
        iso,
        "-display"@,
        "none"@,
        "-serial"@,
        "file:"@ + log,
        "-monitor"@,
        "none"@,
        "-no-reboot"@,
    ] + match firmware {
        Some(f) => seq!["-bios"@, f],
        None => Seq::empty(),
    }
}

pub fn qemu_smoke_args(iso: &str, firmware: Option<&str>, log: &str) -> (r: Vec<String>)
    ensures
        strs(r@) == qemu_args(
            iso@,
            match firmware {
                Some(f) => Some(f@),
                None => None,
            },
            log@,
        ),
{
    let mut a: Vec<String> = Vec::new();
    a.push(owned("-m"));
    a.push(owned("2048"));
    a.push(owned("-boot"));
    a.push(owned("d"));
    a.push(owned("-cdrom"));
    a.push(owned(iso));
    a.push(owned("-display"));
    a.push(owned("none"));
    a.push(owned("-serial"));
    a.push(cat("file:", log));
    a.push(owned("-monitor"));
    a.push(owned("none"));
    a.push(owned("-no-reboot"));
    if let Some(f) = firmware {
        a.push(owned("-bios"));
        a.push(owned(f));
    }
    assert(strs(a@) =~= qemu_args(
        iso@,
        match firmware {
            Some(f) => Some(f@),
            None => None,
        },
        log@,
    ));
    a
}

/// The OVMF firmware files looked for, in order.
pub fn ovmf_candidates() -> (r: Vec<String>)
    ensures
        strs(r@) == seq![
            "/usr/share/OVMF/OVMF_CODE.fd"@,
            "/usr/share/edk2/ovmf/OVMF_CODE.fd"@,
            "/usr/share/edk2/x64/OVMF_CODE.fd"@,
        ],
{
    let mut r: Vec<String> = Vec::new();
    r.push(owned("/usr/share/OVMF/OVMF_CODE.fd"));
    r.push(owned("/usr/share/edk2/ovmf/OVMF_CODE.fd"));
    r.push(owned("/usr/share/edk2/x64/OVMF_CODE.fd"));
    assert(strs(r@) =~= seq![
        "/usr/share/OVMF/OVMF_CODE.fd"@,
        "/usr/share/edk2/ovmf/OVMF_CODE.fd"@,
        "/usr/share/edk2/x64/OVMF_CODE.fd"@,
    ]);
    r
}

/// A serial log shows a failed boot.
pub open spec fn boot_failure_text(lower: Seq<char>) -> bool {
    contains_seq(lower, "no bootable option or device"@) || contains_seq(
        lower,
        "failed to load boot"@,
    ) || contains_seq(lower, "kernel panic"@) || contains_seq(lower, "boot failed"@)
        || contains_seq(lower, "no bootable device"@)
}

/// A smoke test log passes when it is not empty and, lower-cased, names no
/// boot failure. `size` is the file's length in bytes, `body` its text.
pub open spec fn log_passes(size: u64, body: Seq<char>) -> bool {
    size != 0 && !boot_failure_text(lowercase(body))
}

pub fn boot_log_passed(size: u64, body: &str) -> (b: bool)
    ensures
        b == log_passes(size, body@),
{
    if size == 0 {
        return false;
    }
    let lower = to_lowercase(body);
    let l = lower.as_str();
    !(contains(l, "no bootable option or device") || contains(l, "failed to load boot")
        || contains(l, "kernel panic") || contains(l, "boot failed") || contains(
        l,
        "no bootable device",
    ))
}

/// A smoke test passes when every log passes.
pub fn smoke_test_passed(logs: &Vec<(u64, String)>) -> (b: bool)
    ensures
        b == (forall|i: int| 0 <= i < logs@.len() ==> log_passes(#[trigger] logs@[i].0, logs@[i].1@)),
{
    let mut passed = true;
    let mut i: usize = 0;
    while i < logs.len()
        invariant
            i <= logs@.len(),
            passed == (forall|k: int| 0 <= k < i ==> log_passes(#[trigger] logs@[k].0, logs@[k].1@)),
        decreases logs.len() - i,
    {
        let ok = boot_log_passed(logs[i].0, logs[i].1.as_str());
        if !ok {
            passed = false;
        }
        i = i + 1;
    }
    passed
}

/// The boot arguments added to the kernel command line by an injection.
pub fn kernel_append() -> (r: String)
    ensures
        r@ == " autoinstall ds=nocloud;s=/cdrom/nocloud/"@,
{
    owned(" autoinstall ds=nocloud;s=/cdrom/nocloud/")
}

/// `grub.cfg` with `append` after every `linux\t/boot/vmlinuz`.
pub fn patch_grub_cfg(content: &str, append: &str) -> (r: String)
    ensures
        r@ == replace_all(content@, "linux\t/boot/vmlinuz"@, "linux\t/boot/vmlinuz"@ + append@),
{
    let to = cat("linux\t/boot/vmlinuz", append);
    proof {
        reveal_strlit("linux\t/boot/vmlinuz");
    }
    replace_all_exec(content, "linux\t/boot/vmlinuz", to.as_str())
}

/// `isolinux.cfg` with `append` after every `/vmlinuz`.
pub fn patch_isolinux_cfg(content: &str, append: &str) -> (r: String)
    ensures
        r@ == replace_all(content@, "/vmlinuz"@, "/vmlinuz"@ + append@),
{
    let to = cat("/vmlinuz", append);
    proof {
        reveal_strlit("/vmlinuz");
    }
    replace_all_exec(content, "/vmlinuz", to.as_str())
}

// ---------------------------------------------------------------------------
// Host checks
// ---------------------------------------------------------------------------

/// The tools the doctor reports on, in name order.
pub open spec fn doctor_tool_names() -> Seq<Seq<char>> {
    seq![
        "grype"@,
        "mtools"@,
        "oscap"@,
        "ovmf"@,
        "qemu-system-x86_64"@,
        "squashfs-tools"@,
        "syft"@,
        "trivy"@,
        "xorriso"@,
    ]
}

pub fn doctor_tools() -> (r: Vec<String>)
    ensures
        strs(r@) == doctor_tool_names(),
{
    let mut r: Vec<String> = Vec::new();
    r.push(owned("grype"));
    r.push(owned("mtools"));
    r.push(owned("oscap"));
    r.push(owned("ovmf"));
    r.push(owned("qemu-system-x86_64"));
    r.push(owned("squashfs-tools"));
    r.push(owned("syft"));
    r.push(owned("trivy"));
    r.push(owned("xorriso"));
    assert(strs(r@) =~= doctor_tool_names());
    r
}

/// Whether a doctor tool is present: a package by the programs it ships
/// on PATH (`squashfs-tools`: `unsquashfs` and `mksquashfs`; `mtools`:
/// `mcopy`), OVMF, which is firmware, by `ovmf_found`, any other tool by its
/// own name on PATH.
fn doctor_probe(name: &str, ovmf_found: bool) -> (b: bool)
    ensures
        name@ == "ovmf"@ ==> b == ovmf_found,
{
    if crate::text::str_eq(name, "ovmf") {
        ovmf_found
    } else if crate::text::str_eq(name, "squashfs-tools") {
        tool_on_path("unsquashfs") && tool_on_path("mksquashfs")
    } else if crate::text::str_eq(name, "mtools") {
        tool_on_path("mcopy")
    } else {
        tool_on_path(name)
    }
}

pub open spec fn doctor_warning_list(linux: bool, xorriso: bool) -> Seq<Seq<char>> {
    (if linux {
        Seq::empty()
    } else {
        seq!["ISO build and VM test flows are only supported on Linux hosts"@]
    }) + (if xorriso {
        Seq::empty()
    } else {
        seq!["xorriso is required for deep ISO inspection and repacking"@]
    })
}

/// The doctor's warnings for a host.
pub fn doctor_warnings(linux_supported: bool, xorriso_available: bool) -> (r: Vec<String>)
    ensures
        strs(r@) == doctor_warning_list(linux_supported, xorriso_available),
{
    let mut w: Vec<String> = Vec::new();
    if !linux_supported {
        w.push(owned("ISO build and VM test flows are only supported on Linux hosts"));
    }
    let ghost mid = strs(w@);
    if !xorriso_available {
        w.push(owned("xorriso is required for deep ISO inspection and repacking"));
    }
    assert(strs(w@) =~= doctor_warning_list(linux_supported, xorriso_available));
    w
}

/// Whether a program is on the `PATH` (`which::which(tool).is_ok()`); this
/// depends on the machine and is not stated.
#[verifier::external_body]
pub(crate) fn tool_on_path(tool: &str) -> (b: bool) {
    which::which(tool).is_ok()
}

/// Each doctor tool with whether it is on the `PATH`, in name order.
/// The doctor's tool list: each tool of `doctor_tool_names`, in order, with
/// whether it was found (`ovmf_found` for the OVMF firmware).
pub fn doctor_tooling(ovmf_found: bool) -> (r: Vec<(String, bool)>)
    ensures
        tool_names(r@) == doctor_tool_names(),
        r@[3].1 == ovmf_found,
{
    let tools = doctor_tools();
    assert(strs(tools@).len() == tools@.len());
    let mut out: Vec<(String, bool)> = Vec::new();
    let mut i: usize = 0;
    assert(tool_names(out@) =~= strs(tools@).take(0));
    while i < tools.len()
        invariant
            i <= tools@.len(),
            tools@.len() == 9,
            strs(tools@) == doctor_tool_names(),
            tool_names(out@) == strs(tools@).take(i as int),
            i > 3 ==> out@[3].1 == ovmf_found,
        decreases tools.len() - i,
    {
        let found = doctor_probe(tools[i].as_str(), ovmf_found);
        let name = tools[i].clone();
        let ghost before = out@;
        out.push((name, found));
        assert(out@ == before.push((name, found)));
        assert(name@ == strs(tools@)[i as int]);
        assert(tool_names(out@) =~= tool_names(before).push(name@));
        assert(strs(tools@).take(i + 1) =~= strs(tools@).take(i as int).push(strs(tools@)[i as int]));
        assert(tool_names(out@) =~= strs(tools@).take(i + 1));
        proof {
            if i == 3 {
                reveal_strlit("ovmf");
                assert(doctor_tool_names()[3] == "ovmf"@);
            }
        }
        i = i + 1;
    }
    assert(strs(tools@).take(9) =~= strs(tools@));
    out
}

/// The names of a tool list, in order.
pub open spec fn tool_names(t: Seq<(String, bool)>) -> Seq<Seq<char>> {
    Seq::new(t.len(), |i: int| t[i].0@)
}

/// Whether the tool list marks `name` as available; the last entry for a
/// name counts, an absent name is unavailable.
pub open spec fn tool_flag(t: Seq<(String, bool)>, name: Seq<char>) -> bool
    decreases t.len(),
{
    if t.len() == 0 {
        false
    } else if t.last().0@ == name {
        t.last().1
    } else {
        tool_flag(t.drop_last(), name)
    }
}

fn tool_flag_exec(t: &Vec<(String, bool)>, name: &str) -> (b: bool)
    ensures
        b == tool_flag(t@, name@),
{
    let mut i: usize = t.len();
    assert(t@.take(t@.len() as int) =~= t@);
    while i > 0
        invariant
            i <= t@.len(),
            tool_flag(t@, name@) == tool_flag(t@.take(i as int), name@),
        decreases i,
    {
        assert(t@.take(i as int).drop_last() =~= t@.take(i - 1));
        assert(t@.take(i as int).last() == t@[i - 1]);
        if crate::text::str_eq(t[i - 1].0.as_str(), name) {
            return t[i - 1].1;
        }
        i = i - 1;
    }
    assert(t@.take(0) =~= Seq::<(String, bool)>::empty());
    false
}

/// The doctor's report on a host: Linux hosts are supported; the warnings
/// follow from that and from whether `xorriso` was found.
pub fn doctor_report(host_os: String, host_arch: String, tooling: Vec<(String, bool)>, timestamp: String) -> (r: DoctorReport)
    ensures
        r.host_os == host_os,
        r.host_arch == host_arch,
        r.linux_supported == (host_os@ == "linux"@),
        r.tooling == tooling,
        strs(r.warnings@) == doctor_warning_list(host_os@ == "linux"@, tool_flag(tooling@, "xorriso"@)),
        r.timestamp == timestamp,
{
    let linux = crate::text::str_eq(host_os.as_str(), "linux");
    let xorriso = tool_flag_exec(&tooling, "xorriso");
    let warnings = doctor_warnings(linux, xorriso);
    DoctorReport { host_os, host_arch, linux_supported: linux, tooling, warnings, timestamp }
}

/// The tools of `tools` that are not available, in order.
pub open spec fn missing_of(tools: Seq<Seq<char>>, available: Seq<bool>) -> Seq<Seq<char>>
    decreases tools.len(),
{
    if tools.len() == 0 {
        Seq::empty()
    } else {
        let rest = missing_of(tools.drop_last(), available);
        if tools.len() - 1 < available.len() && available[tools.len() - 1] {
            rest
        } else {
            rest.push(tools.last())
        }
    }
}

/// The verdict on required tools, given which are available.
pub fn missing_tools_error(tools: &Vec<String>, available: &Vec<bool>) -> (r: Result<(), EngineError>)
    requires
        available@.len() == tools@.len(),
    ensures
        missing_of(strs(tools@), available@).len() == 0 ==> r is Ok,
        missing_of(strs(tools@), available@).len() > 0 ==> (r matches Err(
            EngineError::MissingTool(m),
        ) && m@ == "missing local tools: "@ + join(missing_of(strs(tools@), available@), ", "@)),
{
    let ghost l = strs(tools@);
    let mut missing: Vec<String> = Vec::new();
    let mut i: usize = 0;
    while i < tools.len()
        invariant
            i <= tools@.len(),
            available@.len() == tools@.len(),
            l == strs(tools@),
            strs(missing@) == missing_of(l.take(i as int), available@),
        decreases tools.len() - i,
    {
        assert(l.take(i + 1).drop_last() =~= l.take(i as int));
        if !available[i] {
            push_line(&mut missing, tools[i].clone());
        }
        i = i + 1;
    }
    assert(l.take(tools@.len() as int) =~= l);
    if missing.len() == 0 {
        Ok(())
    } else {
        let names = join_strings(&missing, ", ");
        Err(EngineError::MissingTool(cat("missing local tools: ", names.as_str())))
    }
}

/// Fails with the list of required tools that are not on the `PATH`.
pub fn require_tools(tools: &Vec<String>) -> (r: Result<(), EngineError>)
    ensures
        tools@.len() == 0 ==> r is Ok,
        exists|available: Seq<bool>|
            #![trigger missing_of(strs(tools@), available)]
            available.len() == tools@.len() && (missing_of(strs(tools@), available).len() == 0
                ==> r is Ok) && (missing_of(strs(tools@), available).len() > 0 ==> (r matches Err(
                EngineError::MissingTool(m),
            ) && m@ == "missing local tools: "@ + join(missing_of(strs(tools@), available), ", "@))),
{
    let mut available: Vec<bool> = Vec::new();
    let mut i: usize = 0;
    while i < tools.len()
        invariant
            i <= tools@.len(),
            available@.len() == i,
        decreases tools.len() - i,
    {
        available.push(tool_on_path(tools[i].as_str()));
        i = i + 1;
    }
    proof {
        if tools@.len() == 0 {
            assert(strs(tools@) =~= Seq::<Seq<char>>::empty());
        }
    }
    missing_tools_error(tools, &available)
}

/// The `Debug` text of an optional exit code.
pub open spec fn code_text(code: Option<i32>) -> Seq<char> {
    match code {
        Some(c) => "Some("@ + int_text(c as int) + ")"@,
        None => "None"@,
    }
}

/// The error of a process that exited unsuccessfully.
pub fn command_status_error(program: &str, code: Option<i32>, stderr: &str) -> (e: EngineError)
    ensures
        e matches EngineError::Runtime(m) && m@ == program@ + " failed with status "@ + code_text(
            code,
        ) + ": "@ + trim(stderr@),
{
    let ct = match code {
        Some(c) => {
            let t = i64_text(c as i64);
            cat3("Some(", t.as_str(), ")")
        },
        None => owned("None"),
    };
    let mut m = cat(program, " failed with status ");
    m.append(ct.as_str());
    m.append(": ");
    let t = trim_exec(stderr);
    m.append(t.as_str());
    EngineError::Runtime(m)
}

// ---------------------------------------------------------------------------
// Repacking (xorriso -as mkisofs)
// ---------------------------------------------------------------------------

/// `shell_words::split`: the words of a line under POSIX shell quoting, or
/// `None` when a quote is not closed.
pub uninterp spec fn shell_words_split(line: Seq<char>) -> Option<Seq<Seq<char>>>;

/// `shell_words::split(line)`; its error is the fixed text `missing closing
/// quote`.
#[verifier::external_body]
fn shell_split(line: &str) -> (r: Result<Vec<String>, String>)
    ensures
        match r {
            Ok(v) => shell_words_split(line@) == Some(strs(v@)),
            Err(m) => shell_words_split(line@) is None && m@ == "missing closing quote"@,
        },
{
    match shell_words::split(line) {
        Ok(words) => Ok(words),
        Err(e) => Err(e.to_string()),
    }
}

/// The trimmed, non-blank lines of a report, in order.
pub open spec fn report_lines(lines: Seq<Seq<char>>) -> Seq<Seq<char>>
    decreases lines.len(),
{
    if lines.len() == 0 {
        Seq::empty()
    } else if trim(lines.last()).len() == 0 {
        report_lines(lines.drop_last())
    } else {
        report_lines(lines.drop_last()).push(trim(lines.last()))
    }
}

/// The first line that does not split.
pub open spec fn first_unsplittable(lines: Seq<Seq<char>>) -> Option<Seq<char>>
    decreases lines.len(),
{
    if lines.len() == 0 {
        None
    } else {
        match first_unsplittable(lines.drop_last()) {
            Some(l) => Some(l),
            None => if shell_words_split(lines.last()) is None {
                Some(lines.last())
            } else {
                None
            },
        }
    }
}

/// The words of all lines, in order.
pub open spec fn all_words(lines: Seq<Seq<char>>) -> Seq<Seq<char>>
    decreases lines.len(),
{
    if lines.len() == 0 {
        Seq::empty()
    } else {
        all_words(lines.drop_last()) + match shell_words_split(lines.last()) {
            Some(w) => w,
            None => Seq::empty(),
        }
    }
}

/// The boot arguments in an `-report_el_torito as_mkisofs` report: the
/// words of each non-blank line; an error names the first line with an
/// unclosed quote.
pub fn parse_mkisofs_report(report: &str) -> (r: Result<Vec<String>, EngineError>)
    ensures
        match first_unsplittable(report_lines(crate::text::lines_of(report@))) {
            Some(line) => r matches Err(EngineError::Runtime(m)) && m@
                == "failed to parse xorriso mkisofs report line '"@ + line
                + "': missing closing quote"@,
            None => r matches Ok(v) && strs(v@) == all_words(
                report_lines(crate::text::lines_of(report@)),
            ),
        },
{
    let lines = crate::text::lines_exec(report);
    let ghost all = strs(lines@);
    let mut args: Vec<String> = Vec::new();
    let mut i: usize = 0;
    assert(strs(args@) =~= Seq::<Seq<char>>::empty());
    while i < lines.len()
        invariant
            i <= lines@.len(),
            all == strs(lines@),
            all == crate::text::lines_of(report@),
            first_unsplittable(report_lines(all.take(i as int))) is None,
            strs(args@) == all_words(report_lines(all.take(i as int))),
        decreases lines.len() - i,
    {
        let ghost prev = all.take(i as int);
        let ghost cur = all.take(i + 1);
        assert(cur.drop_last() =~= prev);
        assert(cur.last() == lines@[i as int]@);
        let line = trim_exec(lines[i].as_str());
        if line.as_str().unicode_len() > 0 {
            let ghost rl = report_lines(cur);
            assert(rl.drop_last() =~= report_lines(prev));
            match shell_split(line.as_str()) {
                Ok(words) => {
                    let ghost before = strs(args@);
                    crate::text::push_all(&mut args, &words);
                },
                Err(e) => {
                    proof {
                        assert(rl.last() == line@);
                        assert(first_unsplittable(rl) == Some(line@));
                        lemma_first_unsplittable_prefix(all, i as int + 1);
                    }
                    let mut m = cat("failed to parse xorriso mkisofs report line '", line.as_str());
                    m.append("': ");
                    m.append(e.as_str());
                    proof {
                        reveal_strlit("': ");
                        reveal_strlit("missing closing quote");
                        reveal_strlit("': missing closing quote");
                        assert(m@ =~= "failed to parse xorriso mkisofs report line '"@ + line@
                            + "': missing closing quote"@);
                    }
                    return Err(EngineError::Runtime(m));
                },
            }
        }
        i = i + 1;
    }
    assert(all.take(lines@.len() as int) =~= all);
    Ok(args)
}

/// A failing line among the first `k` lines is the first failing line.
proof fn lemma_first_unsplittable_prefix(all: Seq<Seq<char>>, k: int)
    requires
        0 <= k <= all.len(),
        first_unsplittable(report_lines(all.take(k))) is Some,
    ensures
        first_unsplittable(report_lines(all)) == first_unsplittable(report_lines(all.take(k))),
    decreases all.len() - k,
{
    if k < all.len() {
        assert(all.take(k + 1).drop_last() =~= all.take(k));
        let rl = report_lines(all.take(k + 1));
        if trim(all.take(k + 1).last()).len() > 0 {
            assert(rl.drop_last() =~= report_lines(all.take(k)));
        }
        assert(first_unsplittable(rl) == first_unsplittable(report_lines(all.take(k))));
        lemma_first_unsplittable_prefix(all, k + 1);
    } else {
        assert(all.take(k) =~= all);
    }
}

/// The `xorriso` arguments that repack `extract_dir` into `output_iso` with
/// the source's boot setup; a given label replaces the source's.
pub open spec fn repack_arg_list(
    boot: Seq<Seq<char>>,
    output_iso: Seq<char>,
    extract_dir: Seq<char>,
    label: Option<Seq<char>>,
) -> Seq<Seq<char>> {
    seq!["-as"@, "mkisofs"@, "-o"@, output_iso] + (if label is Some {
        without_volume_args(boot)
    } else {
        boot
    }) + (match label {
        Some(l) => seq!["-V"@, l],
        None => Seq::empty(),
    }) + seq![extract_dir]
}

pub fn repack_args(
    boot_args: &Vec<String>,
    output_iso: &str,
    extract_dir: &str,
    output_label: Option<&str>,
) -> (r: Vec<String>)
    ensures
        strs(r@) == repack_arg_list(
            strs(boot_args@),
            output_iso@,
            extract_dir@,
            match output_label {
                Some(l) => Some(l@),
                None => None,
            },
        ),
{
    let mut args: Vec<String> = Vec::new();
    args.push(owned("-as"));
    args.push(owned("mkisofs"));
    args.push(owned("-o"));
    args.push(owned(output_iso));
    assert(strs(args@) =~= seq!["-as"@, "mkisofs"@, "-o"@, output_iso@]);
    let ghost head = strs(args@);
    if output_label.is_some() {
        let stripped = strip_volume_args(boot_args);
        crate::text::push_all(&mut args, &stripped);
    } else {
        crate::text::push_all(&mut args, boot_args);
    }
    let ghost mid = strs(args@);
    if let Some(label) = output_label {
        args.push(owned("-V"));
        args.push(owned(label));
        assert(strs(args@) =~= mid + seq!["-V"@, label@]);
    } else {
        assert(strs(args@) =~= mid + Seq::<Seq<char>>::empty());
    }
    let ghost tail = strs(args@);
    args.push(owned(extract_dir));
    assert(strs(args@) =~= tail + seq![extract_dir@]);
    args
}

/// The repack arguments from the source's `as_mkisofs` report.
pub fn repack_args_from_report(
    report: &str,
    output_iso: &str,
    extract_dir: &str,
    output_label: Option<&str>,
) -> (r: Result<Vec<String>, EngineError>)
    ensures
        match first_unsplittable(report_lines(crate::text::lines_of(report@))) {
            Some(line) => r matches Err(EngineError::Runtime(m)) && m@
                == "failed to parse xorriso mkisofs report line '"@ + line
                + "': missing closing quote"@,
            None => r matches Ok(v) && strs(v@) == repack_arg_list(
                all_words(report_lines(crate::text::lines_of(report@))),
                output_iso@,
                extract_dir@,
                match output_label {
                    Some(l) => Some(l@),
                    None => None,
                },
            ),
        },
{
    let boot = parse_mkisofs_report(report)?;
    Ok(repack_args(&boot, output_iso, extract_dir, output_label))
}

/// With a label given, the repacked image is labelled with it alone: the
/// arguments end with `-V`, the label and the tree, and no other `-V` or
/// `-volid` flag follows the output path.
pub proof fn law_repack_label_replaces(
    boot: Seq<Seq<char>>,
    output_iso: Seq<char>,
    extract_dir: Seq<char>,
    label: Seq<char>,
)
    ensures
        ({
            let a = repack_arg_list(boot, output_iso, extract_dir, Some(label));
            &&& a.len() >= 7
            &&& a[a.len() - 3] == "-V"@
            &&& a[a.len() - 2] == label
            &&& a[a.len() - 1] == extract_dir
            &&& forall|i: int| 4 <= i < a.len() - 3 ==> #[trigger] a[i] != "-V"@ && a[i] != "-volid"@
        }),
{
    law_strip_volume_args(boot);
    let w = without_volume_args(boot);
    let a = repack_arg_list(boot, output_iso, extract_dir, Some(label));
    assert(a =~= seq!["-as"@, "mkisofs"@, "-o"@, output_iso] + w + seq!["-V"@, label]
        + seq![extract_dir]);
    assert forall|i: int| 4 <= i < a.len() - 3 implies #[trigger] a[i] != "-V"@ && a[i]
        != "-volid"@ by {
        assert(a[i] == w[i - 4]);
    }
}

// ---------------------------------------------------------------------------
// Checksums
// ---------------------------------------------------------------------------

#[derive(Clone, Debug)]
pub enum SumsUrlError {
    NotSupported,
    NoRelease,
    NotRecognized,
}

/// Where the checksums of an image are fetched from: the given URL, or the
/// Ubuntu release's `SHA256SUMS`.
pub open spec fn sums_url_choice(
    given: Option<Seq<char>>,
    distro: Option<Distro>,
    release: Option<Seq<char>>,
) -> Result<Seq<char>, SumsUrlError> {
    match given {
        Some(u) => Ok(u),
        None => match distro {
            Some(d) => match release {
                Some(r) => if d == Distro::Ubuntu {
                    Ok("https://releases.ubuntu.com/"@ + r + "/SHA256SUMS"@)
                } else {
                    Err(SumsUrlError::NotSupported)
                },
                None => Err(SumsUrlError::NoRelease),
            },
            None => Err(SumsUrlError::NotRecognized),
        },
    }
}

pub open spec fn sums_error_text(e: SumsUrlError) -> Seq<char> {
    match e {
        SumsUrlError::NotSupported => "Auto-detection of sums URL not supported for this distro"@,
        SumsUrlError::NoRelease => "Release information not available for auto-detection"@,
        SumsUrlError::NotRecognized => "sums_url must be provided or ISO must be recognized as Ubuntu"@,
    }
}

pub fn effective_sums_url(
    sums_url: Option<&str>,
    distro: Option<Distro>,
    release: Option<&str>,
) -> (r: Result<String, EngineError>)
    ensures
        match sums_url_choice(
            match sums_url {
                Some(u) => Some(u@),
                None => None,
            },
            distro,
            match release {
                Some(x) => Some(x@),
                None => None,
            },
        ) {
            Ok(u) => r matches Ok(s) && s@ == u,
            Err(e) => r matches Err(EngineError::InvalidConfig(m)) && m@ == sums_error_text(e),
        },
{
    match sums_url {
        Some(u) => Ok(owned(u)),
        None => match distro {
            Some(d) => match release {
                Some(rel) => match d {
                    Distro::Ubuntu => Ok(cat3("https://releases.ubuntu.com/", rel, "/SHA256SUMS")),
                    _ => Err(
                        EngineError::InvalidConfig(
                            owned("Auto-detection of sums URL not supported for this distro"),
                        ),
                    ),
                },
                None => Err(
                    EngineError::InvalidConfig(
                        owned("Release information not available for auto-detection"),
                    ),
                ),
            },
            None => Err(
                EngineError::InvalidConfig(
                    owned("sums_url must be provided or ISO must be recognized as Ubuntu"),
                ),
            ),
        },
    }
}

/// The hash a `SHA256SUMS` line gives for `filename`: the line has at least
/// two words and its second word, without leading `*`, ends with the name.
pub open spec fn line_hash(line: Seq<char>, filename: Seq<char>) -> Option<Seq<char>> {
    let parts = crate::text::ws_tokens(line);
    if parts.len() >= 2 && (has_suffix(strip_lead(parts[1], '*'), filename) || strip_lead(
        parts[1],
        '*',
    ) == filename) {
        Some(parts[0])
    } else {
        None
    }
}

/// The hash of the first line of `lines` that names `filename`.
pub open spec fn first_hash(lines: Seq<Seq<char>>, filename: Seq<char>) -> Option<Seq<char>>
    decreases lines.len(),
{
    if lines.len() == 0 {
        None
    } else {
        match first_hash(lines.drop_last(), filename) {
            Some(h) => Some(h),
            None => line_hash(lines.last(), filename),
        }
    }
}

/// The expected checksum of `filename` in a `SHA256SUMS` text.
pub fn expected_checksum(sums: &str, filename: &str) -> (r: Result<String, EngineError>)
    ensures
        match first_hash(crate::text::lines_of(sums@), filename@) {
            Some(h) => r matches Ok(x) && x@ == h,
            None => r matches Err(EngineError::NotFound(m)) && m@ == "No checksum found for "@
                + filename@,
        },
{
    let lines = crate::text::lines_exec(sums);
    let ghost all = strs(lines@);
    let mut i: usize = 0;
    while i < lines.len()
        invariant
            i <= lines@.len(),
            all == strs(lines@),
            all == crate::text::lines_of(sums@),
            first_hash(all.take(i as int), filename@) is None,
        decreases lines.len() - i,
    {
        let ghost cur = all.take(i + 1);
        assert(cur.drop_last() =~= all.take(i as int));
        assert(cur.last() == lines@[i as int]@);
        let parts = crate::text::ws_tokens_exec(lines[i].as_str());
        if parts.len() >= 2 {
            let stripped = strip_leading(parts[1].as_str(), '*');
            if ends_with(stripped.as_str(), filename) || crate::text::str_eq(
                stripped.as_str(),
                filename,
            ) {
                proof {
                    assert(line_hash(cur.last(), filename@) == Some(parts@[0]@));
                    assert(first_hash(cur, filename@) == Some(parts@[0]@));
                    lemma_first_hash_prefix(all, filename@, i as int + 1);
                }
                return Ok(parts[0].clone());
            }
        }
        i = i + 1;
    }
    assert(all.take(lines@.len() as int) =~= all);
    Err(EngineError::NotFound(cat("No checksum found for ", filename)))
}

/// `str::trim_start_matches(c)`.
pub fn strip_leading(s: &str, c: char) -> (r: String)
    ensures
        r@ == strip_lead(s@, c),
{
    let n = s.unicode_len();
    let mut i: usize = 0;
    assert(s@.subrange(0, n as int) =~= s@);
    while i < n && s.get_char(i) == c
        invariant
            n == s@.len(),
            i <= n,
            strip_lead(s@, c) == strip_lead(s@.subrange(i as int, n as int), c),
        decreases n - i,
    {
        assert(s@.subrange(i as int, n as int).drop_first() =~= s@.subrange(i + 1, n as int));
        i = i + 1;
    }
    let rest = s.substring_char(i, n);
    assert(i < n ==> rest@[0] != c);
    owned(rest)
}

proof fn lemma_first_hash_prefix(all: Seq<Seq<char>>, filename: Seq<char>, k: int)
    requires
        0 <= k <= all.len(),
        first_hash(all.take(k), filename) is Some,
    ensures
        first_hash(all, filename) == first_hash(all.take(k), filename),
    decreases all.len() - k,
{
    if k < all.len() {
        assert(all.take(k + 1).drop_last() =~= all.take(k));
        assert(first_hash(all.take(k + 1), filename) == first_hash(all.take(k), filename));
        lemma_first_hash_prefix(all, filename, k + 1);
    } else {
        assert(all.take(k) =~= all);
    }
}

/// The outcome of a checksum check.
pub fn checksum_verdict(filename: String, expected: String, actual: String) -> (r: VerifyResult)
    ensures
        r.filename == filename,
        r.expected == expected,
        r.actual == actual,
        r.matched == (expected@ == actual@),
{
    let matched = crate::text::str_eq(expected.as_str(), actual.as_str());
    VerifyResult { filename, expected, actual, matched }
}

// ---------------------------------------------------------------------------
// File lists and their difference
// ---------------------------------------------------------------------------

pub open spec fn entries_view(v: Seq<(String, u64)>) -> Seq<(Seq<char>, u64)> {
    Seq::new(v.len(), |i: int| (v[i].0@, v[i].1))
}

/// Index of the first entry for path `p`.
pub open spec fn path_index(m: Seq<(Seq<char>, u64)>, p: Seq<char>) -> Option<int>
    decreases m.len(),
{
    if m.len() == 0 {
        None
    } else {
        match path_index(m.drop_last(), p) {
            Some(i) => Some(i),
            None => if m.last().0 == p {
                Some(m.len() - 1)
            } else {
                None
            },
        }
    }
}

pub open spec fn size_of(m: Seq<(Seq<char>, u64)>, p: Seq<char>) -> Option<u64> {
    match path_index(m, p) {
        Some(i) => Some(m[i].1),
        None => None,
    }
}

/// Record a size: an entry for `p` is updated in place, else one is added.
pub open spec fn record_size(m: Seq<(Seq<char>, u64)>, p: Seq<char>, v: u64) -> Seq<(Seq<char>, u64)> {
    match path_index(m, p) {
        Some(i) => m.update(i, (p, v)),
        None => m.push((p, v)),
    }
}

/// What one line of a `-find / -type f -exec stat_lstat .` listing records:
/// its first word is the size, the other words joined by spaces the path.
pub open spec fn listing_line(line: Seq<char>) -> Option<(Seq<char>, u64)> {
    let parts = crate::text::ws_tokens(line);
    if parts.len() >= 2 {
        match crate::text::parse_unsigned(parts[0], 0xffff_ffff_ffff_ffffnat) {
            Some(v) => Some((join(parts.subrange(1, parts.len() as int), " "@), v as u64)),
            None => None,
        }
    } else {
        None
    }
}

/// The file sizes of a listing, by path; a later line for a path replaces
/// the earlier size.
pub open spec fn listing(lines: Seq<Seq<char>>) -> Seq<(Seq<char>, u64)>
    decreases lines.len(),
{
    if lines.len() == 0 {
        Seq::empty()
    } else {
        match listing_line(lines.last()) {
            Some((p, v)) => record_size(listing(lines.drop_last()), p, v),
            None => listing(lines.drop_last()),
        }
    }
}

proof fn lemma_path_index(m: Seq<(Seq<char>, u64)>, p: Seq<char>)
    ensures
        match path_index(m, p) {
            Some(i) => 0 <= i < m.len() && m[i].0 == p && forall|j: int|
                0 <= j < i ==> m[j].0 != p,
            None => forall|j: int| 0 <= j < m.len() ==> m[j].0 != p,
        },
    decreases m.len(),
{
    if m.len() > 0 {
        lemma_path_index(m.drop_last(), p);
        assert(forall|j: int| 0 <= j < m.len() - 1 ==> m.drop_last()[j] == m[j]);
    }
}

fn find_path(m: &Vec<(String, u64)>, p: &str) -> (r: Option<usize>)
    ensures
        match r {
            Some(i) => path_index(entries_view(m@), p@) == Some(i as int) && i < m@.len(),
            None => path_index(entries_view(m@), p@) is None,
        },
{
    let ghost v = entries_view(m@);
    proof {
        lemma_path_index(v, p@);
    }
    let mut i: usize = 0;
    while i < m.len()
        invariant
            i <= m@.len(),
            v == entries_view(m@),
            forall|j: int| 0 <= j < i ==> v[j].0 != p@,
        decreases m.len() - i,
    {
        if crate::text::str_eq(m[i].0.as_str(), p) {
            proof {
                assert(v[i as int].0 == p@);
                lemma_path_index(v, p@);
                if let Some(k) = path_index(v, p@) {
                    if k < i {
                        assert(v[k].0 != p@);
                    }
                    if k > i {
                        assert(v[i as int].0 == p@);
                    }
                }
            }
            return Some(i);
        }
        i = i + 1;
    }
    None
}

fn record_size_exec(m: &mut Vec<(String, u64)>, p: String, v: u64)
    ensures
        entries_view(final(m)@) == record_size(entries_view(old(m)@), p@, v),
{
    let ghost before = entries_view(m@);
    match find_path(m, p.as_str()) {
        Some(i) => {
            m.set(i, (p, v));
            assert(entries_view(m@) =~= before.update(i as int, (p@, v)));
        },
        None => {
            let ghost pv = p@;
            m.push((p, v));
            assert(entries_view(m@) =~= before.push((pv, v)));
        },
    }
}

/// The file sizes of an image from its `xorriso` listing.
pub fn parse_file_list(stdout: &str) -> (r: Vec<(String, u64)>)
    ensures
        entries_view(r@) == listing(crate::text::lines_of(stdout@)),
{
    let lines = crate::text::lines_exec(stdout);
    let ghost all = strs(lines@);
    let mut files: Vec<(String, u64)> = Vec::new();
    let mut i: usize = 0;
    assert(entries_view(files@) =~= Seq::<(Seq<char>, u64)>::empty());
    while i < lines.len()
        invariant
            i <= lines@.len(),
            all == strs(lines@),
            entries_view(files@) == listing(all.take(i as int)),
        decreases lines.len() - i,
    {
        let ghost cur = all.take(i + 1);
        assert(cur.drop_last() =~= all.take(i as int));
        assert(cur.last() == lines@[i as int]@);
        let parts = crate::text::ws_tokens_exec(lines[i].as_str());
        if parts.len() >= 2 {
            if let Some(size) = crate::text::parse_unsigned_exec(parts[0].as_str(), u64::MAX) {
                let mut rest: Vec<String> = Vec::new();
                let mut k: usize = 1;
                while k < parts.len()
                    invariant
                        1 <= k <= parts@.len(),
                        strs(rest@) == strs(parts@).subrange(1, k as int),
                    decreases parts.len() - k,
                {
                    push_line(&mut rest, parts[k].clone());
                    assert(strs(parts@).subrange(1, k + 1) =~= strs(parts@).subrange(
                        1,
                        k as int,
                    ).push(strs(parts@)[k as int]));
                    k = k + 1;
                }
                let path = join_strings(&rest, " ");
                record_size_exec(&mut files, path, size);
            }
        }
        i = i + 1;
    }
    assert(all.take(lines@.len() as int) =~= all);
    files
}

/// Target paths that the base does not have, in target order.
pub open spec fn diff_added(target: Seq<(Seq<char>, u64)>, base: Seq<(Seq<char>, u64)>) -> Seq<Seq<char>>
    decreases target.len(),
{
    if target.len() == 0 {
        Seq::empty()
    } else {
        let rest = diff_added(target.drop_last(), base);
        if size_of(base, target.last().0) is None {
            rest.push(target.last().0)
        } else {
            rest
        }
    }
}

/// Target paths whose size differs from the base's: path, base size,
/// target size.
pub open spec fn diff_modified(target: Seq<(Seq<char>, u64)>, base: Seq<(Seq<char>, u64)>) -> Seq<
    (Seq<char>, u64, u64),
>
    decreases target.len(),
{
    if target.len() == 0 {
        Seq::empty()
    } else {
        let rest = diff_modified(target.drop_last(), base);
        let t = target.last();
        match size_of(base, t.0) {
            Some(b) => if b != t.1 {
                rest.push((t.0, b, t.1))
            } else {
                rest
            },
            None => rest,
        }
    }
}

/// Target paths with the base's size.
pub open spec fn diff_unchanged(target: Seq<(Seq<char>, u64)>, base: Seq<(Seq<char>, u64)>) -> nat
    decreases target.len(),
{
    if target.len() == 0 {
        0
    } else {
        let rest = diff_unchanged(target.drop_last(), base);
        let t = target.last();
        if size_of(base, t.0) == Some(t.1) {
            rest + 1
        } else {
            rest
        }
    }
}

pub open spec fn modified_view(v: Seq<DiffEntry>) -> Seq<(Seq<char>, u64, u64)> {
    Seq::new(v.len(), |i: int| (v[i].path@, v[i].base_size, v[i].target_size))
}

/// The difference between the file lists of two images.
pub fn diff_file_lists(base: &Vec<(String, u64)>, target: &Vec<(String, u64)>) -> (r: IsoDiff)
    ensures
        strs(r.added@) == diff_added(entries_view(target@), entries_view(base@)),
        strs(r.removed@) == diff_added(entries_view(base@), entries_view(target@)),
        modified_view(r.modified@) == diff_modified(entries_view(target@), entries_view(base@)),
        r.unchanged as nat == diff_unchanged(entries_view(target@), entries_view(base@)),
{
    let ghost tv = entries_view(target@);
    let ghost bv = entries_view(base@);
    let mut added: Vec<String> = Vec::new();
    let mut modified: Vec<DiffEntry> = Vec::new();
    let mut unchanged: usize = 0;
    let mut i: usize = 0;
    assert(strs(added@) =~= Seq::<Seq<char>>::empty());
    assert(modified_view(modified@) =~= Seq::<(Seq<char>, u64, u64)>::empty());
    while i < target.len()
        invariant
            i <= target@.len(),
            tv == entries_view(target@),
            bv == entries_view(base@),
            strs(added@) == diff_added(tv.take(i as int), bv),
            modified_view(modified@) == diff_modified(tv.take(i as int), bv),
            unchanged as nat == diff_unchanged(tv.take(i as int), bv),
            unchanged <= i,
        decreases target.len() - i,
    {
        let ghost cur = tv.take(i + 1);
        assert(cur.drop_last() =~= tv.take(i as int));
        assert(cur.last() == tv[i as int]);
        let path = target[i].0.as_str();
        let tsize = target[i].1;
        match find_path(base, path) {
            Some(j) => {
                let bsize = base[j].1;
                if bsize == tsize {
                    unchanged = unchanged + 1;
                } else {
                    let ghost before = modified_view(modified@);
                    modified.push(DiffEntry { path: owned(path), base_size: bsize, target_size: tsize });
                    assert(modified_view(modified@) =~= before.push((path@, bsize, tsize)));
                }
            },
            None => {
                push_line(&mut added, owned(path));
            },
        }
        i = i + 1;
    }
    assert(tv.take(target@.len() as int) =~= tv);
    let mut removed: Vec<String> = Vec::new();
    let mut k: usize = 0;
    assert(strs(removed@) =~= Seq::<Seq<char>>::empty());
    while k < base.len()
        invariant
            k <= base@.len(),
            tv == entries_view(target@),
            bv == entries_view(base@),
            strs(removed@) == diff_added(bv.take(k as int), tv),
        decreases base.len() - k,
    {
        let ghost cur = bv.take(k + 1);
        assert(cur.drop_last() =~= bv.take(k as int));
        assert(cur.last() == bv[k as int]);
        if find_path(target, base[k].0.as_str()).is_none() {
            push_line(&mut removed, base[k].0.clone());
        }
        k = k + 1;
    }
    assert(bv.take(base@.len() as int) =~= bv);
    IsoDiff { added, removed, modified, unchanged }
}

/// Every target file is added, modified or unchanged, exactly once: the
/// three counts add up to the number of target files.
pub proof fn law_diff_partitions_target(target: Seq<(Seq<char>, u64)>, base: Seq<(Seq<char>, u64)>)
    ensures
        diff_added(target, base).len() + diff_modified(target, base).len() + diff_unchanged(
            target,
            base,
        ) == target.len(),
    decreases target.len(),
{
    if target.len() > 0 {
        law_diff_partitions_target(target.drop_last(), base);
    }
}

/// An added path is one the base lacks and the target has; a removed path
/// one the target lacks.
pub proof fn law_diff_added_absent(target: Seq<(Seq<char>, u64)>, base: Seq<(Seq<char>, u64)>)
    ensures
        forall|i: int|
            0 <= i < diff_added(target, base).len() ==> size_of(
                base,
                #[trigger] diff_added(target, base)[i],
            ) is None,
    decreases target.len(),
{
    if target.len() > 0 {
        law_diff_added_absent(target.drop_last(), base);
        let rest = diff_added(target.drop_last(), base);
        let a = diff_added(target, base);
        assert forall|i: int| 0 <= i < a.len() implies size_of(base, #[trigger] a[i]) is None by {
            if i < rest.len() {
                assert(a[i] == rest[i]);
            }
        }
    }
}

/// The paths of a file list.
pub open spec fn path_set(m: Seq<(Seq<char>, u64)>) -> Set<Seq<char>> {
    Set::new(|p: Seq<char>| exists|i: int| 0 <= i < m.len() && m[i].0 == p)
}

/// The paths of the modified entries.
pub open spec fn modified_paths(d: Seq<(Seq<char>, u64, u64)>) -> Set<Seq<char>> {
    Set::new(|p: Seq<char>| exists|i: int| 0 <= i < d.len() && d[i].0 == p)
}

/// The target's paths that the base has with another size than one of the
/// target's entries for them.
pub open spec fn resized_paths(target: Seq<(Seq<char>, u64)>, base: Seq<(Seq<char>, u64)>) -> Set<Seq<char>> {
    Set::new(
        |p: Seq<char>|
            exists|j: int|
                0 <= j < target.len() && target[j].0 == p && size_of(base, p) is Some && size_of(
                    base,
                    p,
                ) != Some(#[trigger] target[j].1),
    )
}

proof fn lemma_path_membership(m: Seq<(Seq<char>, u64)>, p: Seq<char>)
    ensures
        path_index(m, p) is None <==> !path_set(m).contains(p),
        size_of(m, p) is None <==> !path_set(m).contains(p),
    decreases m.len(),
{
    if m.len() > 0 {
        let d = m.drop_last();
        lemma_path_membership(d, p);
        if path_set(d).contains(p) {
            let i = choose|i: int| 0 <= i < d.len() && d[i].0 == p;
            assert(m[i].0 == p);
        }
        if m.last().0 == p {
            assert(m[m.len() - 1].0 == p);
        }
        if path_set(m).contains(p) && m.last().0 != p {
            let i = choose|i: int| 0 <= i < m.len() && m[i].0 == p;
            assert(i < m.len() - 1);
            assert(d[i].0 == p);
        }
    }
}

/// The difference of two file lists is made of set differences: the added
/// paths are the target's paths that the base lacks, the removed paths the
/// base's paths that the target lacks, and the modified paths those that
/// both have, with a target size other than the base's.
pub proof fn law_diff_set_differences(target: Seq<(Seq<char>, u64)>, base: Seq<(Seq<char>, u64)>)
    ensures
        diff_added(target, base).to_set() == path_set(target).difference(path_set(base)),
        diff_added(base, target).to_set() == path_set(base).difference(path_set(target)),
        modified_paths(diff_modified(target, base)) == resized_paths(target, base),
    decreases target.len(),
{
    lemma_added_set(target, base);
    lemma_added_set(base, target);
    lemma_modified_set(target, base);
}

proof fn lemma_added_set(target: Seq<(Seq<char>, u64)>, base: Seq<(Seq<char>, u64)>)
    ensures
        diff_added(target, base).to_set() == path_set(target).difference(path_set(base)),
    decreases target.len(),
{
    if target.len() == 0 {
        assert(diff_added(target, base).to_set() =~= path_set(target).difference(path_set(base)));
    } else {
        let d = target.drop_last();
        lemma_added_set(d, base);
        let rest = diff_added(d, base);
        let a = diff_added(target, base);
        let x = target.last().0;
        lemma_path_membership(base, x);
        assert forall|p: Seq<char>| a.to_set().contains(p) <==> path_set(target).difference(
            path_set(base),
        ).contains(p) by {
            lemma_path_membership(base, p);
            if rest.contains(p) {
                let k = choose|k: int| 0 <= k < rest.len() && rest[k] == p;
                assert(a[k] == p);
                assert(rest.to_set().contains(p));
                let i = choose|i: int| 0 <= i < d.len() && d[i].0 == p;
                assert(target[i].0 == p);
            }
            if a.contains(p) && !rest.contains(p) {
                let k = choose|k: int| 0 <= k < a.len() && a[k] == p;
                if k < rest.len() {
                    assert(rest[k] == p);
                }
                assert(p == x);
                assert(target[target.len() - 1].0 == p);
            }
            if path_set(target).contains(p) && !path_set(base).contains(p) {
                let i = choose|i: int| 0 <= i < target.len() && target[i].0 == p;
                if i < target.len() - 1 {
                    assert(d[i].0 == p);
                    assert(path_set(d).contains(p));
                    assert(rest.to_set().contains(p));
                    let k = choose|k: int| 0 <= k < rest.len() && rest[k] == p;
                    assert(a[k] == p);
                } else {
                    assert(a[a.len() - 1] == p);
                }
            }
        }
        assert(a.to_set() =~= path_set(target).difference(path_set(base)));
    }
}

proof fn lemma_modified_set(target: Seq<(Seq<char>, u64)>, base: Seq<(Seq<char>, u64)>)
    ensures
        modified_paths(diff_modified(target, base)) == resized_paths(target, base),
    decreases target.len(),
{
    if target.len() == 0 {
        assert(modified_paths(diff_modified(target, base)) =~= resized_paths(target, base));
    } else {
        let d = target.drop_last();
        lemma_modified_set(d, base);
        let rest = diff_modified(d, base);
        let a = diff_modified(target, base);
        let t = target.last();
        assert forall|p: Seq<char>| modified_paths(a).contains(p) <==> resized_paths(
            target,
            base,
        ).contains(p) by {
            if modified_paths(rest).contains(p) {
                let k = choose|k: int| 0 <= k < rest.len() && rest[k].0 == p;
                assert(a[k].0 == p);
                assert(resized_paths(d, base).contains(p));
                let j = choose|j: int|
                    0 <= j < d.len() && d[j].0 == p && size_of(base, p) is Some && size_of(base, p)
                        != Some(#[trigger] d[j].1);
                assert(target[j] == d[j]);
            }
            if modified_paths(a).contains(p) && !modified_paths(rest).contains(p) {
                let k = choose|k: int| 0 <= k < a.len() && a[k].0 == p;
                if k < rest.len() {
                    assert(rest[k].0 == p);
                }
                assert(p == t.0);
                assert(target[target.len() - 1] == t);
            }
            if resized_paths(target, base).contains(p) {
                let j = choose|j: int|
                    0 <= j < target.len() && target[j].0 == p && size_of(base, p) is Some && size_of(
                        base,
                        p,
                    ) != Some(#[trigger] target[j].1);
                if j < target.len() - 1 {
                    assert(d[j] == target[j]);
                    assert(resized_paths(d, base).contains(p));
                    let k = choose|k: int| 0 <= k < rest.len() && rest[k].0 == p;
                    assert(a[k].0 == p);
                } else {
                    assert(a[a.len() - 1].0 == p);
                }
            }
        }
        assert(modified_paths(a) =~= resized_paths(target, base));
    }
}

} // verus!

//! The terminal front end's state: the local build form, field
//! navigation and editing, the bounded log, and what each key does.

use vstd::prelude::*;
use crate::config::{BuildConfig, IsoSource, ProfileKind, ScanPolicy, TestingPolicy};
use crate::iso::IsoMetadata;
use crate::orchestrator::{BuildResult, DoctorReport};
use crate::text::{cat, cat3, owned, str_eq, strs, trim, trim_exec};

verus! {

/// The number of form fields.
pub open spec fn field_count() -> nat {
    5
}

/// The most log lines kept.
pub open spec fn log_capacity() -> nat {
    12
}

/// The local build form of the terminal front end.
#[derive(Clone, Debug)]
pub struct App {
    pub selected_field: usize,
    pub editing: bool,
    pub busy: bool,
    pub source: String,
    pub output_dir: String,
    pub build_name: String,
    pub overlay_dir: String,
    pub profile: String,
    pub inspection: Vec<String>,
    pub logs: Vec<String>,
    pub status: String,
    pub last_iso: Option<String>,
}

/// The text of field `i` (the profile for every index from 4 on).
pub open spec fn field_text(a: App, i: nat) -> String {
    if i == 0 {
        a.source
    } else if i == 1 {
        a.output_dir
    } else if i == 2 {
        a.build_name
    } else if i == 3 {
        a.overlay_dir
    } else {
        a.profile
    }
}

/// `a` with field `i` set to `v`.
pub open spec fn with_field(a: App, i: nat, v: String) -> App {
    if i == 0 {
        App { source: v, ..a }
    } else if i == 1 {
        App { output_dir: v, ..a }
    } else if i == 2 {
        App { build_name: v, ..a }
    } else if i == 3 {
        App { overlay_dir: v, ..a }
    } else {
        App { profile: v, ..a }
    }
}

pub open spec fn bool_text(b: bool) -> Seq<char> {
    if b {
        "true"@
    } else {
        "false"@
    }
}

pub fn bool_string(b: bool) -> (r: String)
    ensures
        r@ == bool_text(b),
{
    if b {
        owned("true")
    } else {
        owned("false")
    }
}

/// The doctor lines the log starts with.
pub open spec fn doctor_lines(d: DoctorReport) -> Seq<Seq<char>> {
    seq![
        "doctor: host="@ + d.host_os@ + " arch="@ + d.host_arch@ + " linux_supported="@ + bool_text(
            d.linux_supported,
        ),
    ] + Seq::new(
        d.tooling@.len(),
        |i: int| "tool "@ + d.tooling@[i].0@ + ": "@ + bool_text(d.tooling@[i].1),
    )
}

impl App {
    /// The form as the front end opens it, its log starting with the
    /// doctor's findings.
    pub fn new(doctor: &DoctorReport) -> (r: App)
        ensures
            r.selected_field == 0,
            !r.editing && !r.busy,
            r.source@.len() == 0,
            r.output_dir@ == "/tmp/forgeoutput"@,
            r.build_name@ == "forgeiso-local"@,
            r.overlay_dir@.len() == 0,
            r.profile@ == "minimal"@,
            strs(r.inspection@) == seq!["No ISO inspected yet"@],
            strs(r.logs@) == doctor_lines(*doctor),
            r.status@ == "Ready"@,
            r.last_iso is None,
    {
        let mut logs: Vec<String> = Vec::new();
        let mut first = cat3("doctor: host=", doctor.host_os.as_str(), " arch=");
        first.append(doctor.host_arch.as_str());
        first.append(" linux_supported=");
        let b = bool_string(doctor.linux_supported);
        first.append(b.as_str());
        logs.push(first);
        let ghost head = strs(logs@);
        let mut i: usize = 0;
        while i < doctor.tooling.len()
            invariant
                i <= doctor.tooling@.len(),
                strs(logs@) == head + Seq::new(
                    i as nat,
                    |k: int| "tool "@ + doctor.tooling@[k].0@ + ": "@ + bool_text(
                        doctor.tooling@[k].1,
                    ),
                ),
            decreases doctor.tooling.len() - i,
        {
            let ghost before = strs(logs@);
            let mut line = cat3("tool ", doctor.tooling[i].0.as_str(), ": ");
            let t = bool_string(doctor.tooling[i].1);
            line.append(t.as_str());
            let ghost lv = line@;
            logs.push(line);
            assert(strs(logs@) =~= before.push(lv));
            assert(strs(logs@) =~= head + Seq::new(
                (i + 1) as nat,
                |k: int| "tool "@ + doctor.tooling@[k].0@ + ": "@ + bool_text(doctor.tooling@[k].1),
            ));
            i = i + 1;
        }
        let mut inspection: Vec<String> = Vec::new();
        inspection.push(owned("No ISO inspected yet"));
        assert(strs(inspection@) =~= seq!["No ISO inspected yet"@]);
        App {
            selected_field: 0,
            editing: false,
            busy: false,
            source: String::new(),
            output_dir: owned("/tmp/forgeoutput"),
            build_name: owned("forgeiso-local"),
            overlay_dir: String::new(),
            profile: owned("minimal"),
            inspection,
            logs,
            status: owned("Ready"),
            last_iso: None,
        }
    }

    /// The form's labels and values, in order.
    pub fn fields(&self) -> (r: Vec<(String, String)>)
        ensures
            r@.len() == field_count(),
            r@[0].0@ == "Source"@ && r@[0].1 == self.source,
            r@[1].0@ == "Output"@ && r@[1].1 == self.output_dir,
            r@[2].0@ == "Name"@ && r@[2].1 == self.build_name,
            r@[3].0@ == "Overlay"@ && r@[3].1 == self.overlay_dir,
            r@[4].0@ == "Profile"@ && r@[4].1 == self.profile,
    {
        let mut r: Vec<(String, String)> = Vec::new();
        r.push((owned("Source"), self.source.clone()));
        r.push((owned("Output"), self.output_dir.clone()));
        r.push((owned("Name"), self.build_name.clone()));
        r.push((owned("Overlay"), self.overlay_dir.clone()));
        r.push((owned("Profile"), self.profile.clone()));
        r
    }

    /// Select the next field, wrapping around to the first.
    pub fn next_field(&mut self)
        requires
            old(self).selected_field < field_count(),
        ensures
            final(self).selected_field == (old(self).selected_field + 1) % (field_count() as int),
            *final(self) == (App { selected_field: final(self).selected_field, ..*old(self) }),
    {
        self.selected_field = (self.selected_field + 1) % 5;
    }

    /// Select the previous field, wrapping around to the last.
    pub fn previous_field(&mut self)
        requires
            old(self).selected_field < field_count(),
        ensures
            final(self).selected_field == (if old(self).selected_field == 0 {
                field_count() - 1
            } else {
                old(self).selected_field - 1
            }),
            *final(self) == (App { selected_field: final(self).selected_field, ..*old(self) }),
    {
        if self.selected_field == 0 {
            self.selected_field = 4;
        } else {
            self.selected_field = self.selected_field - 1;
        }
    }

    /// The selected field, for editing.
    pub fn current_mut(&mut self) -> (r: &mut String)
        ensures
            *r == field_text(*old(self), old(self).selected_field as nat),
            *final(self) == with_field(*old(self), old(self).selected_field as nat, *final(r)),
    {
        match self.selected_field {
            0 => &mut self.source,
            1 => &mut self.output_dir,
            2 => &mut self.build_name,
            3 => &mut self.overlay_dir,
            _ => &mut self.profile,
        }
    }

    /// Type a char into the selected field.
    pub fn push_char(&mut self, ch: char)
        ensures
            *final(self) == with_field(
                *old(self),
                old(self).selected_field as nat,
                final(self).field_value(),
            ),
            final(self).field_value()@ == field_text(*old(self), old(self).selected_field as nat)@.push(ch),
    {
        let cur = self.current_mut();
        crate::text::string_push(cur, ch);
    }

    /// Delete the last char of the selected field, if any.
    pub fn backspace(&mut self)
        ensures
            *final(self) == with_field(
                *old(self),
                old(self).selected_field as nat,
                final(self).field_value(),
            ),
            final(self).field_value()@ == (if field_text(
                *old(self),
                old(self).selected_field as nat,
            )@.len() > 0 {
                field_text(*old(self), old(self).selected_field as nat)@.drop_last()
            } else {
                field_text(*old(self), old(self).selected_field as nat)@
            }),
    {
        let cur = self.current_mut();
        let n = cur.as_str().unicode_len();
        if n > 0 {
            let shorter = owned(cur.as_str().substring_char(0, n - 1));
            *cur = shorter;
        }
    }

    /// The text of the selected field.
    pub open spec fn field_value(self) -> String {
        field_text(self, self.selected_field as nat)
    }

    /// Append a log line, dropping the oldest beyond twelve.
    pub fn push_log(&mut self, line: String)
        ensures
            strs(final(self).logs@) == (if old(self).logs@.len() + 1 > log_capacity() {
                strs(old(self).logs@).push(line@).drop_first()
            } else {
                strs(old(self).logs@).push(line@)
            }),
            *final(self) == (App { logs: final(self).logs, ..*old(self) }),
    {
        let ghost before = strs(self.logs@);
        self.logs.push(line);
        assert(strs(self.logs@) =~= before.push(line@));
        if self.logs.len() > 12 {
            let ghost full = strs(self.logs@);
            self.logs.remove(0);
            assert(strs(self.logs@) =~= full.drop_first());
        }
    }

    /// The build configuration of the form: the source is required and the
    /// profile must be `minimal` or `desktop`.
    pub fn build_config(&self) -> (r: Result<BuildConfig, String>)
        ensures
            trim(self.source@).len() == 0 ==> (r matches Err(m) && m@ == "Source is required"@),
            trim(self.source@).len() > 0 && trim(self.profile@) != "minimal"@ && trim(self.profile@)
                != "desktop"@ ==> (r matches Err(m) && m@ == "Unsupported profile '"@ + trim(
                self.profile@,
            ) + "'"@),
            r matches Ok(cfg) ==> config_of_form(*self, cfg),
            form_complete(*self) ==> r is Ok,
    {
        let src = trim_exec(self.source.as_str());
        if src.as_str().unicode_len() == 0 {
            return Err(owned("Source is required"));
        }
        let ov = trim_exec(self.overlay_dir.as_str());
        let overlay_dir = if ov.as_str().unicode_len() == 0 {
            None
        } else {
            Some(ov)
        };
        let p = trim_exec(self.profile.as_str());
        let profile = if str_eq(p.as_str(), "minimal") {
            ProfileKind::Minimal
        } else if str_eq(p.as_str(), "desktop") {
            ProfileKind::Desktop
        } else {
            return Err(cat3("Unsupported profile '", p.as_str(), "'"));
        };
        proof {
            reveal_strlit("minimal");
            reveal_strlit("desktop");
            assert("minimal"@[0] != "desktop"@[0]);
        }
        Ok(
            BuildConfig {
                name: self.build_name.clone(),
                source: IsoSource::from_raw(self.source.as_str()),
                overlay_dir,
                output_label: None,
                profile,
                auto_scan: false,
                auto_test: false,
                scanning: ScanPolicy::default(),
                testing: TestingPolicy::default(),
                keep_workdir: false,
            },
        )
    }
}

// ---------------------------------------------------------------------------
// Keys, jobs and results
// ---------------------------------------------------------------------------

/// A key press, as far as the form cares.
#[derive(Clone, Copy, Debug, PartialEq, Eq, Structural)]
pub enum Key {
    Char(char),
    Up,
    Down,
    Enter,
    Esc,
    Backspace,
    Other,
}

/// What the front end does after a key.
#[derive(Clone, Debug)]
pub enum KeyAction {
    Nothing,
    Quit,
    /// Inspect the source.
    Inspect(String),
    /// Build with the configuration into the output directory.
    Build(BuildConfig, String),
    /// Scan the last built image.
    Scan(String),
    /// Boot-test the last built image.
    Test(String),
}

/// A background job's outcome.
#[derive(Clone, Debug)]
pub enum TuiMsg {
    InspectOk(IsoMetadata),
    BuildOk(BuildResult),
    ScanOk(String),
    TestOk(bool),
    OpError(String),
}

pub open spec fn or_unknown(o: Option<String>) -> Seq<char> {
    match o {
        Some(s) => s@,
        None => "unknown"@,
    }
}

pub open spec fn distro_text(d: Option<crate::config::Distro>) -> Seq<char> {
    match d {
        Some(crate::config::Distro::Ubuntu) => "Ubuntu"@,
        Some(crate::config::Distro::Mint) => "Mint"@,
        Some(crate::config::Distro::Fedora) => "Fedora"@,
        Some(crate::config::Distro::Arch) => "Arch"@,
        None => "unknown"@,
    }
}

fn or_unknown_exec(o: &Option<String>) -> (r: String)
    ensures
        r@ == or_unknown(*o),
{
    match o {
        Some(s) => s.clone(),
        None => owned("unknown"),
    }
}

pub fn distro_name(d: Option<crate::config::Distro>) -> (r: String)
    ensures
        r@ == distro_text(d),
{
    match d {
        Some(crate::config::Distro::Ubuntu) => owned("Ubuntu"),
        Some(crate::config::Distro::Mint) => owned("Mint"),
        Some(crate::config::Distro::Fedora) => owned("Fedora"),
        Some(crate::config::Distro::Arch) => owned("Arch"),
        None => owned("unknown"),
    }
}

/// The inspection panel of an inspected image.
pub open spec fn inspection_lines(m: IsoMetadata) -> Seq<Seq<char>> {
    seq![
        "Source: "@ + m.source_path@,
        "Distro: "@ + distro_text(m.distro),
        "Release: "@ + or_unknown(m.release),
        "Arch: "@ + or_unknown(m.architecture),
        "Volume: "@ + or_unknown(m.volume_id),
    ]
}

/// The image a build result names: its first artifact, else its output
/// directory.
pub open spec fn built_label(res: BuildResult) -> Seq<char> {
    if res.artifacts@.len() > 0 {
        res.artifacts@[0]@
    } else {
        res.output_dir@
    }
}

/// The form names a source and a known profile.
pub open spec fn form_complete(a: App) -> bool {
    trim(a.source@).len() > 0 && (trim(a.profile@) == "minimal"@ || trim(a.profile@) == "desktop"@)
}

/// `cfg` is the build configuration the form describes.
pub open spec fn config_of_form(a: App, cfg: BuildConfig) -> bool {
    &&& cfg.name == a.build_name
    &&& cfg.source.raw_text() == a.source@
    &&& (cfg.source is Url) == crate::config::is_url_text(a.source@)
    &&& crate::text::opt_view(cfg.overlay_dir) == (if trim(a.overlay_dir@).len() == 0 {
        None
    } else {
        Some(trim(a.overlay_dir@))
    })
    &&& cfg.output_label is None
    &&& cfg.profile == (if trim(a.profile@) == "desktop"@ {
        ProfileKind::Desktop
    } else {
        ProfileKind::Minimal
    })
    &&& !cfg.auto_scan && !cfg.auto_test && !cfg.keep_workdir
    &&& cfg.scanning == (ScanPolicy {
        enable_sbom: true,
        enable_trivy: true,
        enable_syft_grype: false,
        enable_open_scap: false,
        enable_secrets_scan: true,
        strict_secrets: false,
        fail_on_severity: None,
    })
    &&& cfg.testing == (TestingPolicy { bios: true, uefi: true, smoke: true })
}

/// The form after a job started: busy, with `status` shown.
pub open spec fn started(a: App, status: String) -> App {
    App { busy: true, status, ..a }
}

impl App {
    /// Start an inspection, when a source is given.
    pub fn begin_inspect(&mut self) -> (r: Option<String>)
        ensures
            trim(old(self).source@).len() == 0 ==> r is None && *final(self) == (App {
                status: final(self).status,
                ..*old(self)
            }) && final(self).status@ == "Source is required"@,
            trim(old(self).source@).len() > 0 ==> r == Some(old(self).source) && *final(self)
                == started(*old(self), final(self).status) && final(self).status@
                == "Inspecting\u{2026}"@,
    {
        let t = trim_exec(self.source.as_str());
        if t.as_str().unicode_len() == 0 {
            self.status = owned("Source is required");
            return None;
        }
        self.busy = true;
        self.status = owned("Inspecting\u{2026}");
        Some(self.source.clone())
    }

    /// Start a build, when the form is complete.
    pub fn begin_build(&mut self) -> (r: Option<(BuildConfig, String)>)
        ensures
            form_complete(*old(self)) ==> (r matches Some((cfg, out)) && out == old(self).output_dir
                && config_of_form(*old(self), cfg)) && *final(self) == started(
                *old(self),
                final(self).status,
            ) && final(self).status@ == "Building\u{2026}"@,
            !form_complete(*old(self)) ==> r is None && *final(self) == (App {
                status: final(self).status,
                ..*old(self)
            }),
            trim(old(self).source@).len() == 0 ==> final(self).status@ == "Source is required"@,
            trim(old(self).source@).len() > 0 && !form_complete(*old(self)) ==> final(self).status@
                == "Unsupported profile '"@ + trim(old(self).profile@) + "'"@,
    {
        match self.build_config() {
            Ok(cfg) => {
                self.busy = true;
                self.status = owned("Building\u{2026}");
                Some((cfg, self.output_dir.clone()))
            },
            Err(e) => {
                self.status = e;
                None
            },
        }
    }

    /// Start a scan of the last built image, when there is one.
    pub fn begin_scan(&mut self) -> (r: Option<String>)
        ensures
            old(self).last_iso is None ==> r is None && *final(self) == (App {
                status: final(self).status,
                ..*old(self)
            }) && final(self).status@ == "Build an ISO before running scan"@,
            old(self).last_iso is Some ==> r == old(self).last_iso && *final(self) == started(
                *old(self),
                final(self).status,
            ) && final(self).status@ == "Scanning\u{2026}"@,
    {
        match &self.last_iso {
            None => {
                self.status = owned("Build an ISO before running scan");
                None
            },
            Some(a) => {
                let a = a.clone();
                self.busy = true;
                self.status = owned("Scanning\u{2026}");
                Some(a)
            },
        }
    }

    /// Start a boot test of the last built image, when there is one.
    pub fn begin_test(&mut self) -> (r: Option<String>)
        ensures
            old(self).last_iso is None ==> r is None && *final(self) == (App {
                status: final(self).status,
                ..*old(self)
            }) && final(self).status@ == "Build an ISO before running tests"@,
            old(self).last_iso is Some ==> r == old(self).last_iso && *final(self) == started(
                *old(self),
                final(self).status,
            ) && final(self).status@ == "Testing\u{2026}"@,
    {
        match &self.last_iso {
            None => {
                self.status = owned("Build an ISO before running tests");
                None
            },
            Some(a) => {
                let a = a.clone();
                self.busy = true;
                self.status = owned("Testing\u{2026}");
                Some(a)
            },
        }
    }

    /// React to a key. While editing, keys edit the selected field; `Esc`
    /// and `Enter` stop editing. Otherwise `q` quits, the arrows move
    /// between fields, `Enter` starts editing, and `i`, `b`, `s`, `t` start
    /// a job when none is running.
    pub fn on_key(&mut self, key: Key) -> (r: KeyAction)
        requires
            old(self).selected_field < field_count(),
        ensures
            final(self).selected_field < field_count(),
            old(self).editing ==> r is Nothing && match key {
                Key::Esc | Key::Enter => *final(self) == (App { editing: false, ..*old(self) }),
                Key::Backspace => *final(self) == with_field(
                    *old(self),
                    old(self).selected_field as nat,
                    final(self).field_value(),
                ) && final(self).field_value()@ == (if field_text(
                    *old(self),
                    old(self).selected_field as nat,
                )@.len() > 0 {
                    field_text(*old(self), old(self).selected_field as nat)@.drop_last()
                } else {
                    field_text(*old(self), old(self).selected_field as nat)@
                }),
                Key::Char(ch) => *final(self) == with_field(
                    *old(self),
                    old(self).selected_field as nat,
                    final(self).field_value(),
                ) && final(self).field_value()@ == field_text(
                    *old(self),
                    old(self).selected_field as nat,
                )@.push(ch),
                _ => *final(self) == *old(self),
            },
            !old(self).editing && key == Key::Char('q') ==> r is Quit && *final(self) == *old(self),
            !old(self).editing && key == Key::Enter ==> r is Nothing && *final(self) == (App {
                editing: true,
                ..*old(self)
            }),
            !old(self).editing && key == Key::Down ==> r is Nothing && *final(self) == (App {
                selected_field: ((old(self).selected_field + 1) % (field_count() as int)) as usize,
                ..*old(self)
            }),
            !old(self).editing && key == Key::Up ==> r is Nothing && *final(self) == (App {
                selected_field: (if old(self).selected_field == 0 {
                    field_count() - 1
                } else {
                    old(self).selected_field - 1
                }) as usize,
                ..*old(self)
            }),
            !old(self).editing && old(self).busy && (key == Key::Char('i') || key == Key::Char('b')
                || key == Key::Char('s') || key == Key::Char('t')) ==> r is Nothing && *final(self)
                == *old(self),
            !old(self).editing && !old(self).busy && key == Key::Char('i') ==> (if trim(
                old(self).source@,
            ).len() > 0 {
                r == KeyAction::Inspect(old(self).source) && final(self).busy
            } else {
                r is Nothing && !final(self).busy
            }),
            !old(self).editing && !old(self).busy && key == Key::Char('b') ==> (if form_complete(
                *old(self),
            ) {
                r matches KeyAction::Build(cfg, out) && config_of_form(*old(self), cfg) && out
                    == old(self).output_dir && final(self).busy
            } else {
                r is Nothing && !final(self).busy
            }),
            !old(self).editing && !old(self).busy && key == Key::Char('s') ==> match old(self).last_iso {
                Some(p) => r == KeyAction::Scan(p) && final(self).busy,
                None => r is Nothing && !final(self).busy,
            },
            !old(self).editing && !old(self).busy && key == Key::Char('t') ==> match old(self).last_iso {
                Some(p) => r == KeyAction::Test(p) && final(self).busy,
                None => r is Nothing && !final(self).busy,
            },
            !old(self).editing && !(key == Key::Char('q') || key == Key::Enter || key == Key::Down
                || key == Key::Up || key == Key::Char('i') || key == Key::Char('b') || key
                == Key::Char('s') || key == Key::Char('t')) ==> r is Nothing && *final(self)
                == *old(self),
    {
        if self.editing {
            match key {
                Key::Esc => self.editing = false,
                Key::Enter => self.editing = false,
                Key::Backspace => self.backspace(),
                Key::Char(ch) => self.push_char(ch),
                _ => {},
            }
            return KeyAction::Nothing;
        }
        match key {
            Key::Char('q') => KeyAction::Quit,
            Key::Up => {
                self.previous_field();
                KeyAction::Nothing
            },
            Key::Down => {
                self.next_field();
                KeyAction::Nothing
            },
            Key::Enter => {
                self.editing = true;
                KeyAction::Nothing
            },
            Key::Char('i') => {
                if self.busy {
                    KeyAction::Nothing
                } else {
                    match self.begin_inspect() {
                        Some(s) => KeyAction::Inspect(s),
                        None => KeyAction::Nothing,
                    }
                }
            },
            Key::Char('b') => {
                if self.busy {
                    KeyAction::Nothing
                } else {
                    match self.begin_build() {
                        Some((cfg, out)) => KeyAction::Build(cfg, out),
                        None => KeyAction::Nothing,
                    }
                }
            },
            Key::Char('s') => {
                if self.busy {
                    KeyAction::Nothing
                } else {
                    match self.begin_scan() {
                        Some(a) => KeyAction::Scan(a),
                        None => KeyAction::Nothing,
                    }
                }
            },
            Key::Char('t') => {
                if self.busy {
                    KeyAction::Nothing
                } else {
                    match self.begin_test() {
                        Some(a) => KeyAction::Test(a),
                        None => KeyAction::Nothing,
                    }
                }
            },
            _ => KeyAction::Nothing,
        }
    }

    /// Take in a job's outcome; the form is no longer busy.
    pub fn apply_msg(&mut self, msg: TuiMsg)
        ensures
            !final(self).busy,
            final(self).logs == old(self).logs,
            msg matches TuiMsg::InspectOk(m) ==> strs(final(self).inspection@) == inspection_lines(m)
                && final(self).status@ == "Inspection completed"@,
            msg matches TuiMsg::ScanOk(p) ==> final(self).status@ == "Scan completed: "@ + p@,
            msg matches TuiMsg::TestOk(b) ==> final(self).status@ == "Test completed: passed="@
                + bool_text(b),
            msg matches TuiMsg::OpError(e) ==> final(self).status@ == "Error: "@ + e@,
            msg matches TuiMsg::BuildOk(res) ==> final(self).last_iso == (if res.artifacts@.len()
                > 0 {
                Some(res.artifacts@[0])
            } else {
                None
            }) && final(self).status@ == "Build completed: "@ + built_label(res) && strs(
                final(self).inspection@,
            ) == seq![
                "Built ISO: "@ + built_label(res),
                "Report JSON: "@ + res.report_json@,
                "Report HTML: "@ + res.report_html@,
            ],
            !(msg is InspectOk || msg is BuildOk) ==> final(self).inspection == old(self).inspection,
            !(msg is BuildOk) ==> final(self).last_iso == old(self).last_iso,
            *final(self) == (App {
                busy: false,
                status: final(self).status,
                inspection: final(self).inspection,
                last_iso: final(self).last_iso,
                ..*old(self)
            }),
    {
        self.busy = false;
        match msg {
            TuiMsg::InspectOk(info) => {
                let mut lines: Vec<String> = Vec::new();
                lines.push(cat("Source: ", info.source_path.as_str()));
                let d = distro_name(info.distro);
                lines.push(cat("Distro: ", d.as_str()));
                let rel = or_unknown_exec(&info.release);
                lines.push(cat("Release: ", rel.as_str()));
                let arch = or_unknown_exec(&info.architecture);
                lines.push(cat("Arch: ", arch.as_str()));
                let vol = or_unknown_exec(&info.volume_id);
                lines.push(cat("Volume: ", vol.as_str()));
                assert(strs(lines@) =~= inspection_lines(info));
                self.inspection = lines;
                self.status = owned("Inspection completed");
            },
            TuiMsg::BuildOk(result) => {
                self.last_iso = if result.artifacts.len() > 0 {
                    Some(result.artifacts[0].clone())
                } else {
                    None
                };
                let label = if result.artifacts.len() > 0 {
                    result.artifacts[0].clone()
                } else {
                    result.output_dir.clone()
                };
                let mut lines: Vec<String> = Vec::new();
                lines.push(cat("Built ISO: ", label.as_str()));
                lines.push(cat("Report JSON: ", result.report_json.as_str()));
                lines.push(cat("Report HTML: ", result.report_html.as_str()));
                assert(strs(lines@) =~= seq![
                    "Built ISO: "@ + built_label(result),
                    "Report JSON: "@ + result.report_json@,
                    "Report HTML: "@ + result.report_html@,
                ]);
                self.inspection = lines;
                self.status = cat("Build completed: ", label.as_str());
            },
            TuiMsg::ScanOk(path) => {
                self.status = cat("Scan completed: ", path.as_str());
            },
            TuiMsg::TestOk(passed) => {
                let b = bool_string(passed);
                self.status = cat("Test completed: passed=", b.as_str());
            },
            TuiMsg::OpError(e) => {
                self.status = cat("Error: ", e.as_str());
            },
        }
    }
}

/// Selecting the next field and then the previous one comes back to the
/// same field, and the other way round.
pub proof fn law_field_navigation_inverse(i: nat)
    requires
        i < field_count(),
    ensures
        ({
            let n = ((i + 1) % field_count()) as nat;
            (if n == 0 {
                field_count() - 1
            } else {
                n - 1
            }) == i
        }),
        ({
            let p = (if i == 0 {
                field_count() - 1
            } else {
                i - 1
            }) as nat;
            (p + 1) % field_count() == i
        }),
{
}

/// The log never holds more than twelve lines once it holds at most
/// twelve, and its last line is the one pushed.
pub proof fn law_log_bounded(before: Seq<Seq<char>>, line: Seq<char>)
    requires
        before.len() <= log_capacity(),
    ensures
        ({
            let after = if before.len() + 1 > log_capacity() {
                before.push(line).drop_first()
            } else {
                before.push(line)
            };
            after.len() <= log_capacity() && after.last() == line
        }),
{
}

/// Typing a char and deleting it leaves the field as it was.
pub proof fn law_backspace_undoes_push(s: Seq<char>, ch: char)
    ensures
        s.push(ch).drop_last() == s,
{
    assert(s.push(ch).drop_last() =~= s);
}

} // verus!

//! Progress event levels and pipeline phases.

use vstd::prelude::*;
use crate::text::owned;

verus! {

#[derive(Clone, Copy, Debug, PartialEq, Eq, Structural)]
pub enum EventLevel {
    Debug,
    Info,
    Warn,
    Error,
}

/// The pipeline step an event belongs to.
#[derive(Clone, Copy, Debug, PartialEq, Eq, Structural)]
pub enum EventPhase {
    Configure,
    Doctor,
    ReleaseLookup,
    Build,
    Scan,
    Test,
    Report,
    Inspect,
    Download,
    Verify,
    Inject,
    Diff,
    Complete,
}

/// The name a phase is shown under.
pub open spec fn phase_text(p: EventPhase) -> Seq<char> {
    match p {
        EventPhase::Configure => "Configure"@,
        EventPhase::Doctor => "Doctor"@,
        EventPhase::ReleaseLookup => "ReleaseLookup"@,
        EventPhase::Build => "Build"@,
        EventPhase::Scan => "Scan"@,
        EventPhase::Test => "Test"@,
        EventPhase::Report => "Report"@,
        EventPhase::Inspect => "Inspect"@,
        EventPhase::Download => "Download"@,
        EventPhase::Verify => "Verify"@,
        EventPhase::Inject => "Inject"@,
        EventPhase::Diff => "Diff"@,
        EventPhase::Complete => "Complete"@,
    }
}

pub fn phase_name(p: EventPhase) -> (r: String)
    ensures
        r@ == phase_text(p),
{
    match p {
        EventPhase::Configure => owned("Configure"),
        EventPhase::Doctor => owned("Doctor"),
        EventPhase::ReleaseLookup => owned("ReleaseLookup"),
        EventPhase::Build => owned("Build"),
        EventPhase::Scan => owned("Scan"),
        EventPhase::Test => owned("Test"),
        EventPhase::Report => owned("Report"),
        EventPhase::Inspect => owned("Inspect"),
        EventPhase::Download => owned("Download"),
        EventPhase::Verify => owned("Verify"),
        EventPhase::Inject => owned("Inject"),
        EventPhase::Diff => owned("Diff"),
        EventPhase::Complete => owned("Complete"),
    }
}

} // verus!

//! What the updater tells the user, and when it checks.
//!
//! Talking to the update server, downloading and installing, emitting
//! events and sleeping between checks are done by the caller; this module
//! decides whether a check runs and what status and result each outcome
//! is reported as.
use vstd::prelude::*;

verus! {

/// Seconds the background checker waits before its first check.
pub const STARTUP_DELAY_SECS: u64 = 5;

/// Seconds between two background checks (45 minutes).
pub const CHECK_INTERVAL_SECS: u64 = 2700;

/// The status pushed to the editor as the `update-status` event.
#[derive(Clone, Debug)]
pub enum UpdateStatus {
    Checking,
    Available { version: String },
    Downloading { percent: u8 },
    UpToDate { version: String },
    Error { message: String },
}

/// The answer to the manual "Check for Updates Now" button.
#[derive(Clone, Debug)]
pub struct CheckStarted {
    pub started: bool,
    pub reason: Option<String>,
}

/// Whether the background checker should check ("Automatically check for
/// updates" in the settings). On unless the user turns it off.
#[derive(Clone, Copy, Debug)]
pub struct AutoCheckEnabled(pub bool);

impl Default for AutoCheckEnabled {
    fn default() -> (r: Self)
        ensures
            r.0,
    {
        AutoCheckEnabled(true)
    }
}

/// What a check for updates came back with.
#[derive(Clone, Debug)]
pub enum CheckOutcome {
    /// The updater plugin could not be reached.
    UpdaterUnavailable,
    /// A newer release exists.
    UpdateAvailable { version: String },
    /// The running version is the newest; it is the one given.
    NoUpdate { current_version: String },
    /// The check itself failed.
    CheckFailed,
}

/// How an attempt to install the pending update ended.
#[derive(Clone, Copy, Debug, PartialEq, Eq, Structural)]
pub enum InstallOutcome {
    /// No check has left an update to install.
    NothingPending,
    /// Downloading or installing failed.
    Failed,
    /// The update was installed; the app restarts next.
    Installed,
}

pub open spec fn check_failed_text() -> Seq<char> {
    "Couldn't check for updates. Check your internet connection and try again."@
}

pub open spec fn dev_build_text() -> Seq<char> {
    "Updates only run in the installed app, not in `npm run tauri dev`."@
}

pub open spec fn nothing_pending_text() -> Seq<char> {
    "No update is ready to install yet. Check for updates first."@
}

pub open spec fn install_failed_status_text() -> Seq<char> {
    "Couldn't download or install the update. Check your internet connection and try again."@
}

pub open spec fn install_failed_text() -> Seq<char> {
    "Couldn't download or install the update."@
}

/// Whether the background checker checks this round: only when the
/// setting is on (or has not been registered yet) and never in a
/// development build.
pub open spec fn check_due(auto_check: Option<AutoCheckEnabled>, debug_build: bool) -> bool {
    let enabled = match auto_check {
        Some(a) => a.0,
        None => true,
    };
    enabled && !debug_build
}

pub fn background_check_due(auto_check: Option<AutoCheckEnabled>, debug_build: bool) -> (due: bool)
    ensures
        due == check_due(auto_check, debug_build),
{
    let enabled = match auto_check {
        Some(a) => a.0,
        None => true,
    };
    enabled && !debug_build
}

/// The answer to the manual check button: a development build refuses
/// with a reason; otherwise the check is started.
pub fn manual_check_plan(debug_build: bool) -> (r: CheckStarted)
    ensures
        r.started == !debug_build,
        debug_build ==> (r.reason matches Some(reason) && reason@ == dev_build_text()),
        !debug_build ==> r.reason is None,
{
    if debug_build {
        CheckStarted {
            started: false,
            reason: Some(String::from_str("Updates only run in the installed app, not in `npm run tauri dev`.")),
        }
    } else {
        CheckStarted { started: true, reason: None }
    }
}

/// The status a check ends with: the new version when there is one, the
/// running version when it is current, and one generic message for every
/// failure.
pub fn status_after_check(outcome: CheckOutcome) -> (status: UpdateStatus)
    ensures
        match outcome {
            CheckOutcome::UpdateAvailable { version } => status == UpdateStatus::Available { version },
            CheckOutcome::NoUpdate { current_version } => status
                == UpdateStatus::UpToDate { version: current_version },
            _ => (status matches UpdateStatus::Error { message } && message@ == check_failed_text()),
        },
{
    match outcome {
        CheckOutcome::UpdateAvailable { version } => UpdateStatus::Available { version },
        CheckOutcome::NoUpdate { current_version } => UpdateStatus::UpToDate {
            version: current_version,
        },
        _ => UpdateStatus::Error {
            message: String::from_str(
                "Couldn't check for updates. Check your internet connection and try again.",
            ),
        },
    }
}

/// What the install command reports for each outcome: the status to push
/// to the editor, if any, and the command's own result.
pub fn install_response(outcome: InstallOutcome) -> (r: (Option<UpdateStatus>, Result<(), String>))
    ensures
        outcome == InstallOutcome::NothingPending ==> r.0 is None && (r.1 matches Err(e) && e@
            == nothing_pending_text()),
        outcome == InstallOutcome::Failed ==> (r.0 matches Some(UpdateStatus::Error { message })
            && message@ == install_failed_status_text()) && (r.1 matches Err(e) && e@
            == install_failed_text()),
        outcome == InstallOutcome::Installed ==> r.0 is None && r.1 is Ok,
{
    match outcome {
        InstallOutcome::NothingPending => (
            None,
            Err(String::from_str("No update is ready to install yet. Check for updates first.")),
        ),
        InstallOutcome::Failed => (
            Some(
                UpdateStatus::Error {
                    message: String::from_str(
                        "Couldn't download or install the update. Check your internet connection and try again.",
                    ),
                },
            ),
            Err(String::from_str("Couldn't download or install the update.")),
        ),
        InstallOutcome::Installed => (None, Ok(())),
    }
}

} // verus!

//! One tray for each session of Windows: what a start does about a tray that is
//! there already.

use crate::text;
use vstd::prelude::*;

verus! {

/// How often a window that is brought forward is looked at.
pub const ACTIVATION_ROUNDS: usize = 20;

/// How long the window of the owner is waited for, in milliseconds.
pub const AWAIT_WINDOW_MS: u64 = 3000;

/// How far apart two looks for the window of the owner are, in milliseconds.
pub const AWAIT_WINDOW_PAUSE_MS: u64 = 50;

/// What a start of the tray met so far.
#[derive(Debug)]
pub enum StartupEvent {
    Launched { start_service_elevated: bool },
    /// Whether there is a window of a tray that takes no part in the ownership of the
    /// session.
    Searched { found: bool },
    LegacyActivated(bool),
    /// This tray owns the session.
    Primary,
    /// Another tray owns the session and was told of this start.
    ExistingSignaled,
    AcquireFailed(String),
    /// Whether the window of the owner turned up in time.
    Awaited { found: bool },
    ExistingActivated(bool),
}

/// What a start of the tray does next.
#[derive(Debug)]
pub enum StartupStep {
    /// Start the service, as the elevated helper.
    StartServiceElevated,
    FindWindow,
    ActivateLegacyWindow,
    /// Ask for the ownership of the session.
    AcquireInstance,
    /// Wait for the owner's window.
    AwaitWindow,
    ActivateExistingWindow,
    RunDashboard,
    /// End well, with a line for the log.
    Exit { note: String },
    /// Show a message and end with an error.
    Fail { shown: String, error: String },
}

pub enum StartupStepView {
    StartServiceElevated,
    FindWindow,
    ActivateLegacyWindow,
    AcquireInstance,
    AwaitWindow,
    ActivateExistingWindow,
    RunDashboard,
    Exit { note: Seq<char> },
    Fail { shown: Seq<char>, error: Seq<char> },
}

impl View for StartupStep {
    type V = StartupStepView;

    open spec fn view(&self) -> StartupStepView {
        match self {
            StartupStep::StartServiceElevated => StartupStepView::StartServiceElevated,
            StartupStep::FindWindow => StartupStepView::FindWindow,
            StartupStep::ActivateLegacyWindow => StartupStepView::ActivateLegacyWindow,
            StartupStep::AcquireInstance => StartupStepView::AcquireInstance,
            StartupStep::AwaitWindow => StartupStepView::AwaitWindow,
            StartupStep::ActivateExistingWindow => StartupStepView::ActivateExistingWindow,
            StartupStep::RunDashboard => StartupStepView::RunDashboard,
            StartupStep::Exit { note } => StartupStepView::Exit { note: note@ },
            StartupStep::Fail { shown, error } => StartupStepView::Fail {
                shown: shown@,
                error: error@,
            },
        }
    }
}

/// The step after an event: an older tray without ownership is only brought
/// forward, the owner is told and brought forward, and only a tray that becomes the
/// owner runs.
pub open spec fn startup_step(event: StartupEvent) -> StartupStepView {
    match event {
        StartupEvent::Launched { start_service_elevated: true } =>
            StartupStepView::StartServiceElevated,
        StartupEvent::Launched { start_service_elevated: false } => StartupStepView::FindWindow,
        StartupEvent::Searched { found: true } => StartupStepView::ActivateLegacyWindow,
        StartupEvent::Searched { found: false } => StartupStepView::AcquireInstance,
        StartupEvent::LegacyActivated(true) => StartupStepView::Exit {
            note: "boundless_tray_single_instance=legacy_existing_activated"@,
        },
        StartupEvent::LegacyActivated(false) => StartupStepView::Fail {
            shown: "The existing Boundless tray could not be brought forward. Close it from Task Manager, then launch Boundless again."@,
            error: "existing legacy tray dashboard could not be shown"@,
        },
        StartupEvent::Primary => StartupStepView::RunDashboard,
        StartupEvent::ExistingSignaled => StartupStepView::AwaitWindow,
        StartupEvent::AcquireFailed(error) => StartupStepView::Fail {
            shown: "Boundless could not establish tray ownership for this Windows session. Close any existing boundlesstray.exe process, then launch Boundless again."@,
            error: error@,
        },
        StartupEvent::Awaited { found: true } => StartupStepView::ActivateExistingWindow,
        StartupEvent::Awaited { found: false } => StartupStepView::Fail {
            shown: "Boundless is already starting or running, but its dashboard did not become available. Close boundlesstray.exe from Task Manager, then launch Boundless again."@,
            error: "existing tray accepted activation but its dashboard window was unavailable"@,
        },
        StartupEvent::ExistingActivated(true) => StartupStepView::Exit {
            note: "boundless_tray_single_instance=existing_activated"@,
        },
        StartupEvent::ExistingActivated(false) => StartupStepView::Fail {
            shown: "The existing Boundless dashboard could not be brought forward. Close it from Task Manager, then launch Boundless again."@,
            error: "existing tray dashboard could not be shown"@,
        },
    }
}

fn failure(shown: &str, error: &str) -> (r: StartupStep)
    ensures
        r@ == (StartupStepView::Fail { shown: shown@, error: error@ }),
{
    StartupStep::Fail { shown: text::owned(shown), error: text::owned(error) }
}

/// One step of a start of the tray.
pub fn run(event: StartupEvent) -> (r: StartupStep)
    ensures
        r@ == startup_step(event),
{
    match event {
        StartupEvent::Launched { start_service_elevated } => {
            if start_service_elevated {
                StartupStep::StartServiceElevated
            } else {
                StartupStep::FindWindow
            }
        },
        StartupEvent::Searched { found } => {
            if found {
                StartupStep::ActivateLegacyWindow
            } else {
                StartupStep::AcquireInstance
            }
        },
        StartupEvent::LegacyActivated(activated) => {
            if activated {
                StartupStep::Exit {
                    note: text::owned("boundless_tray_single_instance=legacy_existing_activated"),
                }
            } else {
                failure(
                    "The existing Boundless tray could not be brought forward. Close it from Task Manager, then launch Boundless again.",
                    "existing legacy tray dashboard could not be shown",
                )
            }
        },
        StartupEvent::Primary => StartupStep::RunDashboard,
        StartupEvent::ExistingSignaled => StartupStep::AwaitWindow,
        StartupEvent::AcquireFailed(error) => failure(
            "Boundless could not establish tray ownership for this Windows session. Close any existing boundlesstray.exe process, then launch Boundless again.",
            error.as_str(),
        ),
        StartupEvent::Awaited { found } => {
            if found {
                StartupStep::ActivateExistingWindow
            } else {
                failure(
                    "Boundless is already starting or running, but its dashboard did not become available. Close boundlesstray.exe from Task Manager, then launch Boundless again.",
                    "existing tray accepted activation but its dashboard window was unavailable",
                )
            }
        },
        StartupEvent::ExistingActivated(activated) => {
            if activated {
                StartupStep::Exit {
                    note: text::owned("boundless_tray_single_instance=existing_activated"),
                }
            } else {
                failure(
                    "The existing Boundless dashboard could not be brought forward. Close it from Task Manager, then launch Boundless again.",
                    "existing tray dashboard could not be shown",
                )
            }
        },
    }
}

/// Whether a window is a dashboard, by its title.
pub fn window_title_matches(title: &str) -> (r: bool)
    ensures
        r == (title@ == "Boundless Dashboard"@),
{
    text::same(title, "Boundless Dashboard")
}

/// What Windows tells of a process; what it refuses to tell is not there.
#[derive(Debug)]
pub struct ProcessFacts {
    pub session_id: Option<u32>,
    pub user_sid: Option<String>,
    /// The name of the file that it runs, without the folder.
    pub file_name: Option<String>,
}

/// Whether a process is a tray of this user in this session. What is not known
/// counts against it.
pub fn process_matches_tray(
    facts: &ProcessFacts,
    expected_session_id: u32,
    expected_user_sid: &str,
) -> (r: bool)
    ensures
        r == {
            &&& facts.session_id == Some(expected_session_id)
            &&& facts.user_sid matches Some(sid)
            &&& sid@ == expected_user_sid@
            &&& facts.file_name matches Some(name)
            &&& text::lowered(name@) == text::lowered("boundlesstray.exe"@)
        },
{
    match facts.session_id {
        Some(session_id) => {
            if session_id != expected_session_id {
                return false;
            }
        },
        None => {
            return false;
        },
    }
    match &facts.user_sid {
        Some(sid) => {
            if !text::same(sid.as_str(), expected_user_sid) {
                return false;
            }
        },
        None => {
            return false;
        },
    }
    match &facts.file_name {
        Some(name) => text::same_ignoring_case(name.as_str(), "boundlesstray.exe"),
        None => false,
    }
}

/// What a look at a window that is brought forward comes to.
#[derive(Debug, Clone, Copy, PartialEq, Eq, Structural)]
pub enum ActivationRound {
    Activated,
    /// It was there before and stays in the background: flash it in the taskbar.
    Flash,
    LookAgain,
}

/// Whether the wait for the owner's window is over: it was found, or the time is up.
pub fn await_window_done(found: bool, elapsed_ms: u64) -> (r: bool)
    ensures
        r == (found || elapsed_ms >= AWAIT_WINDOW_MS),
{
    found || elapsed_ms >= AWAIT_WINDOW_MS
}

/// One look at a window that was asked to come forward. A window that was hidden
/// has come forward once it is visible.
pub fn activate_existing_dashboard_window(
    was_visible: bool,
    foreground_requested: bool,
    visible: bool,
    foreground: bool,
) -> (r: ActivationRound)
    ensures
        r == ActivationRound::Activated <==> foreground_requested || foreground || (!was_visible
            && visible),
        r == ActivationRound::Flash <==> !foreground_requested && !foreground && was_visible
            && visible,
{
    if foreground_requested || foreground || (!was_visible && visible) {
        ActivationRound::Activated
    } else if was_visible && visible {
        ActivationRound::Flash
    } else {
        ActivationRound::LookAgain
    }
}

/// The dashboard runs only in the tray that owns the session.
pub proof fn law_only_the_owner_runs_the_dashboard(event: StartupEvent)
    ensures
        startup_step(event) == StartupStepView::RunDashboard <==> event == StartupEvent::Primary,
{
}

/// A start that is not elevated looks for another tray before it asks for the
/// ownership, and asks for it only where there is none.
pub proof fn law_ownership_is_asked_for_last(event: StartupEvent)
    ensures
        startup_step(event) == StartupStepView::AcquireInstance <==> event == (
            StartupEvent::Searched { found: false }),
        startup_step(event) == StartupStepView::FindWindow <==> event == (StartupEvent::Launched {
            start_service_elevated: false,
        }),
{
}

/// A window that was found is brought forward, an older tray's at once, another one's
/// once it was waited for; whether that worked decides between leaving and failing.
pub proof fn law_found_windows_are_brought_forward(event: StartupEvent)
    ensures
        startup_step(event) == StartupStepView::ActivateLegacyWindow <==> event == (
            StartupEvent::Searched { found: true }),
        startup_step(event) == StartupStepView::AwaitWindow <==> event
            == StartupEvent::ExistingSignaled,
        startup_step(event) == StartupStepView::ActivateExistingWindow <==> event == (
            StartupEvent::Awaited { found: true }),
        startup_step(event) == StartupStepView::StartServiceElevated <==> event == (
            StartupEvent::Launched { start_service_elevated: true }),
        startup_step(event) is Exit <==> event == StartupEvent::LegacyActivated(true) || event
            == StartupEvent::ExistingActivated(true),
        startup_step(event) is Fail <==> event == StartupEvent::LegacyActivated(false) || event
            == StartupEvent::ExistingActivated(false) || event == (StartupEvent::Awaited {
            found: false,
        }) || event is AcquireFailed,
        event matches StartupEvent::AcquireFailed(error) ==> startup_step(event)->error == error@,
        AWAIT_WINDOW_MS == 3000 && AWAIT_WINDOW_PAUSE_MS == 50 && ACTIVATION_ROUNDS == 20,
{
}

} // verus!

//! The Windows service behind the control pipe: its state, whether and how it
//! is started, and when a daemon may be started without it.

use crate::text;
use vstd::prelude::*;

verus! {

/// How long a start of the service may take, in seconds.
pub const SERVICE_START_TIMEOUT_SECS: u64 = 15;

/// How long the elevated helper that starts the service may take, in seconds.
pub const ELEVATED_HELPER_TIMEOUT_SECS: u64 = 20;

pub const ERROR_ACCESS_DENIED_CODE: i32 = 5;

pub const ERROR_SERVICE_ALREADY_RUNNING_CODE: i32 = 1056;

pub const ERROR_SERVICE_DOES_NOT_EXIST_CODE: i32 = 1060;

/// The state of a service as the service control manager reports it.
#[derive(Debug, Clone, Copy, PartialEq, Eq, Structural)]
pub enum ServiceState {
    Stopped,
    StartPending,
    StopPending,
    Running,
    ContinuePending,
    PausePending,
    Paused,
}

impl ServiceState {
    pub open spec fn name_text(self) -> Seq<char> {
        match self {
            ServiceState::Stopped => "Stopped"@,
            ServiceState::StartPending => "StartPending"@,
            ServiceState::StopPending => "StopPending"@,
            ServiceState::Running => "Running"@,
            ServiceState::ContinuePending => "ContinuePending"@,
            ServiceState::PausePending => "PausePending"@,
            ServiceState::Paused => "Paused"@,
        }
    }

    pub fn name(self) -> (r: &'static str)
        ensures
            r@ == self.name_text(),
    {
        match self {
            ServiceState::Stopped => "Stopped",
            ServiceState::StartPending => "StartPending",
            ServiceState::StopPending => "StopPending",
            ServiceState::Running => "Running",
            ServiceState::ContinuePending => "ContinuePending",
            ServiceState::PausePending => "PausePending",
            ServiceState::Paused => "Paused",
        }
    }
}

/// What is known of the service.
#[derive(Debug, PartialEq, Eq)]
pub enum BoundlessServiceState {
    Missing,
    Running,
    StartPending,
    Stopped,
    Installed { state: String },
    QueryFailed(String),
}

pub enum ServiceView {
    Missing,
    Running,
    StartPending,
    Stopped,
    Installed(Seq<char>),
    QueryFailed(Seq<char>),
}

impl View for BoundlessServiceState {
    type V = ServiceView;

    open spec fn view(&self) -> ServiceView {
        match self {
            BoundlessServiceState::Missing => ServiceView::Missing,
            BoundlessServiceState::Running => ServiceView::Running,
            BoundlessServiceState::StartPending => ServiceView::StartPending,
            BoundlessServiceState::Stopped => ServiceView::Stopped,
            BoundlessServiceState::Installed { state } => ServiceView::Installed(state@),
            BoundlessServiceState::QueryFailed(error) => ServiceView::QueryFailed(error@),
        }
    }
}

pub open spec fn mapped_state(state: ServiceState) -> ServiceView {
    match state {
        ServiceState::Running => ServiceView::Running,
        ServiceState::StartPending => ServiceView::StartPending,
        ServiceState::Stopped => ServiceView::Stopped,
        other => ServiceView::Installed(other.name_text()),
    }
}

/// The states that decide what can be done stand for themselves; every other one
/// is an installed service in some transition.
pub fn map_service_state(state: ServiceState) -> (r: BoundlessServiceState)
    ensures
        r@ == mapped_state(state),
{
    match state {
        ServiceState::Running => BoundlessServiceState::Running,
        ServiceState::StartPending => BoundlessServiceState::StartPending,
        ServiceState::Stopped => BoundlessServiceState::Stopped,
        other => BoundlessServiceState::Installed { state: text::owned(other.name()) },
    }
}

/// What a query of the service met.
#[derive(Debug)]
pub enum ServiceQuery {
    ManagerFailed(String),
    OpenFailed { code: Option<i32>, message: String },
    StatusFailed(String),
    Status(ServiceState),
}

pub open spec fn queried_state(query: ServiceQuery) -> ServiceView {
    match query {
        ServiceQuery::ManagerFailed(message) => ServiceView::QueryFailed(
            "open Windows Service Control Manager: "@ + message@,
        ),
        ServiceQuery::OpenFailed { code, message } => if code == Some(
            ERROR_SERVICE_DOES_NOT_EXIST_CODE,
        ) {
            ServiceView::Missing
        } else {
            ServiceView::QueryFailed("open BoundlessService for status query: "@ + message@)
        },
        ServiceQuery::StatusFailed(message) => ServiceView::QueryFailed(
            "query BoundlessService status: "@ + message@,
        ),
        ServiceQuery::Status(state) => mapped_state(state),
    }
}

fn code_is(code: Option<i32>, wanted: i32) -> (r: bool)
    ensures
        r == (code == Some(wanted)),
{
    match code {
        Some(code) => code == wanted,
        None => false,
    }
}

/// The state of the service that a query shows.
pub fn query_boundless_service_state(query: ServiceQuery) -> (r: BoundlessServiceState)
    ensures
        r@ == queried_state(query),
{
    match query {
        ServiceQuery::ManagerFailed(message) => BoundlessServiceState::QueryFailed(
            text::cat2("open Windows Service Control Manager: ", message.as_str()),
        ),
        ServiceQuery::OpenFailed { code, message } => {
            if code_is(code, ERROR_SERVICE_DOES_NOT_EXIST_CODE) {
                BoundlessServiceState::Missing
            } else {
                BoundlessServiceState::QueryFailed(
                    text::cat2("open BoundlessService for status query: ", message.as_str()),
                )
            }
        },
        ServiceQuery::StatusFailed(message) => BoundlessServiceState::QueryFailed(
            text::cat2("query BoundlessService status: ", message.as_str()),
        ),
        ServiceQuery::Status(state) => map_service_state(state),
    }
}

/// The lines of `stdout` that tell the state, each without white space around it.
pub open spec fn is_state_line(line: Seq<char>) -> bool {
    text::starts(text::trimmed(line), "STATE"@)
}

/// What a state line says: the text behind its first colon.
pub open spec fn state_line_value(line: Seq<char>) -> Seq<char> {
    let trimmed = text::trimmed(line);
    match text::char_at(trimmed, ':') {
        Some(at) => {
            let value = text::trimmed(trimmed.skip(at + 1));
            if value.len() == 0 {
                "unknown"@
            } else {
                value
            }
        },
        None => "unknown"@,
    }
}

pub open spec fn state_line_state(line: Seq<char>) -> ServiceView {
    if text::occurs(text::trimmed(line), "RUNNING"@) {
        ServiceView::Running
    } else {
        ServiceView::Installed(state_line_value(line))
    }
}

/// The state that the first state line among `lines` tells, if there is one.
pub open spec fn told_state(lines: Seq<Seq<char>>) -> Option<ServiceView>
    decreases lines.len(),
{
    if lines.len() == 0 {
        None
    } else {
        match told_state(lines.drop_last()) {
            Some(state) => Some(state),
            None => if is_state_line(lines.last()) {
                Some(state_line_state(lines.last()))
            } else {
                None
            },
        }
    }
}

/// The state of the service that the output of a status query shows.
pub open spec fn parsed_service_state(
    success: bool,
    stdout: Seq<char>,
    stderr: Seq<char>,
) -> ServiceView {
    let combined = stdout + "\n"@ + stderr;
    let lowered = text::lowered(combined);
    if text::occurs(lowered, "failed 1060"@) || text::occurs(lowered, "does not exist"@) {
        ServiceView::Missing
    } else {
        match told_state(text::pieces(stdout, '\n')) {
            Some(state) => state,
            None => if success {
                ServiceView::Installed("unknown"@)
            } else {
                ServiceView::QueryFailed(text::trimmed(combined))
            },
        }
    }
}

fn read_state_line(line: &str) -> (r: Option<BoundlessServiceState>)
    ensures
        r is Some <==> is_state_line(line@),
        r is Some ==> r->0@ == state_line_state(line@),
{
    let trimmed = text::trim(line);
    if !text::starts_with(trimmed.as_str(), "STATE") {
        return None;
    }
    if text::contains(trimmed.as_str(), "RUNNING") {
        return Some(BoundlessServiceState::Running);
    }
    let state = match text::find_char(trimmed.as_str(), ':') {
        Some(at) => {
            let value = text::trim(text::suffix(trimmed.as_str(), at + 1).as_str());
            if value.as_str().is_empty() {
                text::owned("unknown")
            } else {
                value
            }
        },
        None => text::owned("unknown"),
    };
    Some(BoundlessServiceState::Installed { state })
}

/// The state of the service that the output of a status query shows.
pub fn parse_boundless_service_state(success: bool, stdout: &str, stderr: &str) -> (r:
    BoundlessServiceState)
    ensures
        r@ == parsed_service_state(success, stdout@, stderr@),
{
    let combined = text::cat3(stdout, "\n", stderr);
    let lowered = text::to_lower(combined.as_str());
    if text::contains(lowered.as_str(), "failed 1060") || text::contains(
        lowered.as_str(),
        "does not exist",
    ) {
        return BoundlessServiceState::Missing;
    }
    let lines = text::split(stdout, '\n');
    let ghost all = text::views(lines@);
    let mut i: usize = 0;
    while i < lines.len()
        invariant
            i <= lines.len(),
            all == text::views(lines@),
            all == text::pieces(stdout@, '\n'),
            told_state(all.take(i as int)) is None,
            !text::occurs(text::lowered(stdout@ + "\n"@ + stderr@), "failed 1060"@),
            !text::occurs(text::lowered(stdout@ + "\n"@ + stderr@), "does not exist"@),
        decreases lines.len() - i,
    {
        proof {
            let longer = all.take(i + 1);
            assert(longer.drop_last() =~= all.take(i as int));
            assert(longer.last() == lines@[i as int]@);
        }
        match read_state_line(lines[i].as_str()) {
            Some(state) => {
                proof {
                    lemma_told_state_stands(all, i + 1);
                }
                return state;
            },
            None => {},
        }
        i = i + 1;
    }
    assert(all.take(i as int) =~= all);
    if success {
        BoundlessServiceState::Installed { state: text::owned("unknown") }
    } else {
        BoundlessServiceState::QueryFailed(text::trim(combined.as_str()))
    }
}

proof fn lemma_told_state_stands(lines: Seq<Seq<char>>, n: int)
    requires
        0 <= n <= lines.len(),
        told_state(lines.take(n)) is Some,
    ensures
        told_state(lines) == told_state(lines.take(n)),
    decreases lines.len() - n,
{
    if n < lines.len() {
        assert(lines.take(n + 1).drop_last() =~= lines.take(n));
        lemma_told_state_stands(lines, n + 1);
    } else {
        assert(lines.take(n) =~= lines);
    }
}

/// What the dashboard offers where the service is not up.
#[derive(Debug, PartialEq, Eq)]
pub struct ServiceRecoveryOffer {
    pub state: String,
    pub message: String,
    pub action_label: String,
}

pub open spec fn stopped_message() -> Seq<char> {
    "BoundlessService is installed but stopped. Start the service to reconnect the dashboard; Windows may ask for permission."@
}

pub open spec fn pending_message() -> Seq<char> {
    "BoundlessService is still starting. Wait for the service and its control pipe without launching another daemon."@
}

/// Only a service that is stopped or on its way up can be recovered from the
/// dashboard.
pub fn service_recovery_offer_for_state(state: &BoundlessServiceState) -> (r: Option<
    ServiceRecoveryOffer,
>)
    ensures
        r is Some <==> state@ is Stopped || state@ is StartPending,
        r is Some ==> {
            let stopped = state@ is Stopped;
            &&& r->0.state@ == (if stopped {
                "Stopped"@
            } else {
                "StartPending"@
            })
            &&& r->0.message@ == (if stopped {
                stopped_message()
            } else {
                pending_message()
            })
            &&& r->0.action_label@ == (if stopped {
                "Start service"@
            } else {
                "Finish startup"@
            })
        },
{
    match state {
        BoundlessServiceState::Stopped => Some(
            ServiceRecoveryOffer {
                state: text::owned("Stopped"),
                message: text::owned(
                    "BoundlessService is installed but stopped. Start the service to reconnect the dashboard; Windows may ask for permission.",
                ),
                action_label: text::owned("Start service"),
            },
        ),
        BoundlessServiceState::StartPending => Some(
            ServiceRecoveryOffer {
                state: text::owned("StartPending"),
                message: text::owned(
                    "BoundlessService is still starting. Wait for the service and its control pipe without launching another daemon.",
                ),
                action_label: text::owned("Finish startup"),
            },
        ),
        _ => None,
    }
}

/// What the dashboard offers: nothing where the daemon is not behind the
/// service's pipe.
pub fn boundless_service_recovery_offer(
    named_pipe_endpoint: bool,
    state: &BoundlessServiceState,
) -> (r: Option<ServiceRecoveryOffer>)
    ensures
        r is Some <==> named_pipe_endpoint && (state@ is Stopped || state@ is StartPending),
        r is Some ==> r->0.action_label@ == (if state@ is Stopped {
            "Start service"@
        } else {
            "Finish startup"@
        }) && r->0.message@ == (if state@ is Stopped {
            stopped_message()
        } else {
            pending_message()
        }) && r->0.state@ == (if state@ is Stopped {
            "Stopped"@
        } else {
            "StartPending"@
        }),
{
    if !named_pipe_endpoint {
        return None;
    }
    service_recovery_offer_for_state(state)
}

/// Why the service could not be started.
#[derive(Debug)]
pub enum ServiceError {
    /// A call to the service control manager failed.
    Call { context: &'static str, message: String },
    CannotStart(ServiceState),
    RemovedBeforeStart,
    ChangedBeforeStart(String),
    RecheckFailed(String),
    HelperLacksPermission,
    ReturnedToStopped,
    PipeReturnedToStopped,
    RemovedDuringStart,
    UnexpectedDuringStart(String),
    VerifyFailed(String),
    NotRunningInTime { seconds: u64 },
    NotReadyInTime { endpoint: String, seconds: u64, last_pipe_error: String },
    NotInstalled,
    InTransition(String),
    QueryFailed(String),
    PromptCancelled,
    NoHelperHandle,
    HelperTimedOut { seconds: u64 },
    HelperFailed { exit_code: u32 },
}

impl ServiceError {
    pub open spec fn text(self) -> Seq<char> {
        match self {
            ServiceError::Call { context, message } => context@ + ": "@ + message@,
            ServiceError::CannotStart(state) =>
                "BoundlessService cannot be started while its SCM state is "@ + state.name_text()
                    + "; wait for that transition to finish, then retry"@,
            ServiceError::RemovedBeforeStart =>
                "BoundlessService was removed before startup could be requested"@,
            ServiceError::ChangedBeforeStart(state) => "BoundlessService entered SCM state "@
                + state@ + " before startup could be requested"@,
            ServiceError::RecheckFailed(error) =>
                "SCM denied startup access and service status could not be rechecked: "@ + error@,
            ServiceError::HelperLacksPermission =>
                "elevated Boundless service-start helper still lacks SCM start permission"@,
            ServiceError::ReturnedToStopped =>
                "BoundlessService returned to Stopped before startup completed; check the Windows Application log or repair Boundless"@,
            ServiceError::PipeReturnedToStopped =>
                "BoundlessService returned to Stopped before its control pipe became ready; check the Windows Application log or repair Boundless"@,
            ServiceError::RemovedDuringStart =>
                "BoundlessService was removed while startup was in progress"@,
            ServiceError::UnexpectedDuringStart(state) =>
                "BoundlessService entered unexpected SCM state "@ + state@ + " during startup"@,
            ServiceError::VerifyFailed(error) => "could not verify BoundlessService startup: "@
                + error@,
            ServiceError::NotRunningInTime { seconds } =>
                "BoundlessService did not reach Running within "@ + text::decimal(seconds as nat)
                    + " seconds"@,
            ServiceError::NotReadyInTime { endpoint, seconds, last_pipe_error } =>
                "BoundlessService did not become ready at "@ + endpoint@ + " within "@
                    + text::decimal(seconds as nat) + " seconds ("@ + (if last_pipe_error@.len()
                    == 0 {
                    "the service never reached Running"@
                } else {
                    "last control-pipe error: "@ + last_pipe_error@
                }) + ")"@,
            ServiceError::NotInstalled =>
                "BoundlessService is not installed; repair or reinstall Boundless"@,
            ServiceError::InTransition(state) => "BoundlessService is in SCM state "@ + state@
                + "; wait for that transition to finish, then retry"@,
            ServiceError::QueryFailed(error) => "could not query BoundlessService before startup: "@
                + error@,
            ServiceError::PromptCancelled =>
                "Windows permission prompt was canceled; BoundlessService remains stopped"@,
            ServiceError::NoHelperHandle =>
                "Windows accepted the service-start request but returned no helper process handle"@,
            ServiceError::HelperTimedOut { seconds } =>
                "elevated Boundless service-start helper did not finish within "@ + text::decimal(
                    seconds as nat,
                ) + " seconds"@,
            ServiceError::HelperFailed { exit_code } =>
                "elevated Boundless service-start helper failed with exit code "@ + text::decimal(
                    exit_code as nat,
                ) + "; check BoundlessService in Windows Services or repair Boundless"@,
        }
    }

    /// The error in words.
    pub fn message(&self) -> (r: String)
        ensures
            r@ == self.text(),
    {
        match self {
            ServiceError::Call { context, message } => text::cat3(context, ": ", message.as_str()),
            ServiceError::CannotStart(state) => text::cat3(
                "BoundlessService cannot be started while its SCM state is ",
                state.name(),
                "; wait for that transition to finish, then retry",
            ),
            ServiceError::RemovedBeforeStart => text::owned(
                "BoundlessService was removed before startup could be requested",
            ),
            ServiceError::ChangedBeforeStart(state) => text::cat3(
                "BoundlessService entered SCM state ",
                state.as_str(),
                " before startup could be requested",
            ),
            ServiceError::RecheckFailed(error) => text::cat2(
                "SCM denied startup access and service status could not be rechecked: ",
                error.as_str(),
            ),
            ServiceError::HelperLacksPermission => text::owned(
                "elevated Boundless service-start helper still lacks SCM start permission",
            ),
            ServiceError::ReturnedToStopped => text::owned(
                "BoundlessService returned to Stopped before startup completed; check the Windows Application log or repair Boundless",
            ),
            ServiceError::PipeReturnedToStopped => text::owned(
                "BoundlessService returned to Stopped before its control pipe became ready; check the Windows Application log or repair Boundless",
            ),
            ServiceError::RemovedDuringStart => text::owned(
                "BoundlessService was removed while startup was in progress",
            ),
            ServiceError::UnexpectedDuringStart(state) => text::cat3(
                "BoundlessService entered unexpected SCM state ",
                state.as_str(),
                " during startup",
            ),
            ServiceError::VerifyFailed(error) => text::cat2(
                "could not verify BoundlessService startup: ",
                error.as_str(),
            ),
            ServiceError::NotRunningInTime { seconds } => text::cat3(
                "BoundlessService did not reach Running within ",
                text::decimal_string(*seconds).as_str(),
                " seconds",
            ),
            ServiceError::NotReadyInTime { endpoint, seconds, last_pipe_error } => {
                let mut out = text::cat5(
                    "BoundlessService did not become ready at ",
                    endpoint.as_str(),
                    " within ",
                    text::decimal_string(*seconds).as_str(),
                    " seconds (",
                );
                if last_pipe_error.as_str().is_empty() {
                    out.append("the service never reached Running");
                } else {
                    let detail = text::cat2("last control-pipe error: ", last_pipe_error.as_str());
                    out.append(detail.as_str());
                }
                out.append(")");
                out
            },
            ServiceError::NotInstalled => text::owned(
                "BoundlessService is not installed; repair or reinstall Boundless",
            ),
            ServiceError::InTransition(state) => text::cat3(
                "BoundlessService is in SCM state ",
                state.as_str(),
                "; wait for that transition to finish, then retry",
            ),
            ServiceError::QueryFailed(error) => text::cat2(
                "could not query BoundlessService before startup: ",
                error.as_str(),
            ),
            ServiceError::PromptCancelled => text::owned(
                "Windows permission prompt was canceled; BoundlessService remains stopped",
            ),
            ServiceError::NoHelperHandle => text::owned(
                "Windows accepted the service-start request but returned no helper process handle",
            ),
            ServiceError::HelperTimedOut { seconds } => text::cat3(
                "elevated Boundless service-start helper did not finish within ",
                text::decimal_string(*seconds).as_str(),
                " seconds",
            ),
            ServiceError::HelperFailed { exit_code } => text::cat3(
                "elevated Boundless service-start helper failed with exit code ",
                text::decimal_string(*exit_code as u64).as_str(),
                "; check BoundlessService in Windows Services or repair Boundless",
            ),
        }
    }
}

#[derive(Debug, Clone, Copy, PartialEq, Eq, Structural)]
pub enum ServiceStartRequest {
    Requested,
    AlreadyInProgress,
    NeedsElevation,
}

/// What a request to start the service met so far.
#[derive(Debug)]
pub enum ServiceStartEvent {
    ManagerFailed(String),
    OpenFailed { code: Option<i32>, message: String },
    StatusFailed(String),
    Status(ServiceState),
    Started,
    StartFailed { code: Option<i32>, message: String },
}

/// What a request to start the service does next.
#[derive(Debug)]
pub enum ServiceStartStep {
    /// Ask the manager to start the service.
    Start,
    /// Access was denied: look at the service again.
    Recheck,
    Done(ServiceStartRequest),
    Failed(ServiceError),
}

/// One step of a request to start the service.
pub fn request_boundless_service_start(event: ServiceStartEvent) -> (r: ServiceStartStep)
    ensures
        r == (match event {
            ServiceStartEvent::ManagerFailed(message) => ServiceStartStep::Failed(
                ServiceError::Call { context: "open Windows Service Control Manager", message },
            ),
            ServiceStartEvent::OpenFailed { code, message } => if code == Some(
                ERROR_ACCESS_DENIED_CODE,
            ) {
                ServiceStartStep::Recheck
            } else {
                ServiceStartStep::Failed(
                    ServiceError::Call { context: "open BoundlessService for startup", message },
                )
            },
            ServiceStartEvent::StatusFailed(message) => ServiceStartStep::Failed(
                ServiceError::Call { context: "query BoundlessService before startup", message },
            ),
            ServiceStartEvent::Status(state) => match state {
                ServiceState::Running | ServiceState::StartPending => ServiceStartStep::Done(
                    ServiceStartRequest::AlreadyInProgress,
                ),
                ServiceState::Stopped => ServiceStartStep::Start,
                other => ServiceStartStep::Failed(ServiceError::CannotStart(other)),
            },
            ServiceStartEvent::Started => ServiceStartStep::Done(ServiceStartRequest::Requested),
            ServiceStartEvent::StartFailed { code, message } => if code == Some(
                ERROR_SERVICE_ALREADY_RUNNING_CODE,
            ) {
                ServiceStartStep::Done(ServiceStartRequest::AlreadyInProgress)
            } else if code == Some(ERROR_ACCESS_DENIED_CODE) {
                ServiceStartStep::Recheck
            } else {
                ServiceStartStep::Failed(
                    ServiceError::Call { context: "request BoundlessService startup", message },
                )
            },
        }),
{
    match event {
        ServiceStartEvent::ManagerFailed(message) => ServiceStartStep::Failed(
            ServiceError::Call { context: "open Windows Service Control Manager", message },
        ),
        ServiceStartEvent::OpenFailed { code, message } => {
            if code_is(code, ERROR_ACCESS_DENIED_CODE) {
                ServiceStartStep::Recheck
            } else {
                ServiceStartStep::Failed(
                    ServiceError::Call { context: "open BoundlessService for startup", message },
                )
            }
        },
        ServiceStartEvent::StatusFailed(message) => ServiceStartStep::Failed(
            ServiceError::Call { context: "query BoundlessService before startup", message },
        ),
        ServiceStartEvent::Status(state) => match state {
            ServiceState::Running | ServiceState::StartPending => ServiceStartStep::Done(
                ServiceStartRequest::AlreadyInProgress,
            ),
            ServiceState::Stopped => ServiceStartStep::Start,
            other => ServiceStartStep::Failed(ServiceError::CannotStart(other)),
        },
        ServiceStartEvent::Started => ServiceStartStep::Done(ServiceStartRequest::Requested),
        ServiceStartEvent::StartFailed { code, message } => {
            if code_is(code, ERROR_SERVICE_ALREADY_RUNNING_CODE) {
                ServiceStartStep::Done(ServiceStartRequest::AlreadyInProgress)
            } else if code_is(code, ERROR_ACCESS_DENIED_CODE) {
                ServiceStartStep::Recheck
            } else {
                ServiceStartStep::Failed(
                    ServiceError::Call { context: "request BoundlessService startup", message },
                )
            }
        },
    }
}

/// What a denied start comes to, given the service's state after it: only a
/// service that is still stopped needs elevation.
pub fn classify_start_access_denied(state: BoundlessServiceState) -> (r: Result<
    ServiceStartRequest,
    ServiceError,
>)
    ensures
        r == (match state {
            BoundlessServiceState::Running | BoundlessServiceState::StartPending => Ok(
                ServiceStartRequest::AlreadyInProgress,
            ),
            BoundlessServiceState::Stopped => Ok(ServiceStartRequest::NeedsElevation),
            BoundlessServiceState::Missing => Err(ServiceError::RemovedBeforeStart),
            BoundlessServiceState::Installed { state } => Err(
                ServiceError::ChangedBeforeStart(state),
            ),
            BoundlessServiceState::QueryFailed(error) => Err(ServiceError::RecheckFailed(error)),
        }),
{
    match state {
        BoundlessServiceState::Running | BoundlessServiceState::StartPending => Ok(
            ServiceStartRequest::AlreadyInProgress,
        ),
        BoundlessServiceState::Stopped => Ok(ServiceStartRequest::NeedsElevation),
        BoundlessServiceState::Missing => Err(ServiceError::RemovedBeforeStart),
        BoundlessServiceState::Installed { state } => Err(ServiceError::ChangedBeforeStart(state)),
        BoundlessServiceState::QueryFailed(error) => Err(ServiceError::RecheckFailed(error)),
    }
}

/// What the elevated helper does with the result of its request: wait for the
/// service, or give up, as nothing more can be asked for.
pub fn start_boundless_service_elevated_entrypoint(
    request: Result<ServiceStartRequest, ServiceError>,
) -> (r: Result<(), ServiceError>)
    ensures
        r == (match request {
            Ok(ServiceStartRequest::NeedsElevation) => Err(ServiceError::HelperLacksPermission),
            Ok(_) => Ok(()),
            Err(error) => Err(error),
        }),
{
    match request {
        Ok(ServiceStartRequest::NeedsElevation) => Err(ServiceError::HelperLacksPermission),
        Ok(_) => Ok(()),
        Err(error) => Err(error),
    }
}

/// What a wait for the service does next.
#[derive(Debug)]
pub enum ServiceWaitStep {
    Ready,
    KeepWaiting,
    Failed(ServiceError),
}

/// One look at the service while it is awaited; `late` says that the time for it
/// is up.
pub fn wait_for_service_running(
    state: BoundlessServiceState,
    late: bool,
    seconds: u64,
) -> (r: ServiceWaitStep)
    ensures
        r == (match state {
            BoundlessServiceState::Running => ServiceWaitStep::Ready,
            BoundlessServiceState::StartPending => if late {
                ServiceWaitStep::Failed(ServiceError::NotRunningInTime { seconds })
            } else {
                ServiceWaitStep::KeepWaiting
            },
            BoundlessServiceState::Stopped => ServiceWaitStep::Failed(
                ServiceError::ReturnedToStopped,
            ),
            BoundlessServiceState::Missing => ServiceWaitStep::Failed(
                ServiceError::RemovedDuringStart,
            ),
            BoundlessServiceState::Installed { state } => ServiceWaitStep::Failed(
                ServiceError::UnexpectedDuringStart(state),
            ),
            BoundlessServiceState::QueryFailed(error) => ServiceWaitStep::Failed(
                ServiceError::VerifyFailed(error),
            ),
        }),
{
    match state {
        BoundlessServiceState::Running => ServiceWaitStep::Ready,
        BoundlessServiceState::StartPending => {
            if late {
                ServiceWaitStep::Failed(ServiceError::NotRunningInTime { seconds })
            } else {
                ServiceWaitStep::KeepWaiting
            }
        },
        BoundlessServiceState::Stopped => ServiceWaitStep::Failed(ServiceError::ReturnedToStopped),
        BoundlessServiceState::Missing => ServiceWaitStep::Failed(ServiceError::RemovedDuringStart),
        BoundlessServiceState::Installed { state } => ServiceWaitStep::Failed(
            ServiceError::UnexpectedDuringStart(state),
        ),
        BoundlessServiceState::QueryFailed(error) => ServiceWaitStep::Failed(
            ServiceError::VerifyFailed(error),
        ),
    }
}

/// One look at the service and, where it runs, at its control pipe. `pipe` is the
/// result of connecting to the pipe of a running service; the last error of the
/// pipe is kept for the case that the time is up.
pub fn wait_for_boundless_service_and_pipe(
    state: BoundlessServiceState,
    pipe: Result<(), String>,
    late: bool,
    endpoint: &String,
    seconds: u64,
    last_pipe_error: &mut String,
) -> (r: ServiceWaitStep)
    ensures
        final(last_pipe_error)@ == (if state is Running && pipe is Err {
            pipe->Err_0@
        } else {
            old(last_pipe_error)@
        }),
        match state {
            BoundlessServiceState::Running | BoundlessServiceState::StartPending => {
                if state is Running && pipe is Ok {
                    r == ServiceWaitStep::Ready
                } else if late {
                    r matches ServiceWaitStep::Failed(
                        ServiceError::NotReadyInTime {
                            endpoint: at,
                            seconds: limit,
                            last_pipe_error: error,
                        },
                    ) && at@ == endpoint@ && limit == seconds && error@ == final(last_pipe_error)@
                } else {
                    r == ServiceWaitStep::KeepWaiting
                }
            },
            BoundlessServiceState::Stopped => r == ServiceWaitStep::Failed(
                ServiceError::PipeReturnedToStopped,
            ),
            BoundlessServiceState::Missing => r == ServiceWaitStep::Failed(
                ServiceError::RemovedDuringStart,
            ),
            BoundlessServiceState::Installed { state } => r == ServiceWaitStep::Failed(
                ServiceError::UnexpectedDuringStart(state),
            ),
            BoundlessServiceState::QueryFailed(error) => r == ServiceWaitStep::Failed(
                ServiceError::VerifyFailed(error),
            ),
        },
{
    match state {
        BoundlessServiceState::Running => {
            match pipe {
                Ok(_) => {
                    return ServiceWaitStep::Ready;
                },
                Err(error) => {
                    *last_pipe_error = error;
                },
            }
        },
        BoundlessServiceState::StartPending => {},
        BoundlessServiceState::Stopped => {
            return ServiceWaitStep::Failed(ServiceError::PipeReturnedToStopped);
        },
        BoundlessServiceState::Missing => {
            return ServiceWaitStep::Failed(ServiceError::RemovedDuringStart);
        },
        BoundlessServiceState::Installed { state } => {
            return ServiceWaitStep::Failed(ServiceError::UnexpectedDuringStart(state));
        },
        BoundlessServiceState::QueryFailed(error) => {
            return ServiceWaitStep::Failed(ServiceError::VerifyFailed(error));
        },
    }
    if late {
        ServiceWaitStep::Failed(
            ServiceError::NotReadyInTime {
                endpoint: endpoint.clone(),
                seconds,
                last_pipe_error: last_pipe_error.clone(),
            },
        )
    } else {
        ServiceWaitStep::KeepWaiting
    }
}

/// What a recovery of the service begins with.
#[derive(Debug)]
pub enum ServiceRecoveryStep {
    /// Ask for the service to be started, with elevation if need be.
    RequestStart,
    /// Wait for the service and its pipe.
    Wait,
    Failed(ServiceError),
}

pub fn recover_boundless_service(state: BoundlessServiceState) -> (r: ServiceRecoveryStep)
    ensures
        r == (match state {
            BoundlessServiceState::Missing => ServiceRecoveryStep::Failed(
                ServiceError::NotInstalled,
            ),
            BoundlessServiceState::Running | BoundlessServiceState::StartPending =>
                ServiceRecoveryStep::Wait,
            BoundlessServiceState::Stopped => ServiceRecoveryStep::RequestStart,
            BoundlessServiceState::Installed { state } => ServiceRecoveryStep::Failed(
                ServiceError::InTransition(state),
            ),
            BoundlessServiceState::QueryFailed(error) => ServiceRecoveryStep::Failed(
                ServiceError::QueryFailed(error),
            ),
        }),
{
    match state {
        BoundlessServiceState::Missing => ServiceRecoveryStep::Failed(ServiceError::NotInstalled),
        BoundlessServiceState::Running | BoundlessServiceState::StartPending =>
            ServiceRecoveryStep::Wait,
        BoundlessServiceState::Stopped => ServiceRecoveryStep::RequestStart,
        BoundlessServiceState::Installed { state } => ServiceRecoveryStep::Failed(
            ServiceError::InTransition(state),
        ),
        BoundlessServiceState::QueryFailed(error) => ServiceRecoveryStep::Failed(
            ServiceError::QueryFailed(error),
        ),
    }
}

/// What launching the elevated helper met.
#[derive(Debug)]
pub enum HelperLaunch {
    LaunchFailed { cancelled: bool, message: String },
    NoHandle,
    TimedOut,
    WaitFailed(String),
    ExitCodeFailed(String),
    Exited(u32),
}

/// What launching the elevated helper came to: only an exit code of zero counts.
pub fn launch_elevated_service_start_helper(launch: HelperLaunch) -> (r: Result<(), ServiceError>)
    ensures
        r == (match launch {
            HelperLaunch::LaunchFailed { cancelled, message } => if cancelled {
                Err(ServiceError::PromptCancelled)
            } else {
                Err(
                    ServiceError::Call {
                        context: "request elevated BoundlessService startup",
                        message,
                    },
                )
            },
            HelperLaunch::NoHandle => Err(ServiceError::NoHelperHandle),
            HelperLaunch::TimedOut => Err(
                ServiceError::HelperTimedOut { seconds: ELEVATED_HELPER_TIMEOUT_SECS },
            ),
            HelperLaunch::WaitFailed(message) => Err(
                ServiceError::Call { context: "wait for elevated service-start helper", message },
            ),
            HelperLaunch::ExitCodeFailed(message) => Err(
                ServiceError::Call {
                    context: "read elevated service-start helper exit code",
                    message,
                },
            ),
            HelperLaunch::Exited(exit_code) => if exit_code == 0 {
                Ok(())
            } else {
                Err(ServiceError::HelperFailed { exit_code })
            },
        }),
{
    match launch {
        HelperLaunch::LaunchFailed { cancelled, message } => {
            if cancelled {
                Err(ServiceError::PromptCancelled)
            } else {
                Err(
                    ServiceError::Call {
                        context: "request elevated BoundlessService startup",
                        message,
                    },
                )
            }
        },
        HelperLaunch::NoHandle => Err(ServiceError::NoHelperHandle),
        HelperLaunch::TimedOut => Err(
            ServiceError::HelperTimedOut { seconds: ELEVATED_HELPER_TIMEOUT_SECS },
        ),
        HelperLaunch::WaitFailed(message) => Err(
            ServiceError::Call { context: "wait for elevated service-start helper", message },
        ),
        HelperLaunch::ExitCodeFailed(message) => Err(
            ServiceError::Call { context: "read elevated service-start helper exit code", message },
        ),
        HelperLaunch::Exited(exit_code) => {
            if exit_code == 0 {
                Ok(())
            } else {
                Err(ServiceError::HelperFailed { exit_code })
            }
        },
    }
}

/// What the tray does about a daemon that it cannot reach.
#[derive(Debug, Clone, Copy, PartialEq, Eq, Structural)]
pub enum DaemonStartPlan {
    /// Clear a stale owner of the pipe, then start a daemon.
    RecoverStalePipe,
    /// Start a daemon.
    Spawn,
}

/// Why the tray must not start a daemon.
#[derive(Debug)]
pub enum DaemonStartError {
    NotAllowed { endpoint: String },
    ServiceUnreachable { endpoint: String, error: String },
    ServiceNotRunning { state: String, endpoint: String, error: String },
    ServiceUnknown { endpoint: String, error: String },
}

impl DaemonStartError {
    pub open spec fn text(self) -> Seq<char> {
        match self {
            DaemonStartError::NotAllowed { endpoint } => "daemon is not reachable at "@ + endpoint@
                + "; run boundlessd or pass --start-daemon"@,
            DaemonStartError::ServiceUnreachable { endpoint, error } =>
                "BoundlessService is running but the tray cannot reach the service pipe at "@
                    + endpoint@ + ": "@ + error@
                    + ". Do not start a separate per-user boundlessd.exe. Restart BoundlessService, repair the install, or verify the MSI allowed-user SID."@,
            DaemonStartError::ServiceNotRunning { state, endpoint, error } =>
                "BoundlessService is installed but not running (state="@ + state@
                    + ") and the tray cannot reach "@ + endpoint@ + ": "@ + error@
                    + ". Start BoundlessService or repair the install; do not start a separate per-user boundlessd.exe."@,
            DaemonStartError::ServiceUnknown { endpoint, error } =>
                "could not determine whether BoundlessService is installed before starting a local daemon for "@
                    + endpoint@ + ": "@ + error@
                    + ". Start or repair BoundlessService, or remove the service for dev-mode tray startup."@,
        }
    }

    /// The error in words.
    pub fn message(&self) -> (r: String)
        ensures
            r@ == self.text(),
    {
        match self {
            DaemonStartError::NotAllowed { endpoint } => text::cat3(
                "daemon is not reachable at ",
                endpoint.as_str(),
                "; run boundlessd or pass --start-daemon",
            ),
            DaemonStartError::ServiceUnreachable { endpoint, error } => text::cat5(
                "BoundlessService is running but the tray cannot reach the service pipe at ",
                endpoint.as_str(),
                ": ",
                error.as_str(),
                ". Do not start a separate per-user boundlessd.exe. Restart BoundlessService, repair the install, or verify the MSI allowed-user SID.",
            ),
            DaemonStartError::ServiceNotRunning { state, endpoint, error } => {
                let mut out = text::cat5(
                    "BoundlessService is installed but not running (state=",
                    state.as_str(),
                    ") and the tray cannot reach ",
                    endpoint.as_str(),
                    ": ",
                );
                out.append(error.as_str());
                out.append(
                    ". Start BoundlessService or repair the install; do not start a separate per-user boundlessd.exe.",
                );
                out
            },
            DaemonStartError::ServiceUnknown { endpoint, error } => text::cat5(
                "could not determine whether BoundlessService is installed before starting a local daemon for ",
                endpoint.as_str(),
                ": ",
                error.as_str(),
                ". Start or repair BoundlessService, or remove the service for dev-mode tray startup.",
            ),
        }
    }
}

/// The name of an installed service's state.
pub open spec fn installed_state_text(state: BoundlessServiceState) -> Seq<char> {
    match state {
        BoundlessServiceState::StartPending => "StartPending"@,
        BoundlessServiceState::Stopped => "Stopped"@,
        BoundlessServiceState::Installed { state } => state@,
        _ => ""@,
    }
}

/// Decides what to do about a daemon that cannot be reached, given the state of
/// the service where the daemon is to be behind its pipe: a daemon of one's own
/// is never started beside an installed service.
pub fn ensure_daemon_available(
    endpoint: &str,
    start_daemon: bool,
    named_pipe_endpoint: bool,
    access_denied: bool,
    state: BoundlessServiceState,
    initial_error: &str,
) -> (r: Result<DaemonStartPlan, DaemonStartError>)
    ensures
        r is Ok <==> start_daemon && (named_pipe_endpoint ==> state is Missing),
        r is Ok ==> r->Ok_0 == (if named_pipe_endpoint && access_denied {
            DaemonStartPlan::RecoverStalePipe
        } else {
            DaemonStartPlan::Spawn
        }),
        r is Err ==> match r->Err_0 {
            DaemonStartError::NotAllowed { endpoint: at } => !start_daemon && at@ == endpoint@,
            DaemonStartError::ServiceUnreachable { endpoint: at, error } => start_daemon
                && state is Running && at@ == endpoint@ && error@ == initial_error@,
            DaemonStartError::ServiceNotRunning { state: named, endpoint: at, error } => {
                &&& start_daemon
                &&& state is StartPending || state is Stopped || state is Installed
                &&& named@ == installed_state_text(state)
                &&& at@ == endpoint@ && error@ == initial_error@
            },
            DaemonStartError::ServiceUnknown { endpoint: at, error } => {
                &&& start_daemon
                &&& state is QueryFailed && error@ == state->QueryFailed_0@
                &&& at@ == endpoint@
            },
        },
{
    if !start_daemon {
        return Err(DaemonStartError::NotAllowed { endpoint: text::owned(endpoint) });
    }
    if named_pipe_endpoint {
        match state {
            BoundlessServiceState::Missing => {},
            BoundlessServiceState::Running => {
                return Err(
                    DaemonStartError::ServiceUnreachable {
                        endpoint: text::owned(endpoint),
                        error: text::owned(initial_error),
                    },
                );
            },
            BoundlessServiceState::QueryFailed(error) => {
                return Err(
                    DaemonStartError::ServiceUnknown { endpoint: text::owned(endpoint), error },
                );
            },
            BoundlessServiceState::StartPending => {
                return Err(
                    DaemonStartError::ServiceNotRunning {
                        state: text::owned("StartPending"),
                        endpoint: text::owned(endpoint),
                        error: text::owned(initial_error),
                    },
                );
            },
            BoundlessServiceState::Stopped => {
                return Err(
                    DaemonStartError::ServiceNotRunning {
                        state: text::owned("Stopped"),
                        endpoint: text::owned(endpoint),
                        error: text::owned(initial_error),
                    },
                );
            },
            BoundlessServiceState::Installed { state } => {
                return Err(
                    DaemonStartError::ServiceNotRunning {
                        state,
                        endpoint: text::owned(endpoint),
                        error: text::owned(initial_error),
                    },
                );
            },
        }
        if access_denied {
            return Ok(DaemonStartPlan::RecoverStalePipe);
        }
    }
    Ok(DaemonStartPlan::Spawn)
}

/// What is reported after a daemon was started in place of a stale one.
pub fn stale_pipe_recovery_message(launched: &str) -> (r: String)
    ensures
        r@ == launched@ + " (after clearing stale boundlessd.exe named-pipe owner)"@,
{
    text::cat2(launched, " (after clearing stale boundlessd.exe named-pipe owner)")
}

/// What a wait for a started daemon does next.
#[derive(Debug)]
pub enum DaemonWaitStep {
    Ready,
    KeepWaiting,
    Failed(String),
}

/// One look at a daemon that is awaited after `context`; `late` says that the
/// time for it is up.
pub fn wait_for_daemon_ready(
    endpoint: &str,
    context: &str,
    connection: Result<(), String>,
    late: bool,
) -> (r: DaemonWaitStep)
    ensures
        match connection {
            Ok(_) => r == DaemonWaitStep::Ready,
            Err(error) => if late {
                r matches DaemonWaitStep::Failed(message) && message@
                    == "daemon did not become reachable at "@ + endpoint@ + " after "@ + context@
                    + ": "@ + error@
            } else {
                r == DaemonWaitStep::KeepWaiting
            },
        },
{
    match connection {
        Ok(_) => DaemonWaitStep::Ready,
        Err(error) => {
            if late {
                let mut message = text::cat5(
                    "daemon did not become reachable at ",
                    endpoint,
                    " after ",
                    context,
                    ": ",
                );
                message.append(error.as_str());
                DaemonWaitStep::Failed(message)
            } else {
                DaemonWaitStep::KeepWaiting
            }
        },
    }
}

/// What a recovery from a stale owner of the pipe does, once that owner was looked
/// for.
#[derive(Debug)]
pub enum StalePipeStep {
    /// The daemon is there after all.
    Reachable { launched: String },
    /// Start a daemon and wait for it; errors name the recovery by `context`.
    Spawn { context: String },
}

/// Decides on a recovery from a stale owner of the pipe, by whether the daemon can be
/// reached now and whether there was an owner to end.
pub fn recover_stale_named_pipe_owner(reachable: bool, terminated: bool) -> (r: StalePipeStep)
    ensures
        reachable ==> (r matches StalePipeStep::Reachable { launched } && launched@
            == "existing daemon became reachable after stale-process cleanup"@),
        !reachable ==> (r matches StalePipeStep::Spawn { context } && context@ == (if terminated {
            "stale-daemon recovery"@
        } else {
            "named-pipe recovery"@
        })),
{
    if reachable {
        StalePipeStep::Reachable {
            launched: text::owned("existing daemon became reachable after stale-process cleanup"),
        }
    } else if terminated {
        StalePipeStep::Spawn { context: text::owned("stale-daemon recovery") }
    } else {
        StalePipeStep::Spawn { context: text::owned("named-pipe recovery") }
    }
}

/// What is reported once the service and its pipe are up.
pub fn service_recovered_message() -> (r: String)
    ensures
        r@ == "BoundlessService is running and the Boundless control pipe is ready"@,
{
    text::owned("BoundlessService is running and the Boundless control pipe is ready")
}

/// The states of the service that the tray knows, by what the manager says.
pub proof fn law_service_states_are_told_apart(state: ServiceState)
    ensures
        mapped_state(state) is Running <==> state is Running,
        mapped_state(state) is StartPending <==> state is StartPending,
        mapped_state(state) is Stopped <==> state is Stopped,
        mapped_state(ServiceState::StopPending) == ServiceView::Installed("StopPending"@),
        mapped_state(ServiceState::ContinuePending) == ServiceView::Installed("ContinuePending"@),
        mapped_state(ServiceState::PausePending) == ServiceView::Installed("PausePending"@),
        mapped_state(ServiceState::Paused) == ServiceView::Installed("Paused"@),
{
}

/// A query finds the service missing only where the manager says that there is none;
/// every other failure is told with what was being done.
pub proof fn law_service_query_is_told(query: ServiceQuery)
    ensures
        queried_state(query) is Missing <==> query is OpenFailed && query->code == Some(1060i32),
        query matches ServiceQuery::Status(state) ==> queried_state(query) == mapped_state(state),
        query matches ServiceQuery::ManagerFailed(message) ==> queried_state(query)
            == ServiceView::QueryFailed("open Windows Service Control Manager: "@ + message@),
        query matches ServiceQuery::OpenFailed { code, message } ==> code != Some(1060i32)
            ==> queried_state(query) == ServiceView::QueryFailed(
            "open BoundlessService for status query: "@ + message@,
        ),
        query matches ServiceQuery::StatusFailed(message) ==> queried_state(query)
            == ServiceView::QueryFailed("query BoundlessService status: "@ + message@),
{
}

/// The first line on the state decides on it; without one nothing is told.
pub proof fn law_first_state_line_decides(lines: Seq<Seq<char>>, at: int)
    requires
        0 <= at <= lines.len(),
        at < lines.len() ==> is_state_line(lines[at]),
        forall|i: int| 0 <= i < at ==> !is_state_line(#[trigger] lines[i]),
    ensures
        at < lines.len() ==> told_state(lines) == Some(state_line_state(lines[at])),
        at == lines.len() ==> told_state(lines) is None,
    decreases lines.len(),
{
    if lines.len() > 0 {
        let front = lines.drop_last();
        assert forall|i: int| 0 <= i < at && i < front.len() implies !is_state_line(
            #[trigger] front[i],
        ) by {
            assert(front[i] == lines[i]);
        }
        if at < front.len() {
            assert(front[at] == lines[at]);
            law_first_state_line_decides(front, at);
        } else {
            law_first_state_line_decides(front, front.len() as int);
            assert(lines[lines.len() - 1] == lines.last());
        }
    }
}

/// A line on the state begins with `STATE`, white space aside. It says that the service
/// runs by the word `RUNNING`; else what follows its first colon is the state.
pub proof fn law_state_lines_are_read(line: Seq<char>, name: Seq<char>, value: Seq<char>)
    ensures
        is_state_line(line) <==> text::trimmed(line).len() >= 5 && text::trimmed(line).take(5)
            == seq!['S', 'T', 'A', 'T', 'E'],
        state_line_state(line) is Running <==> text::occurs(text::trimmed(line), "RUNNING"@),
        !(state_line_state(line) is Running) ==> state_line_state(line) == ServiceView::Installed(
            state_line_value(line),
        ),
        text::trimmed(line) == name + seq![':'] + value && !name.contains(':') ==> {
            &&& text::trimmed(value).len() > 0 ==> state_line_value(line) == text::trimmed(value)
            &&& text::trimmed(value).len() == 0 ==> state_line_value(line) == "unknown"@
        },
        !text::trimmed(line).contains(':') ==> state_line_value(line) == "unknown"@,
{
    let t = text::trimmed(line);
    reveal_strlit("STATE");
    assert("STATE"@ =~= seq!['S', 'T', 'A', 'T', 'E']);
    if t.len() >= 5 {
        assert(t.subrange(0, 5) =~= t.take(5));
    }
    crate::text_laws::law_places_of_a_character(t, ':');
    if t == name + seq![':'] + value && !name.contains(':') {
        let n = name.len() as int;
        assert(t[n] == ':');
        assert(t.contains(':'));
        let at = text::char_at(t, ':')->0;
        if at < n {
            assert(name[at] == ':');
        } else if at > n {
            assert(t[n] != ':');
        }
        assert(t.skip(n + 1) =~= value);
    }
}

/// The service is missing where either output says so; else its state line decides, and
/// without one the exit of the query.
pub proof fn law_service_state_is_read_from_output(
    success: bool,
    stdout: Seq<char>,
    stderr: Seq<char>,
)
    ensures
        ({
            let all = text::lowered(stdout + seq!['\n'] + stderr);
            let told = told_state(text::pieces(stdout, '\n'));
            let state = parsed_service_state(success, stdout, stderr);
            let missing = text::occurs(all, "failed 1060"@) || text::occurs(all, "does not exist"@);
            &&& missing ==> state is Missing
            &&& !missing && told is Some ==> state == told->0
            &&& !missing && told is None && success ==> state == ServiceView::Installed("unknown"@)
            &&& !missing && told is None && !success ==> state == ServiceView::QueryFailed(
                text::trimmed(stdout + seq!['\n'] + stderr),
            )
        }),
{
    reveal_strlit("\n");
    assert("\n"@ =~= seq!['\n']);
}

/// The time limits and the codes of the manager that the tray acts on.
pub proof fn law_service_limits()
    ensures
        SERVICE_START_TIMEOUT_SECS == 15,
        ELEVATED_HELPER_TIMEOUT_SECS == 20,
        ERROR_ACCESS_DENIED_CODE == 5,
        ERROR_SERVICE_ALREADY_RUNNING_CODE == 1056,
        ERROR_SERVICE_DOES_NOT_EXIST_CODE == 1060,
{
}

/// An installed service is shown by the name of its state.
pub proof fn law_installed_states_are_named(state: BoundlessServiceState)
    ensures
        state matches BoundlessServiceState::Installed { state: name } ==> installed_state_text(
            state,
        ) == name@,
        installed_state_text(BoundlessServiceState::StartPending) == "StartPending"@,
        installed_state_text(BoundlessServiceState::Stopped) == "Stopped"@,
        state is Missing || state is Running || state is QueryFailed ==> installed_state_text(
            state,
        ).len() == 0,
{
    reveal_strlit("");
}

} // verus!

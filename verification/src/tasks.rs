//! What the background's work came to, as messages for the dashboard.

use crate::dashboard::AppMsg;
use crate::text;
use crate::transfers::{queued_files_message, queued_text};
use vstd::prelude::*;

verus! {

/// The outcome of an action, as it is.
pub fn action_message(outcome: Result<String, String>) -> (r: AppMsg)
    ensures
        r == (match outcome {
            Ok(message) => AppMsg::ActionComplete(message),
            Err(error) => AppMsg::ActionFailed(error),
        }),
{
    match outcome {
        Ok(message) => AppMsg::ActionComplete(message),
        Err(error) => AppMsg::ActionFailed(error),
    }
}

/// The daemon's answer to a request for a change.
#[derive(Debug)]
pub struct DaemonReply {
    pub ok: bool,
    pub message: String,
}

/// What the daemon's answer comes to: its text, as a report or as an error.
pub fn daemon_reply(reply: DaemonReply) -> (r: Result<String, String>)
    ensures
        r == (if reply.ok {
            Ok::<String, String>(reply.message)
        } else {
            Err::<String, String>(reply.message)
        }),
{
    if reply.ok {
        Ok(reply.message)
    } else {
        Err(reply.message)
    }
}

/// What comes next when several files are sent.
#[derive(Debug)]
pub enum SendFilesStep {
    /// Hand the file with this number over.
    Send(usize),
    Done(Result<String, String>),
}

/// Begins to send `total` files.
pub fn send_files_to_peer(total: usize) -> (r: SendFilesStep)
    ensures
        total > 0 ==> r == SendFilesStep::Send(0),
        total == 0 ==> {
            &&& r matches SendFilesStep::Done(Ok(message))
            &&& message@ == queued_text(0)
        },
{
    if total == 0 {
        SendFilesStep::Done(Ok(queued_files_message(total)))
    } else {
        SendFilesStep::Send(0)
    }
}

/// The file with the number `at` was handed over: the next one follows, and once
/// all are, the report. A file that the daemon refuses, or that does not reach it,
/// ends it.
pub fn file_handed_over(total: usize, at: usize, reply: Result<DaemonReply, String>) -> (r:
    SendFilesStep)
    requires
        at < total,
    ensures
        match reply {
            Err(error) => r == SendFilesStep::Done(Err(error)),
            Ok(reply) => if !reply.ok {
                r == SendFilesStep::Done(Err(reply.message))
            } else if at + 1 < total {
                r == SendFilesStep::Send((at + 1) as usize)
            } else {
                &&& r matches SendFilesStep::Done(Ok(message))
                &&& message@ == queued_text(total as nat)
            },
        },
{
    match reply {
        Err(error) => SendFilesStep::Done(Err(error)),
        Ok(reply) => {
            if let Err(message) = daemon_reply(reply) {
                return SendFilesStep::Done(Err(message));
            }
            if at + 1 < total {
                SendFilesStep::Send(at + 1)
            } else {
                SendFilesStep::Done(Ok(queued_files_message(total)))
            }
        },
    }
}

/// The outcome of applying a layout.
pub fn layout_message(outcome: Result<String, String>) -> (r: AppMsg)
    ensures
        match outcome {
            Ok(message) => r == AppMsg::ActionComplete(message),
            Err(error) => r matches AppMsg::ActionFailed(text) && text@ == "Layout failed: "@
                + error@,
        },
{
    match outcome {
        Ok(message) => AppMsg::ActionComplete(message),
        Err(error) => AppMsg::ActionFailed(text::cat2("Layout failed: ", error.as_str())),
    }
}

pub open spec fn sharing_failure_note() -> Seq<char> {
    ". The local tray capture remains paused; a separate daemon needs to be reachable before its capture can be stopped."@
}

/// The outcome of switching the sharing of input.
pub fn input_sharing_message(enabled: bool, outcome: Result<(), String>) -> (r: AppMsg)
    ensures
        match outcome {
            Ok(_) => r == AppMsg::InputSharingComplete(enabled),
            Err(error) => r matches AppMsg::InputSharingFailed(text) && text@
                == "Could not update input sharing: "@ + error@ + sharing_failure_note(),
        },
{
    match outcome {
        Ok(_) => AppMsg::InputSharingComplete(enabled),
        Err(error) => AppMsg::InputSharingFailed(
            text::cat3(
                "Could not update input sharing: ",
                error.as_str(),
                ". The local tray capture remains paused; a separate daemon needs to be reachable before its capture can be stopped.",
            ),
        ),
    }
}

/// Where a report was saved.
#[derive(Debug)]
pub struct SavedReport {
    pub bundle_path: String,
    pub manifest_path: String,
}

/// The outcome of saving a report.
pub fn support_export_message(outcome: Result<SavedReport, String>) -> (r: AppMsg)
    ensures
        r matches AppMsg::SupportExportComplete(text) && text@ == (match outcome {
            Ok(saved) => "Saved report: "@ + saved.bundle_path@ + "\nRedaction manifest: "@
                + saved.manifest_path@,
            Err(error) => "Report could not be saved: "@ + error@
                + ". Restore the background runtime and retry."@,
        }),
{
    match outcome {
        Ok(saved) => {
            let first = text::cat2("Saved report: ", saved.bundle_path.as_str());
            AppMsg::SupportExportComplete(
                text::cat3(
                    first.as_str(),
                    "\nRedaction manifest: ",
                    saved.manifest_path.as_str(),
                ),
            )
        },
        Err(error) => AppMsg::SupportExportComplete(
            text::cat3(
                "Report could not be saved: ",
                error.as_str(),
                ". Restore the background runtime and retry.",
            ),
        ),
    }
}

/// The outcome of recovering the service.
pub fn service_recovery_message(outcome: Result<String, String>) -> (r: AppMsg)
    ensures
        match outcome {
            Ok(message) => r == AppMsg::ServiceRecoveryComplete(message),
            Err(error) => r matches AppMsg::ServiceRecoveryFailed(text) && text@
                == "Could not start BoundlessService: "@ + error@,
        },
{
    match outcome {
        Ok(message) => AppMsg::ServiceRecoveryComplete(message),
        Err(error) => AppMsg::ServiceRecoveryFailed(
            text::cat2("Could not start BoundlessService: ", error.as_str()),
        ),
    }
}

/// The outcome of opening the folder that files are received in.
pub fn receive_folder_message(receive_dir: &str, outcome: Result<(), String>) -> (r: AppMsg)
    ensures
        match outcome {
            Ok(_) => r matches AppMsg::ActionComplete(text) && text@ == "Opened receive folder: "@
                + receive_dir@,
            Err(error) => r matches AppMsg::ActionFailed(text) && text@
                == "Failed to open receive folder: "@ + error@,
        },
{
    match outcome {
        Ok(_) => AppMsg::ActionComplete(text::cat2("Opened receive folder: ", receive_dir)),
        Err(error) => AppMsg::ActionFailed(
            text::cat2("Failed to open receive folder: ", error.as_str()),
        ),
    }
}

/// The outcome of showing where a received file lies.
pub fn file_location_message(outcome: Result<(), String>) -> (r: AppMsg)
    ensures
        match outcome {
            Ok(_) => r matches AppMsg::ActionComplete(text) && text@
                == "Opened received file location"@,
            Err(error) => r matches AppMsg::ActionFailed(text) && text@
                == "Failed to open received file location: "@ + error@,
        },
{
    match outcome {
        Ok(_) => AppMsg::ActionComplete(text::owned("Opened received file location")),
        Err(error) => AppMsg::ActionFailed(
            text::cat2("Failed to open received file location: ", error.as_str()),
        ),
    }
}

} // verus!

//! A pairing that the user is led through, from the request to the code.

use crate::pairing::{
    advice_text, entered_alias, format_error_for_dialog, retry_may_help, same_flow,
    should_offer_new_request_retry, validate_pairing_code, GuidedPairingFlow, GuidedPairingResult,
    NearbyRequestCodeStart, PairingChallengeState, PairingInputError, PairingSubmitResult,
};
use crate::text;
use crate::ui::{short_text, short_token};
use vstd::prelude::*;

verus! {

/// The way out of a failed pairing in which the other machine asks instead.
#[derive(Debug)]
pub struct RoleReversalOffer {
    pub attempt_id: String,
    pub next_action: String,
}

/// What the background reports of a pairing attempt.
#[derive(Debug)]
pub enum PairingMsg {
    Challenge(PairingChallengeState),
    Complete(GuidedPairingResult),
    Failed { error: String, role_reversal: Option<RoleReversalOffer> },
}

/// A code that is to be submitted, with the pairing it belongs to.
#[derive(Debug)]
pub struct SubmitPairingCode {
    pub attempt_id: u64,
    pub challenge: PairingChallengeState,
    pub flow: GuidedPairingFlow,
    pub code: String,
    pub alias: Option<String>,
}

/// A pairing in which the other machine is to ask.
#[derive(Debug)]
pub struct RoleReversalPairing {
    pub attempt_id: u64,
    pub flow: GuidedPairingFlow,
    pub code: String,
    pub alias: Option<String>,
    pub role_reversal_attempt_id: String,
}

/// The pairing dialog's state.
#[derive(Debug)]
pub struct PairingSession {
    pub flow: Option<GuidedPairingFlow>,
    pub challenge: Option<PairingChallengeState>,
    pub code: String,
    pub alias: String,
    pub in_progress: bool,
    pub attempt_seq: u64,
    pub active_attempt_id: Option<u64>,
    pub last_error: Option<String>,
    pub retry_available: bool,
    pub role_reversal_available: bool,
    pub role_reversal_attempt_id: Option<String>,
    pub role_reversal_message: Option<String>,
    /// The last word on pairing, and whether it reports an error.
    pub banner: Option<String>,
    pub banner_is_error: bool,
}

pub open spec fn text_of(s: Option<String>) -> Option<Seq<char>> {
    match s {
        Some(text) => Some(text@),
        None => None,
    }
}

/// The alias as it is passed on: nothing, where it is blank.
pub open spec fn alias_text(alias: Seq<char>) -> Option<Seq<char>> {
    if text::trimmed(alias).len() > 0 {
        Some(alias)
    } else {
        None
    }
}

impl PairingSession {
    /// Nothing was paired, asked for or typed yet.
    pub open spec fn fresh(self) -> bool {
        &&& self.flow is None && self.challenge is None && !self.in_progress
        &&& self.code@.len() == 0 && self.alias@.len() == 0
        &&& self.attempt_seq == 0 && self.active_attempt_id is None
        &&& self.last_error is None && !self.retry_available
        &&& !self.role_reversal_available && self.role_reversal_attempt_id is None
        &&& self.role_reversal_message is None
        &&& self.banner is None && !self.banner_is_error
    }

    pub fn new() -> (r: PairingSession)
        ensures
            r.fresh(),
    {
        PairingSession {
            flow: None,
            challenge: None,
            code: String::new(),
            alias: String::new(),
            in_progress: false,
            attempt_seq: 0,
            active_attempt_id: None,
            last_error: None,
            retry_available: false,
            role_reversal_available: false,
            role_reversal_attempt_id: None,
            role_reversal_message: None,
            banner: None,
            banner_is_error: false,
        }
    }

    /// `next` begins a pairing: whatever belonged to an earlier attempt is gone,
    /// and only messages of the new attempt count from now on.
    pub open spec fn begun(self, flow: GuidedPairingFlow, next: PairingSession) -> bool {
        let attempt_id = if self.attempt_seq < u64::MAX {
            (self.attempt_seq + 1) as u64
        } else {
            u64::MAX
        };
        &&& next == (PairingSession {
            attempt_seq: attempt_id,
            active_attempt_id: Some(attempt_id),
            in_progress: true,
            flow: Some(flow),
            challenge: None,
            code: next.code,
            alias: next.alias,
            last_error: None,
            banner: None,
            retry_available: false,
            role_reversal_available: false,
            role_reversal_attempt_id: None,
            role_reversal_message: None,
            ..self
        })
        &&& next.code@.len() == 0
        &&& next.alias@ == flow.default_alias@
    }

    /// Begins a pairing: the number of the attempt.
    pub fn begin_pairing_flow(&mut self, flow: GuidedPairingFlow) -> (r: u64)
        ensures
            old(self).begun(flow, *final(self)),
            r == final(self).attempt_seq,
    {
        self.attempt_seq = self.attempt_seq.saturating_add(1);
        let attempt_id = self.attempt_seq;
        self.in_progress = true;
        self.challenge = None;
        self.code = String::new();
        self.alias = flow.default_alias.clone();
        self.flow = Some(flow);
        self.last_error = None;
        self.banner = None;
        self.retry_available = false;
        self.role_reversal_available = false;
        self.role_reversal_attempt_id = None;
        self.role_reversal_message = None;
        self.active_attempt_id = Some(attempt_id);
        attempt_id
    }

    /// No pairing is going on, and no message of one counts.
    pub open spec fn cancelled(self) -> PairingSession {
        PairingSession {
            in_progress: false,
            challenge: None,
            flow: None,
            retry_available: false,
            role_reversal_available: false,
            role_reversal_attempt_id: None,
            role_reversal_message: None,
            active_attempt_id: None,
            ..self
        }
    }

    /// Ends a pairing.
    pub fn cancel_pairing_flow(&mut self)
        ensures
            *final(self) == old(self).cancelled(),
    {
        self.in_progress = false;
        self.challenge = None;
        self.flow = None;
        self.retry_available = false;
        self.role_reversal_available = false;
        self.role_reversal_attempt_id = None;
        self.role_reversal_message = None;
        self.active_attempt_id = None;
    }

    /// The user has read why the pairing failed.
    pub fn dismiss_error(&mut self)
        ensures
            *final(self) == (PairingSession {
                last_error: None,
                retry_available: false,
                role_reversal_message: None,
                ..*old(self)
            }),
    {
        self.last_error = None;
        self.retry_available = false;
        self.role_reversal_message = None;
    }

    /// A message of the attempt `attempt_id` counts.
    pub open spec fn listens_to(&self, attempt_id: u64) -> bool {
        self.active_attempt_id == Some(attempt_id)
    }

    pub fn is_active_attempt(&self, attempt_id: u64) -> (r: bool)
        ensures
            r == self.listens_to(attempt_id),
    {
        match self.active_attempt_id {
            Some(active) => active == attempt_id,
            None => false,
        }
    }

    /// `next` has paired.
    pub open spec fn completed(self, result: GuidedPairingResult, next: PairingSession) -> bool {
        &&& next == (PairingSession {
            last_error: None,
            banner: next.banner,
            banner_is_error: false,
            ..self.cancelled()
        })
        &&& text_of(next.banner) == Some(
            "Pairing successful with "@ + short_text(result.peer_machine_id@) + " (selector: "@
                + result.orientation_selector@ + ")"@,
        )
    }

    /// The other machine can ask instead: it was offered, and its address is known.
    pub open spec fn reversible(self, role_reversal: Option<RoleReversalOffer>) -> bool {
        role_reversal is Some && self.flow is Some && text::trimmed(self.flow->0.host@).len() > 0
    }

    /// `next` has failed to pair; the pairing can be gone on with.
    pub open spec fn failed(
        self,
        error: Seq<char>,
        role_reversal: Option<RoleReversalOffer>,
        next: PairingSession,
    ) -> bool {
        let offered = self.reversible(role_reversal);
        &&& next == (PairingSession {
            in_progress: false,
            last_error: next.last_error,
            banner: next.banner,
            banner_is_error: true,
            retry_available: retry_may_help(error),
            role_reversal_available: offered,
            role_reversal_attempt_id: if offered {
                Some(role_reversal->0.attempt_id)
            } else {
                None
            },
            role_reversal_message: if offered {
                Some(role_reversal->0.next_action)
            } else {
                None
            },
            ..self
        })
        &&& text_of(next.last_error) == Some(error + advice_text(error))
        &&& text_of(next.banner) == Some(error + advice_text(error))
    }

    /// What a message of the attempt `attempt_id` changes.
    pub open spec fn told(
        self,
        attempt_id: u64,
        msg: PairingMsg,
        next: PairingSession,
    ) -> bool {
        if !self.listens_to(attempt_id) {
            next == self
        } else {
            match msg {
                PairingMsg::Challenge(challenge) => next == (PairingSession {
                    in_progress: false,
                    challenge: Some(challenge),
                    ..self
                }),
                PairingMsg::Complete(result) => self.completed(result, next),
                PairingMsg::Failed { error, role_reversal } => self.failed(
                    error@,
                    role_reversal,
                    next,
                ),
            }
        }
    }

    /// Takes a message of the attempt `attempt_id`: what was paired, if that is
    /// what it says. A message of another attempt than the active one is ignored.
    pub fn apply_pairing_msg(&mut self, attempt_id: u64, msg: PairingMsg) -> (r: Option<
        GuidedPairingResult,
    >)
        ensures
            old(self).told(attempt_id, msg, *final(self)),
            r == (match msg {
                PairingMsg::Complete(result) => if old(self).listens_to(attempt_id) {
                    Some(result)
                } else {
                    None
                },
                _ => None,
            }),
    {
        if !self.is_active_attempt(attempt_id) {
            return None;
        }
        match msg {
            PairingMsg::Challenge(challenge) => {
                self.in_progress = false;
                self.challenge = Some(challenge);
                None
            },
            PairingMsg::Complete(result) => {
                let banner = text::cat5(
                    "Pairing successful with ",
                    short_token(result.peer_machine_id.as_str()),
                    " (selector: ",
                    result.orientation_selector.as_str(),
                    ")",
                );
                self.cancel_pairing_flow();
                self.last_error = None;
                self.banner = Some(banner);
                self.banner_is_error = false;
                Some(result)
            },
            PairingMsg::Failed { error, role_reversal } => {
                self.in_progress = false;
                self.last_error = Some(format_error_for_dialog(error.as_str()));
                self.banner = Some(format_error_for_dialog(error.as_str()));
                self.banner_is_error = true;
                self.retry_available = should_offer_new_request_retry(error.as_str());
                let host_known = match &self.flow {
                    Some(flow) => !text::trim(flow.host.as_str()).as_str().is_empty(),
                    None => false,
                };
                self.role_reversal_available = false;
                self.role_reversal_attempt_id = None;
                self.role_reversal_message = None;
                if host_known {
                    if let Some(offer) = role_reversal {
                        self.role_reversal_available = true;
                        self.role_reversal_attempt_id = Some(offer.attempt_id);
                        self.role_reversal_message = Some(offer.next_action);
                    }
                }
                None
            },
        }
    }

    /// `next` says that the code is blank.
    pub open spec fn code_refused(self, next: PairingSession) -> bool {
        &&& next == (PairingSession {
            last_error: next.last_error,
            banner: next.banner,
            banner_is_error: true,
            ..self
        })
        &&& text_of(next.last_error) == Some("pairing code cannot be empty"@)
        &&& text_of(next.banner) == Some("pairing code cannot be empty"@)
    }

    fn refuse_code(&mut self, error: PairingInputError)
        requires
            error == PairingInputError::EmptyCode,
        ensures
            old(self).code_refused(*final(self)),
    {
        self.last_error = Some(error.message());
        self.banner = Some(error.message());
        self.banner_is_error = true;
    }

    /// The user has entered the code: what is to be submitted. A blank code is
    /// refused, and the pairing goes on.
    pub fn confirm_pairing_code(&mut self) -> (r: Option<SubmitPairingCode>)
        ensures
            text::trimmed(old(self).code@).len() == 0 ==> r is None && old(self).code_refused(
                *final(self),
            ),
            text::trimmed(old(self).code@).len() > 0 ==> {
                let going_on = old(self).challenge is Some && old(self).flow is Some && old(
                    self,
                ).active_attempt_id is Some;
                &&& r is Some <==> going_on
                &&& !going_on ==> *final(self) == *old(self)
                &&& going_on ==> *final(self) == (PairingSession { in_progress: true, ..*old(self) })
            },
            r matches Some(submit) ==> {
                &&& Some(submit.attempt_id) == old(self).active_attempt_id
                &&& Some(submit.challenge) == old(self).challenge
                &&& same_flow(submit.flow, old(self).flow->0)
                &&& submit.code@ == old(self).code@
                &&& text_of(submit.alias) == alias_text(old(self).alias@)
            },
    {
        if let Err(error) = validate_pairing_code(self.code.as_str()) {
            self.refuse_code(error);
            return None;
        }
        let submit = match (&self.challenge, &self.flow, self.active_attempt_id) {
            (Some(challenge), Some(flow), Some(attempt_id)) => SubmitPairingCode {
                attempt_id,
                challenge: challenge.clone(),
                flow: flow.clone(),
                code: self.code.clone(),
                alias: entered_alias(&self.alias),
            },
            _ => {
                return None;
            },
        };
        self.in_progress = true;
        Some(submit)
    }

    /// The user lets the other machine ask instead: what is to be started. The
    /// text that says what comes next is shown meanwhile.
    pub fn start_role_reversal_pairing(&mut self, next_action: String) -> (r: Option<
        RoleReversalPairing,
    >)
        ensures
            text::trimmed(old(self).code@).len() == 0 ==> r is None && *final(self) == (
            PairingSession { last_error: final(self).last_error, ..*old(self) }) && text_of(
                final(self).last_error,
            ) == Some("pairing code cannot be empty"@),
            text::trimmed(old(self).code@).len() > 0 ==> {
                let possible = old(self).flow is Some && old(self).active_attempt_id is Some && old(
                    self,
                ).role_reversal_attempt_id is Some;
                &&& r is Some <==> possible
                &&& !possible ==> *final(self) == *old(self)
                &&& possible ==> *final(self) == (PairingSession {
                    in_progress: true,
                    last_error: Some(next_action),
                    ..*old(self)
                })
            },
            r matches Some(start) ==> {
                &&& Some(start.attempt_id) == old(self).active_attempt_id
                &&& same_flow(start.flow, old(self).flow->0)
                &&& start.code@ == old(self).code@
                &&& text_of(start.alias) == alias_text(old(self).alias@)
                &&& Some(start.role_reversal_attempt_id) == old(self).role_reversal_attempt_id
            },
    {
        if let Err(error) = validate_pairing_code(self.code.as_str()) {
            self.last_error = Some(error.message());
            return None;
        }
        let start = match (&self.flow, self.active_attempt_id, &self.role_reversal_attempt_id) {
            (Some(flow), Some(attempt_id), Some(role_reversal_attempt_id)) => RoleReversalPairing {
                attempt_id,
                flow: flow.clone(),
                code: self.code.clone(),
                alias: entered_alias(&self.alias),
                role_reversal_attempt_id: role_reversal_attempt_id.clone(),
            },
            _ => {
                return None;
            },
        };
        self.in_progress = true;
        self.last_error = Some(next_action);
        Some(start)
    }
}

/// What the dialog shows.
#[derive(Debug, Clone, Copy, PartialEq, Eq, Structural)]
pub enum PairingDialog {
    Hidden,
    Requesting,
    Failure,
    EnterCode,
}

impl PairingSession {
    pub open spec fn shown_dialog(self) -> PairingDialog {
        if self.challenge is Some {
            PairingDialog::EnterCode
        } else if self.in_progress {
            PairingDialog::Requesting
        } else if self.flow is Some && self.last_error is Some {
            PairingDialog::Failure
        } else {
            PairingDialog::Hidden
        }
    }

    pub fn dialog(&self) -> (r: PairingDialog)
        ensures
            r == self.shown_dialog(),
    {
        if self.challenge.is_some() {
            PairingDialog::EnterCode
        } else if self.in_progress {
            PairingDialog::Requesting
        } else if self.flow.is_some() && self.last_error.is_some() {
            PairingDialog::Failure
        } else {
            PairingDialog::Hidden
        }
    }

    /// What the dialog is called.
    pub fn dialog_title(&self) -> (r: &str)
        ensures
            r@ == (match self.flow {
                Some(flow) => flow.dialog_title@,
                None => match self.shown_dialog() {
                    PairingDialog::EnterCode => "Enter Pairing Code"@,
                    PairingDialog::Failure => "Pairing failed"@,
                    _ => "Pairing..."@,
                },
            }),
    {
        match &self.flow {
            Some(flow) => flow.dialog_title.as_str(),
            None => match self.dialog() {
                PairingDialog::EnterCode => "Enter Pairing Code",
                PairingDialog::Failure => "Pairing failed",
                _ => "Pairing...",
            },
        }
    }
}

/// What a request for a code came to, for the dialog.
pub fn request_pairing_code_message(outcome: Result<NearbyRequestCodeStart, String>) -> (r:
    PairingMsg)
    ensures
        match outcome {
            Ok(NearbyRequestCodeStart::CodeRequired(challenge)) => r == PairingMsg::Challenge(
                challenge,
            ),
            Ok(NearbyRequestCodeStart::Unsupported { reason }) => r matches PairingMsg::Failed {
                error,
                role_reversal: None,
            } && error@ == "Target does not support guided pairing: "@ + reason@,
            Err(error) => r == (PairingMsg::Failed { error, role_reversal: None }),
        },
{
    match outcome {
        Ok(NearbyRequestCodeStart::CodeRequired(challenge)) => PairingMsg::Challenge(challenge),
        Ok(NearbyRequestCodeStart::Unsupported { reason }) => PairingMsg::Failed {
            error: text::cat2("Target does not support guided pairing: ", reason.as_str()),
            role_reversal: None,
        },
        Err(error) => PairingMsg::Failed { error, role_reversal: None },
    }
}

/// What submitting a code came to, for the dialog: the machine goes by the alias
/// that was entered, or else by the name that the flow gives it.
pub fn submit_pairing_code_message(
    alias: Option<String>,
    fallback_alias: String,
    outcome: Result<PairingSubmitResult, String>,
) -> (r: PairingMsg)
    ensures
        match outcome {
            Ok(result) => r == PairingMsg::Complete(
                GuidedPairingResult {
                    peer_machine_id: result.peer_machine_id,
                    orientation_selector: match alias {
                        Some(alias) => alias,
                        None => fallback_alias,
                    },
                },
            ),
            Err(error) => r == (PairingMsg::Failed { error, role_reversal: None }),
        },
{
    match outcome {
        Ok(result) => PairingMsg::Complete(
            GuidedPairingResult {
                peer_machine_id: result.peer_machine_id,
                orientation_selector: match alias {
                    Some(alias) => alias,
                    None => fallback_alias,
                },
            },
        ),
        Err(error) => PairingMsg::Failed { error, role_reversal: None },
    }
}

/// Messages change nothing once the pairing was cancelled, whatever attempt they
/// are of.
pub proof fn law_messages_after_cancel_change_nothing(
    session: PairingSession,
    attempt_id: u64,
    msg: PairingMsg,
    next: PairingSession,
)
    requires
        session.cancelled().told(attempt_id, msg, next),
    ensures
        next == session.cancelled(),
{
}

/// Messages of an attempt change nothing once another one has begun. (The numbers
/// of two attempts differ as long as they do not run out.)
pub proof fn law_messages_of_an_older_attempt_change_nothing(
    session: PairingSession,
    flow: GuidedPairingFlow,
    restarted: PairingSession,
    attempt_id: u64,
    msg: PairingMsg,
    next: PairingSession,
)
    requires
        session.attempt_seq < u64::MAX,
        attempt_id <= session.attempt_seq,
        session.begun(flow, restarted),
        restarted.told(attempt_id, msg, next),
    ensures
        next == restarted,
{
}

/// A pairing that failed can be gone on with: its flow and its code are kept, and
/// messages of the same attempt still count.
pub proof fn law_failed_pairing_goes_on(
    session: PairingSession,
    attempt_id: u64,
    error: String,
    role_reversal: Option<RoleReversalOffer>,
    next: PairingSession,
)
    requires
        session.listens_to(attempt_id),
        session.told(attempt_id, PairingMsg::Failed { error, role_reversal }, next),
    ensures
        next.listens_to(attempt_id),
        next.flow == session.flow,
        next.challenge == session.challenge,
        next.code == session.code,
        next.alias == session.alias,
        next.last_error is Some,
{
}

} // verus!

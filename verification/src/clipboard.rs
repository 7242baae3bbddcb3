//! The clipboard broker: local copies on their way to the daemon, remote copies
//! on their way to the local clipboard.

use crate::text;
use vstd::prelude::*;

verus! {

#[derive(Debug, PartialEq, Eq)]
pub enum ClipboardPayload {
    Text(String),
    Image(Vec<u8>),
}

pub enum PayloadView {
    Text(Seq<char>),
    Image(Seq<u8>),
}

impl View for ClipboardPayload {
    type V = PayloadView;

    open spec fn view(&self) -> PayloadView {
        match self {
            ClipboardPayload::Text(text) => PayloadView::Text(text@),
            ClipboardPayload::Image(image) => PayloadView::Image(image@),
        }
    }
}

fn copy_bytes(bytes: &Vec<u8>) -> (r: Vec<u8>)
    ensures
        r@ == bytes@,
{
    let mut out: Vec<u8> = Vec::new();
    let mut i: usize = 0;
    while i < bytes.len()
        invariant
            i <= bytes.len(),
            out@ == bytes@.take(i as int),
        decreases bytes.len() - i,
    {
        out.push(bytes[i]);
        i = i + 1;
        assert(bytes@.take(i as int) =~= bytes@.take(i - 1).push(bytes@[i - 1]));
    }
    assert(bytes@.take(i as int) =~= bytes@);
    out
}

impl Clone for ClipboardPayload {
    fn clone(&self) -> (r: ClipboardPayload)
        ensures
            r@ == self@,
    {
        match self {
            ClipboardPayload::Text(text) => ClipboardPayload::Text(text.clone()),
            ClipboardPayload::Image(image) => ClipboardPayload::Image(copy_bytes(image)),
        }
    }
}

/// How large a payload may be, in bytes.
#[derive(Debug, Clone, Copy, PartialEq, Eq, Structural)]
pub struct ClipboardPolicy {
    pub max_text_bytes: usize,
    pub max_image_bytes: usize,
}

#[derive(Debug, Clone, Copy, PartialEq, Eq, Structural)]
pub enum ClipboardPolicyError {
    TextTooLarge { bytes: usize, max_bytes: usize },
    ImageTooLarge { bytes: usize, max_bytes: usize },
}

/// How many bytes a text takes.
pub open spec fn text_bytes(text: Seq<char>) -> usize {
    vstd::utf8::encode_utf8(text).len() as usize
}

/// Why the policy refuses a payload, if it does.
pub open spec fn policy_error(policy: ClipboardPolicy, payload: PayloadView) -> Option<
    ClipboardPolicyError,
> {
    match payload {
        PayloadView::Text(text) => if text_bytes(text) > policy.max_text_bytes {
            Some(
                ClipboardPolicyError::TextTooLarge {
                    bytes: text_bytes(text),
                    max_bytes: policy.max_text_bytes,
                },
            )
        } else {
            None
        },
        PayloadView::Image(image) => if image.len() > policy.max_image_bytes {
            Some(
                ClipboardPolicyError::ImageTooLarge {
                    bytes: image.len() as usize,
                    max_bytes: policy.max_image_bytes,
                },
            )
        } else {
            None
        },
    }
}

/// Holds a payload to the size limits.
pub fn validate_payload(policy: ClipboardPolicy, payload: &ClipboardPayload) -> (r: Option<
    ClipboardPolicyError,
>)
    ensures
        r == policy_error(policy, payload@),
{
    match payload {
        ClipboardPayload::Text(text) => {
            let bytes: usize = text.as_str().len();
            if bytes > policy.max_text_bytes {
                Some(ClipboardPolicyError::TextTooLarge { bytes, max_bytes: policy.max_text_bytes })
            } else {
                None
            }
        },
        ClipboardPayload::Image(image) => {
            let bytes: usize = image.len();
            if bytes > policy.max_image_bytes {
                Some(
                    ClipboardPolicyError::ImageTooLarge { bytes, max_bytes: policy.max_image_bytes },
                )
            } else {
                None
            }
        },
    }
}

/// What came of writing a remote payload to the local clipboard.
#[derive(Debug)]
pub struct ClipboardBrokerApplyReport {
    pub source_peer_id: String,
    pub hash: String,
    pub applied: bool,
    pub message: String,
}

pub struct ApplyReportView {
    pub source_peer_id: Seq<char>,
    pub hash: Seq<char>,
    pub applied: bool,
    pub message: Seq<char>,
}

impl View for ClipboardBrokerApplyReport {
    type V = ApplyReportView;

    open spec fn view(&self) -> ApplyReportView {
        ApplyReportView {
            source_peer_id: self.source_peer_id@,
            hash: self.hash@,
            applied: self.applied,
            message: self.message@,
        }
    }
}

impl Clone for ClipboardBrokerApplyReport {
    fn clone(&self) -> (r: ClipboardBrokerApplyReport)
        ensures
            r@ == self@,
    {
        ClipboardBrokerApplyReport {
            source_peer_id: self.source_peer_id.clone(),
            hash: self.hash.clone(),
            applied: self.applied,
            message: self.message.clone(),
        }
    }
}

/// The report for the daemon on a remote payload that was to be written to the local
/// clipboard.
pub fn remote_apply_report(
    source_peer_id: String,
    hash: String,
    written: Result<(), String>,
) -> (r: ClipboardBrokerApplyReport)
    ensures
        r.source_peer_id == source_peer_id,
        r.hash == hash,
        r.applied == (written is Ok),
        match written {
            Ok(_) => r.message@.len() == 0,
            Err(error) => r.message == error,
        },
{
    match written {
        Ok(_) => ClipboardBrokerApplyReport {
            source_peer_id,
            hash,
            applied: true,
            message: String::new(),
        },
        Err(error) => ClipboardBrokerApplyReport {
            source_peer_id,
            hash,
            applied: false,
            message: error,
        },
    }
}

/// A local copy that the daemon has not taken yet.
#[derive(Debug)]
pub struct PendingLocalClipboardPayload {
    pub sequence: u64,
    pub payload: ClipboardPayload,
}

#[derive(Debug)]
pub struct ClipboardBrokerState {
    /// The sequence number that is done with.
    pub last_sequence: Option<u64>,
    pub pending_local_payload: Option<PendingLocalClipboardPayload>,
    /// A newer copy than the pending one, which could not be read yet.
    pub unread_newer_sequence: Option<u64>,
    pub apply_report: Option<ClipboardBrokerApplyReport>,
}

/// A local copy that waits to be sent.
pub struct PendingView {
    pub sequence: u64,
    pub payload: PayloadView,
}

pub struct ClipboardView {
    pub last: Option<u64>,
    pub pending: Option<PendingView>,
    pub unread: Option<u64>,
    pub report: Option<ApplyReportView>,
}

impl View for ClipboardBrokerState {
    type V = ClipboardView;

    open spec fn view(&self) -> ClipboardView {
        ClipboardView {
            last: self.last_sequence,
            pending: match self.pending_local_payload {
                Some(pending) => Some(
                    PendingView { sequence: pending.sequence, payload: pending.payload@ },
                ),
                None => None,
            },
            unread: self.unread_newer_sequence,
            report: match self.apply_report {
                Some(report) => Some(report@),
                None => None,
            },
        }
    }
}

impl ClipboardView {
    pub open spec fn should_read(self, sequence: u64) -> bool {
        &&& self.last != Some(sequence)
        &&& self.pending is Some ==> self.pending->0.sequence != sequence
    }

    /// The copy with `sequence` was read: it is empty, refused, or pending now.
    pub open spec fn staged(
        self,
        policy: ClipboardPolicy,
        sequence: u64,
        payload: Option<PayloadView>,
    ) -> ClipboardView {
        match payload {
            Some(payload) if policy_error(policy, payload) is None => ClipboardView {
                pending: Some(PendingView { sequence, payload }),
                unread: None,
                ..self
            },
            _ => ClipboardView { pending: None, last: Some(sequence), unread: None, ..self },
        }
    }

    /// The payload that the next request carries.
    pub open spec fn request_payload(self) -> Option<PayloadView> {
        if self.unread is None && self.pending is Some {
            Some(self.pending->0.payload)
        } else {
            None
        }
    }

    pub open spec fn request_sequence(self) -> Option<u64> {
        if self.unread is None && self.pending is Some {
            Some(self.pending->0.sequence)
        } else {
            None
        }
    }

    pub open spec fn consumed(self) -> ClipboardView {
        match self.pending {
            Some(pending) => ClipboardView { last: Some(pending.sequence), pending: None, ..self },
            None => self,
        }
    }
}

impl Default for ClipboardBrokerState {
    fn default() -> (r: ClipboardBrokerState)
        ensures
            r@ == (ClipboardView { last: None, pending: None, unread: None, report: None }),
    {
        ClipboardBrokerState {
            last_sequence: None,
            pending_local_payload: None,
            unread_newer_sequence: None,
            apply_report: None,
        }
    }
}

impl ClipboardBrokerState {
    /// Whether the copy with `sequence` is still to be read.
    pub fn should_read_sequence(&self, sequence: u64) -> (r: bool)
        ensures
            r == self@.should_read(sequence),
    {
        let done = match self.last_sequence {
            Some(last) => last == sequence,
            None => false,
        };
        let pending = match &self.pending_local_payload {
            Some(pending) => pending.sequence == sequence,
            None => false,
        };
        !done && !pending
    }

    /// Takes a copy that was read. What the policy refuses is done with at once,
    /// as it would be refused every time.
    pub fn stage_local_read(
        &mut self,
        policy: ClipboardPolicy,
        sequence: u64,
        payload: Option<ClipboardPayload>,
    ) -> (r: Option<ClipboardPolicyError>)
        ensures
            r == (match payload {
                Some(payload) => policy_error(policy, payload@),
                None => None,
            }),
            final(self)@ == old(self)@.staged(
                policy,
                sequence,
                match payload {
                    Some(payload) => Some(payload@),
                    None => None,
                },
            ),
    {
        self.unread_newer_sequence = None;
        match payload {
            None => {
                self.pending_local_payload = None;
                self.last_sequence = Some(sequence);
                None
            },
            Some(payload) => {
                match validate_payload(policy, &payload) {
                    Some(error) => {
                        self.pending_local_payload = None;
                        self.last_sequence = Some(sequence);
                        Some(error)
                    },
                    None => {
                        self.pending_local_payload = Some(
                            PendingLocalClipboardPayload { sequence, payload },
                        );
                        None
                    },
                }
            },
        }
    }

    /// Takes the result of reading a copy. A copy that could not be read stays
    /// to be read, and holds back an older one.
    pub fn stage_local_read_result(
        &mut self,
        policy: ClipboardPolicy,
        sequence: u64,
        result: Result<Option<ClipboardPayload>, String>,
    ) -> (r: Result<Option<ClipboardPolicyError>, String>)
        ensures
            match result {
                Ok(payload) => {
                    &&& r == Ok::<Option<ClipboardPolicyError>, String>(
                        match payload {
                            Some(payload) => policy_error(policy, payload@),
                            None => None,
                        },
                    )
                    &&& final(self)@ == old(self)@.staged(
                        policy,
                        sequence,
                        match payload {
                            Some(payload) => Some(payload@),
                            None => None,
                        },
                    )
                },
                Err(error) => {
                    &&& r == Err::<Option<ClipboardPolicyError>, String>(error)
                    &&& final(self)@ == (ClipboardView { unread: Some(sequence), ..old(self)@ })
                },
            },
    {
        match result {
            Ok(payload) => Ok(self.stage_local_read(policy, sequence, payload)),
            Err(error) => {
                self.unread_newer_sequence = Some(sequence);
                Err(error)
            },
        }
    }

    pub fn local_payload_for_request(&self) -> (r: Option<ClipboardPayload>)
        ensures
            match r {
                Some(payload) => self@.request_payload() == Some(payload@),
                None => self@.request_payload() is None,
            },
    {
        if self.unread_newer_sequence.is_some() {
            return None;
        }
        match &self.pending_local_payload {
            Some(pending) => Some(pending.payload.clone()),
            None => None,
        }
    }

    pub fn local_sequence_for_request(&self) -> (r: Option<u64>)
        ensures
            r == self@.request_sequence(),
    {
        if self.unread_newer_sequence.is_some() {
            return None;
        }
        match &self.pending_local_payload {
            Some(pending) => Some(pending.sequence),
            None => None,
        }
    }

    pub fn apply_report_for_request(&self) -> (r: Option<ClipboardBrokerApplyReport>)
        ensures
            match r {
                Some(report) => self@.report == Some(report@),
                None => self@.report is None,
            },
    {
        match &self.apply_report {
            Some(report) => Some(report.clone()),
            None => None,
        }
    }

    pub fn mark_apply_report_accepted(&mut self)
        ensures
            final(self)@ == (ClipboardView { report: None, ..old(self)@ }),
    {
        self.apply_report = None;
    }

    pub fn mark_local_payload_consumed(&mut self)
        ensures
            final(self)@ == old(self)@.consumed(),
    {
        if let Some(pending) = self.pending_local_payload.take() {
            self.last_sequence = Some(pending.sequence);
        }
    }

    pub fn stage_apply_report(&mut self, report: ClipboardBrokerApplyReport)
        ensures
            final(self)@ == (ClipboardView { report: Some(report@), ..old(self)@ }),
    {
        self.apply_report = Some(report);
    }
}

/// What the daemon did with a submitted copy.
#[derive(Debug, Clone, Copy, PartialEq, Eq, Structural)]
pub enum ClipboardBrokerLocalPayloadDisposition {
    Unspecified,
    NotSubmitted,
    Accepted,
    DeterministicRejected,
    TransientRejected,
}

/// Why an exchange is to be tried again later.
#[derive(Debug)]
pub enum ClipboardExchangeError {
    Rejected(String),
    ReadDeferred(String),
    TransientRejected(String),
    Unresolved(String),
}

impl ClipboardExchangeError {
    pub open spec fn text(self) -> Seq<char> {
        match self {
            ClipboardExchangeError::Rejected(message) => "clipboard broker exchange rejected: "@
                + message@,
            ClipboardExchangeError::ReadDeferred(error) => "local clipboard read deferred: "@
                + error@,
            ClipboardExchangeError::TransientRejected(message) =>
                "daemon transiently rejected local clipboard payload: "@ + message@,
            ClipboardExchangeError::Unresolved(message) =>
                "daemon did not resolve submitted local clipboard payload: "@ + message@,
        }
    }

    /// The error in words.
    pub fn message(&self) -> (r: String)
        ensures
            r@ == self.text(),
    {
        match self {
            ClipboardExchangeError::Rejected(message) => {
                let mut out = text::owned("clipboard broker exchange rejected: ");
                out.append(message.as_str());
                out
            },
            ClipboardExchangeError::ReadDeferred(error) => {
                let mut out = text::owned("local clipboard read deferred: ");
                out.append(error.as_str());
                out
            },
            ClipboardExchangeError::TransientRejected(message) => {
                let mut out = text::owned("daemon transiently rejected local clipboard payload: ");
                out.append(message.as_str());
                out
            },
            ClipboardExchangeError::Unresolved(message) => {
                let mut out = text::owned(
                    "daemon did not resolve submitted local clipboard payload: ",
                );
                out.append(message.as_str());
                out
            },
        }
    }
}

/// The error that a disposition stands for, if any.
pub open spec fn disposition_error(
    submitted: bool,
    disposition: ClipboardBrokerLocalPayloadDisposition,
    message: String,
) -> Option<ClipboardExchangeError> {
    match disposition {
        ClipboardBrokerLocalPayloadDisposition::Accepted
        | ClipboardBrokerLocalPayloadDisposition::DeterministicRejected => None,
        ClipboardBrokerLocalPayloadDisposition::TransientRejected => Some(
            ClipboardExchangeError::TransientRejected(message),
        ),
        ClipboardBrokerLocalPayloadDisposition::NotSubmitted
        | ClipboardBrokerLocalPayloadDisposition::Unspecified => if submitted {
            Some(ClipboardExchangeError::Unresolved(message))
        } else {
            None
        },
    }
}

/// A copy that was accepted, or refused for good, is done with.
pub open spec fn disposition_consumes(disposition: ClipboardBrokerLocalPayloadDisposition) -> bool {
    disposition == ClipboardBrokerLocalPayloadDisposition::Accepted || disposition
        == ClipboardBrokerLocalPayloadDisposition::DeterministicRejected
}

/// Takes what the daemon did with the submitted copy.
pub fn reconcile_local_payload_disposition(
    state: &mut ClipboardBrokerState,
    local_payload_submitted: bool,
    disposition: ClipboardBrokerLocalPayloadDisposition,
    message: &String,
) -> (r: Option<ClipboardExchangeError>)
    ensures
        r == disposition_error(local_payload_submitted, disposition, *message),
        final(state)@ == (if disposition_consumes(disposition) {
            old(state)@.consumed()
        } else {
            old(state)@
        }),
{
    match disposition {
        ClipboardBrokerLocalPayloadDisposition::Accepted
        | ClipboardBrokerLocalPayloadDisposition::DeterministicRejected => {
            state.mark_local_payload_consumed();
            None
        },
        ClipboardBrokerLocalPayloadDisposition::TransientRejected => Some(
            ClipboardExchangeError::TransientRejected(message.clone()),
        ),
        ClipboardBrokerLocalPayloadDisposition::NotSubmitted
        | ClipboardBrokerLocalPayloadDisposition::Unspecified => {
            if local_payload_submitted {
                Some(ClipboardExchangeError::Unresolved(message.clone()))
            } else {
                None
            }
        },
    }
}

/// What a look at the local clipboard came to.
#[derive(Debug)]
pub struct ClipboardPollOutcome {
    /// A newer local copy may be there: a remote one must not overwrite it.
    pub suppress_remote_apply: bool,
    pub error: Option<String>,
}

/// Whether a remote copy has to wait for a newer local one.
pub open spec fn defers_remote(
    suppress: bool,
    submitted: bool,
    disposition: ClipboardBrokerLocalPayloadDisposition,
) -> bool {
    ||| suppress
    ||| submitted && disposition != ClipboardBrokerLocalPayloadDisposition::DeterministicRejected
    ||| disposition == ClipboardBrokerLocalPayloadDisposition::TransientRejected
}

pub fn should_defer_remote_payload(
    poll: &ClipboardPollOutcome,
    local_payload_submitted: bool,
    disposition: ClipboardBrokerLocalPayloadDisposition,
) -> (r: bool)
    ensures
        r == defers_remote(poll.suppress_remote_apply, local_payload_submitted, disposition),
{
    poll.suppress_remote_apply || (local_payload_submitted && disposition
        != ClipboardBrokerLocalPayloadDisposition::DeterministicRejected) || disposition
        == ClipboardBrokerLocalPayloadDisposition::TransientRejected
}

/// What a look at the local clipboard does after its sequence number is known.
#[derive(Debug)]
pub enum ClipboardPollStep {
    /// Read the copy with this sequence number.
    Read(u64),
    Done(ClipboardPollOutcome),
}

impl ClipboardBrokerState {
    /// Begins a look at the local clipboard: only a copy that is not known yet
    /// is read.
    pub fn poll_sequence(&self, sequence: Result<u64, String>) -> (r: ClipboardPollStep)
        ensures
            r == (match sequence {
                Err(error) => ClipboardPollStep::Done(
                    ClipboardPollOutcome { suppress_remote_apply: true, error: Some(error) },
                ),
                Ok(sequence) => if self@.should_read(sequence) {
                    ClipboardPollStep::Read(sequence)
                } else {
                    ClipboardPollStep::Done(
                        ClipboardPollOutcome { suppress_remote_apply: false, error: None },
                    )
                },
            }),
    {
        match sequence {
            Err(error) => ClipboardPollStep::Done(
                ClipboardPollOutcome { suppress_remote_apply: true, error: Some(error) },
            ),
            Ok(sequence) => {
                if self.should_read_sequence(sequence) {
                    ClipboardPollStep::Read(sequence)
                } else {
                    ClipboardPollStep::Done(
                        ClipboardPollOutcome { suppress_remote_apply: false, error: None },
                    )
                }
            },
        }
    }

    /// Ends a look at the local clipboard with the copy that was read. What the
    /// policy refuses is handed back beside the outcome.
    pub fn stage_clipboard_payload_if_changed(
        &mut self,
        policy: ClipboardPolicy,
        sequence: u64,
        read: Result<Option<ClipboardPayload>, String>,
    ) -> (r: (ClipboardPollOutcome, Option<ClipboardPolicyError>))
        ensures
            match read {
                Ok(payload) => {
                    let view = match payload {
                        Some(payload) => Some(payload@),
                        None => None,
                    };
                    &&& final(self)@ == old(self)@.staged(policy, sequence, view)
                    &&& r.0 == (ClipboardPollOutcome { suppress_remote_apply: true, error: None })
                    &&& r.1 == (match view {
                        Some(payload) => policy_error(policy, payload),
                        None => None,
                    })
                },
                Err(error) => {
                    &&& final(self)@ == (ClipboardView { unread: Some(sequence), ..old(self)@ })
                    &&& r.0 == (ClipboardPollOutcome {
                        suppress_remote_apply: true,
                        error: Some(error),
                    })
                    &&& r.1 is None
                },
            },
    {
        match self.stage_local_read_result(policy, sequence, read) {
            Ok(rejection) => (
                ClipboardPollOutcome { suppress_remote_apply: true, error: None },
                rejection,
            ),
            Err(error) => (
                ClipboardPollOutcome { suppress_remote_apply: true, error: Some(error) },
                None,
            ),
        }
    }
}

/// The daemon's reply to an exchange, without the remote copy itself.
#[derive(Debug)]
pub struct ClipboardBrokerExchangeReply {
    pub accepted: bool,
    pub message: String,
    pub local_payload_disposition: ClipboardBrokerLocalPayloadDisposition,
    pub remote_payload_present: bool,
}

/// What to do with the remote copy of a reply.
#[derive(Debug, Clone, Copy, PartialEq, Eq, Structural)]
pub enum RemotePayloadAction {
    /// There is none.
    Absent,
    /// A newer local copy is pending: leave the local clipboard alone.
    Defer,
    /// Write it to the local clipboard and report what came of it.
    Apply,
}

/// Takes the daemon's reply: what to do with a remote copy, and the error with
/// which the exchange ends after that, if any. A reply that was not accepted
/// changes nothing.
pub fn clipboard_broker_exchange_once(
    state: &mut ClipboardBrokerState,
    poll: ClipboardPollOutcome,
    local_payload_submitted: bool,
    reply: ClipboardBrokerExchangeReply,
) -> (r: Result<(RemotePayloadAction, Option<ClipboardExchangeError>), ClipboardExchangeError>)
    ensures
        reply.accepted <==> r is Ok,
        !reply.accepted ==> {
            &&& final(state)@ == old(state)@
            &&& r->Err_0 == ClipboardExchangeError::Rejected(reply.message)
        },
        reply.accepted ==> {
            let disposition = reply.local_payload_disposition;
            let reported = ClipboardView { report: None, ..old(state)@ };
            &&& final(state)@ == (if disposition_consumes(disposition) {
                reported.consumed()
            } else {
                reported
            })
            &&& r->Ok_0.0 == (if !reply.remote_payload_present {
                RemotePayloadAction::Absent
            } else if defers_remote(
                poll.suppress_remote_apply,
                local_payload_submitted,
                disposition,
            ) {
                RemotePayloadAction::Defer
            } else {
                RemotePayloadAction::Apply
            })
            &&& r->Ok_0.1 == (match poll.error {
                Some(error) => Some(ClipboardExchangeError::ReadDeferred(error)),
                None => disposition_error(local_payload_submitted, disposition, reply.message),
            })
        },
{
    if !reply.accepted {
        return Err(ClipboardExchangeError::Rejected(reply.message));
    }
    state.mark_apply_report_accepted();
    let disposition = reply.local_payload_disposition;
    let disposition_error = reconcile_local_payload_disposition(
        state,
        local_payload_submitted,
        disposition,
        &reply.message,
    );
    let action = if !reply.remote_payload_present {
        RemotePayloadAction::Absent
    } else if should_defer_remote_payload(&poll, local_payload_submitted, disposition) {
        RemotePayloadAction::Defer
    } else {
        RemotePayloadAction::Apply
    };
    let error = match poll.error {
        Some(error) => Some(ClipboardExchangeError::ReadDeferred(error)),
        None => disposition_error,
    };
    Ok((action, error))
}

/// How long the clipboard broker waits after an exchange, in milliseconds.
pub fn clipboard_broker_delay_ms(failed: bool) -> (r: u64)
    ensures
        r == (if failed {
            3000u64
        } else {
            200u64
        }),
{
    if failed {
        3000
    } else {
        200
    }
}

/// While a newer local copy is known but not read, neither an older copy nor its
/// number goes out; once the newer one is read, it goes out itself.
pub proof fn law_newest_local_copy_wins(
    state: ClipboardView,
    policy: ClipboardPolicy,
    sequence: u64,
    payload: PayloadView,
)
    requires
        policy_error(policy, payload) is None,
    ensures
        ({
            let unread = ClipboardView { unread: Some(sequence), ..state };
            let read = unread.staged(policy, sequence, Some(payload));
            &&& unread.request_payload() is None
            &&& unread.request_sequence() is None
            &&& unread.should_read(sequence) == state.should_read(sequence)
            &&& read.request_payload() == Some(payload)
            &&& read.request_sequence() == Some(sequence)
        }),
{
}

/// A copy that the daemon accepted or refused for good is not read again, and a
/// copy that the policy refuses is not even sent.
pub proof fn law_consumed_copy_is_not_read_again(
    state: ClipboardView,
    policy: ClipboardPolicy,
    sequence: u64,
    payload: PayloadView,
)
    ensures
        state.pending is Some ==> !state.consumed().should_read(state.pending->0.sequence)
            && state.consumed().request_payload() is None,
        policy_error(policy, payload) is Some ==> {
            let refused = state.staged(policy, sequence, Some(payload));
            !refused.should_read(sequence) && refused.request_payload() is None
        },
{
}

/// A remote copy never overwrites a local one that the daemon has not dealt with.
pub proof fn law_pending_local_copy_defers_remote_copy(
    suppress: bool,
    disposition: ClipboardBrokerLocalPayloadDisposition,
)
    ensures
        !defers_remote(suppress, true, disposition) ==> disposition
            == ClipboardBrokerLocalPayloadDisposition::DeterministicRejected,
{
}

/// Whatever is done, pending or unread, a copy that was read and that the policy allows
/// is what the next request carries, under its own number, and what was done with
/// before stays so.
pub proof fn law_copy_goes_out_next(
    state: ClipboardView,
    policy: ClipboardPolicy,
    sequence: u64,
    payload: PayloadView,
)
    requires
        policy_error(policy, payload) is None,
    ensures
        ({
            let next = state.staged(policy, sequence, Some(payload));
            &&& next.request_payload() == Some(payload)
            &&& next.request_sequence() == Some(sequence)
            &&& next.last == state.last
            &&& next.report == state.report
            &&& next.unread is None
            &&& !next.should_read(sequence)
            &&& next.consumed().last == Some(sequence)
            &&& next.consumed().request_payload() is None
        }),
{
}

/// A copy without contents, or one that the policy refuses, is done with at once:
/// nothing goes out for it, nor for an older one.
pub proof fn law_refused_copy_is_done_with(
    state: ClipboardView,
    policy: ClipboardPolicy,
    sequence: u64,
    payload: Option<PayloadView>,
)
    requires
        payload matches Some(contents) ==> policy_error(policy, contents) is Some,
    ensures
        ({
            let next = state.staged(policy, sequence, payload);
            &&& next.request_payload() is None && next.request_sequence() is None
            &&& next.last == Some(sequence) && next.unread is None && next.pending is None
            &&& !next.should_read(sequence)
            &&& next.report == state.report
        }),
{
}

/// The policy refuses exactly what is longer than its limit, in bytes, texts and images
/// each by their own.
pub proof fn law_policy_refuses_what_is_too_large(
    policy: ClipboardPolicy,
    text: Seq<char>,
    image: Seq<u8>,
)
    requires
        vstd::utf8::encode_utf8(text).len() <= usize::MAX,
        image.len() <= usize::MAX,
    ensures
        policy_error(policy, PayloadView::Text(text)) is None <==> vstd::utf8::encode_utf8(
            text,
        ).len() <= policy.max_text_bytes,
        policy_error(policy, PayloadView::Image(image)) is None <==> image.len()
            <= policy.max_image_bytes,
        policy_error(policy, PayloadView::Text(text)) matches Some(error) ==> error == (
        ClipboardPolicyError::TextTooLarge {
            bytes: vstd::utf8::encode_utf8(text).len() as usize,
            max_bytes: policy.max_text_bytes,
        }),
        policy_error(policy, PayloadView::Image(image)) matches Some(error) ==> error == (
        ClipboardPolicyError::ImageTooLarge {
            bytes: image.len() as usize,
            max_bytes: policy.max_image_bytes,
        }),
{
}

/// A copy is read exactly where its number is neither done with nor pending. What the
/// daemon has taken is done with, and only then; a request carries a payload and its
/// number together.
pub proof fn law_copies_are_told_apart_by_their_number(state: ClipboardView, sequence: u64)
    ensures
        state.should_read(sequence) <==> state.last != Some(sequence) && (state.pending is None
            || state.pending->0.sequence != sequence),
        state.request_payload() is Some <==> state.request_sequence() is Some,
        state.request_payload() is Some <==> state.pending is Some && state.unread is None,
        state.request_payload() is Some ==> state.request_payload()->0 == state.pending->0.payload
            && state.request_sequence()->0 == state.pending->0.sequence,
        state.pending is None ==> state.consumed() == state,
        state.pending is Some ==> {
            let next = state.consumed();
            &&& next.last == Some(state.pending->0.sequence) && next.pending is None
            &&& next.unread == state.unread && next.report == state.report
        },
{
}

/// What the daemon says of a submitted copy: accepted or refused for good, it is done
/// with; refused for now, or left unresolved though it was submitted, it is an error and
/// stays pending. A remote copy waits wherever a newer local one may be there.
pub proof fn law_dispositions(submitted: bool, suppress: bool, message: String)
    ensures
        disposition_consumes(ClipboardBrokerLocalPayloadDisposition::Accepted),
        disposition_consumes(ClipboardBrokerLocalPayloadDisposition::DeterministicRejected),
        !disposition_consumes(ClipboardBrokerLocalPayloadDisposition::TransientRejected),
        !disposition_consumes(ClipboardBrokerLocalPayloadDisposition::NotSubmitted),
        !disposition_consumes(ClipboardBrokerLocalPayloadDisposition::Unspecified),
        disposition_error(
            submitted,
            ClipboardBrokerLocalPayloadDisposition::Accepted,
            message,
        ) is None,
        disposition_error(
            submitted,
            ClipboardBrokerLocalPayloadDisposition::DeterministicRejected,
            message,
        ) is None,
        disposition_error(
            submitted,
            ClipboardBrokerLocalPayloadDisposition::TransientRejected,
            message,
        ) == Some(ClipboardExchangeError::TransientRejected(message)),
        disposition_error(
            true,
            ClipboardBrokerLocalPayloadDisposition::NotSubmitted,
            message,
        ) == Some(ClipboardExchangeError::Unresolved(message)),
        disposition_error(
            true,
            ClipboardBrokerLocalPayloadDisposition::Unspecified,
            message,
        ) == Some(ClipboardExchangeError::Unresolved(message)),
        disposition_error(
            false,
            ClipboardBrokerLocalPayloadDisposition::NotSubmitted,
            message,
        ) is None,
        disposition_error(
            false,
            ClipboardBrokerLocalPayloadDisposition::Unspecified,
            message,
        ) is None,
        defers_remote(
            suppress,
            submitted,
            ClipboardBrokerLocalPayloadDisposition::TransientRejected,
        ),
        defers_remote(
            suppress,
            submitted,
            ClipboardBrokerLocalPayloadDisposition::DeterministicRejected,
        ) == suppress,
        defers_remote(suppress, submitted, ClipboardBrokerLocalPayloadDisposition::Accepted) == (
        suppress || submitted),
        defers_remote(
            suppress,
            submitted,
            ClipboardBrokerLocalPayloadDisposition::NotSubmitted,
        ) == (suppress || submitted),
        defers_remote(
            suppress,
            submitted,
            ClipboardBrokerLocalPayloadDisposition::Unspecified,
        ) == (suppress || submitted),
{
}

} // verus!

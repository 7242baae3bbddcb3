//! Delivery of the daemon's inject batches: receipts, retained suffixes, held
//! input that is to be restored, and the cleanup of what was injected.

use crate::elevated::{ElevatedInputControllerStatus, StatusView};
use crate::injected::{
    DirectLane, InjectedInputState, InjectedView, InputDeliveryLane, WindowsInputState,
};
use crate::input::{
    copy_events, holds_event, InputEvent, InputSendOutcome, SendOutcomeView,
};
use crate::text;
use std::collections::VecDeque;
use vstd::prelude::*;

verus! {

/// The most frames that one batch may hold.
pub const INPUT_BROKER_INJECT_BATCH_CAP: usize = 64;

/// How often a shutdown tries to release what is held.
pub const LOCAL_INPUT_CLEANUP_SHUTDOWN_ATTEMPTS: usize = 4;

/// Held input that a replacement session presses again once the daemon has
/// authorized it again.
#[derive(Debug)]
pub struct BrokerHeldInputResume {
    pub authorization_generation: u64,
    pub authorized_for_attempt: bool,
    pub intended_downs: Vec<InputEvent>,
    pub pending_restore: Vec<InputEvent>,
}

#[verifier::ext_equal]
pub struct ResumeView {
    pub generation: u64,
    pub authorized: bool,
    pub intended: Seq<InputEvent>,
    pub pending: Seq<InputEvent>,
}

impl View for BrokerHeldInputResume {
    type V = ResumeView;

    open spec fn view(&self) -> ResumeView {
        ResumeView {
            generation: self.authorization_generation,
            authorized: self.authorized_for_attempt,
            intended: self.intended_downs@,
            pending: self.pending_restore@,
        }
    }
}

/// What the broker remembers of the daemon's inject batches; it outlives the
/// session that received them.
#[derive(Debug)]
pub struct BrokerInjectBatchState {
    pub delivery_epoch: Option<String>,
    pub active_batch_id: Option<u64>,
    pub active_authorization_generation: Option<u64>,
    pub frames: VecDeque<Vec<InputEvent>>,
    pub last_completed_batch_id: u64,
    pub held_authorization_generation: Option<u64>,
    pub held_input_resume: Option<BrokerHeldInputResume>,
    pub pending_local_releases: Vec<InputEvent>,
    pub pending_cleanup_windows_input: Option<WindowsInputState>,
    pub failed_inject_batch_id: Option<u64>,
    /// The helper has to be stopped before anything is released.
    pub pending_elevated_cleanup: Option<ElevatedInputControllerStatus>,
    pub input_session_reset_required: bool,
}

/// The mathematical view of the batch state.
#[verifier::ext_equal]
pub struct BatchView {
    pub epoch: Option<Seq<char>>,
    pub active: Option<u64>,
    pub active_generation: Option<u64>,
    pub frames: Seq<Seq<InputEvent>>,
    pub completed: u64,
    pub held_generation: Option<u64>,
    pub resume: Option<ResumeView>,
    pub releases: Seq<InputEvent>,
    pub cleanup_native: Option<WindowsInputState>,
    pub failed: Option<u64>,
    pub elevated_cleanup: Option<StatusView>,
    pub reset_required: bool,
}

/// The events of each frame.
pub open spec fn frame_views(frames: Seq<Vec<InputEvent>>) -> Seq<Seq<InputEvent>> {
    frames.map_values(|f: Vec<InputEvent>| f@)
}

impl View for BrokerInjectBatchState {
    type V = BatchView;

    open spec fn view(&self) -> BatchView {
        BatchView {
            epoch: match self.delivery_epoch {
                Some(epoch) => Some(epoch@),
                None => None,
            },
            active: self.active_batch_id,
            active_generation: self.active_authorization_generation,
            frames: frame_views(self.frames@),
            completed: self.last_completed_batch_id,
            held_generation: self.held_authorization_generation,
            resume: match self.held_input_resume {
                Some(resume) => Some(resume@),
                None => None,
            },
            releases: self.pending_local_releases@,
            cleanup_native: self.pending_cleanup_windows_input,
            failed: self.failed_inject_batch_id,
            elevated_cleanup: match self.pending_elevated_cleanup {
                Some(status) => Some(status@),
                None => None,
            },
            reset_required: self.input_session_reset_required,
        }
    }
}

#[derive(Debug, Clone, Copy, PartialEq, Eq, Structural)]
pub struct BrokerInjectProgress {
    pub completed_frames: u32,
    pub failed_attempts: u32,
    pub requires_session_teardown: bool,
}

/// Why a reply of the daemon was not taken.
#[derive(Debug, Clone, Copy, PartialEq, Eq, Structural)]
pub enum InjectReplyError {
    MissingDeliveryEpoch,
    CancelWithoutBatchId,
    CancelWithFrames { batch_id: u64 },
    CancelWithAuthorization { batch_id: u64 },
    CancelledOther { batch_id: u64, active: u64 },
    PayloadWithoutBatchId,
    MissingAuthorization { batch_id: u64 },
    TooManyFrames { batch_id: u64, count: usize },
    Advanced { batch_id: u64, active: u64 },
    ReplayedActive { batch_id: u64 },
    AuthorizationChanged { batch_id: u64 },
    NoFrames { batch_id: u64 },
    HeldInputNotRequested,
}

impl InjectReplyError {
    pub open spec fn text(self) -> Seq<char> {
        match self {
            InjectReplyError::MissingDeliveryEpoch =>
                "input broker attach omitted the daemon delivery epoch"@,
            InjectReplyError::CancelWithoutBatchId =>
                "input broker cancelled an inject batch without a batch id"@,
            InjectReplyError::CancelWithFrames { batch_id } =>
                "input broker cancelled inject batch "@ + text::decimal(batch_id as nat)
                    + " while also returning frames"@,
            InjectReplyError::CancelWithAuthorization { batch_id } =>
                "input broker cancelled inject batch "@ + text::decimal(batch_id as nat)
                    + " with an authorization generation"@,
            InjectReplyError::CancelledOther { batch_id, active } =>
                "input broker cancelled batch "@ + text::decimal(batch_id as nat) + " while "@
                    + text::decimal(active as nat) + " remained pending"@,
            InjectReplyError::PayloadWithoutBatchId =>
                "input broker inject reply carried frames or authorization without a batch id"@,
            InjectReplyError::MissingAuthorization { batch_id } => "input broker inject batch "@
                + text::decimal(batch_id as nat) + " omitted its authorization generation"@,
            InjectReplyError::TooManyFrames { batch_id, count } => "input broker inject batch "@
                + text::decimal(batch_id as nat) + " exceeded bounded frame cap: "@
                + text::decimal(count as nat) + " > "@ + text::decimal(
                INPUT_BROKER_INJECT_BATCH_CAP as nat,
            ),
            InjectReplyError::Advanced { batch_id, active } =>
                "input broker inject batch advanced while "@ + text::decimal(active as nat)
                    + " remained pending: received "@ + text::decimal(batch_id as nat),
            InjectReplyError::ReplayedActive { batch_id } => "input broker replayed active batch "@
                + text::decimal(batch_id as nat) + " while backpressure was set"@,
            InjectReplyError::AuthorizationChanged { batch_id } =>
                "input broker changed authorization generation for retained batch "@
                    + text::decimal(batch_id as nat),
            InjectReplyError::NoFrames { batch_id } => "input broker announced new inject batch "@
                + text::decimal(batch_id as nat) + " without frames"@,
            InjectReplyError::HeldInputNotRequested =>
                "input broker authorized held input without a requested generation"@,
        }
    }

    /// The error in words.
    pub fn message(&self) -> (r: String)
        ensures
            r@ == self.text(),
    {
        match *self {
            InjectReplyError::MissingDeliveryEpoch => text::owned(
                "input broker attach omitted the daemon delivery epoch",
            ),
            InjectReplyError::CancelWithoutBatchId => text::owned(
                "input broker cancelled an inject batch without a batch id",
            ),
            InjectReplyError::CancelWithFrames { batch_id } => {
                let mut out = text::owned("input broker cancelled inject batch ");
                text::push_decimal(&mut out, batch_id);
                out.append(" while also returning frames");
                out
            },
            InjectReplyError::CancelWithAuthorization { batch_id } => {
                let mut out = text::owned("input broker cancelled inject batch ");
                text::push_decimal(&mut out, batch_id);
                out.append(" with an authorization generation");
                out
            },
            InjectReplyError::CancelledOther { batch_id, active } => {
                let mut out = text::owned("input broker cancelled batch ");
                text::push_decimal(&mut out, batch_id);
                out.append(" while ");
                text::push_decimal(&mut out, active);
                out.append(" remained pending");
                out
            },
            InjectReplyError::PayloadWithoutBatchId => text::owned(
                "input broker inject reply carried frames or authorization without a batch id",
            ),
            InjectReplyError::MissingAuthorization { batch_id } => {
                let mut out = text::owned("input broker inject batch ");
                text::push_decimal(&mut out, batch_id);
                out.append(" omitted its authorization generation");
                out
            },
            InjectReplyError::TooManyFrames { batch_id, count } => {
                let mut out = text::owned("input broker inject batch ");
                text::push_decimal(&mut out, batch_id);
                out.append(" exceeded bounded frame cap: ");
                text::push_decimal(&mut out, count as u64);
                out.append(" > ");
                text::push_decimal(&mut out, INPUT_BROKER_INJECT_BATCH_CAP as u64);
                out
            },
            InjectReplyError::Advanced { batch_id, active } => {
                let mut out = text::owned("input broker inject batch advanced while ");
                text::push_decimal(&mut out, active);
                out.append(" remained pending: received ");
                text::push_decimal(&mut out, batch_id);
                out
            },
            InjectReplyError::ReplayedActive { batch_id } => {
                let mut out = text::owned("input broker replayed active batch ");
                text::push_decimal(&mut out, batch_id);
                out.append(" while backpressure was set");
                out
            },
            InjectReplyError::AuthorizationChanged { batch_id } => {
                let mut out = text::owned(
                    "input broker changed authorization generation for retained batch ",
                );
                text::push_decimal(&mut out, batch_id);
                out
            },
            InjectReplyError::NoFrames { batch_id } => {
                let mut out = text::owned("input broker announced new inject batch ");
                text::push_decimal(&mut out, batch_id);
                out.append(" without frames");
                out
            },
            InjectReplyError::HeldInputNotRequested => text::owned(
                "input broker authorized held input without a requested generation",
            ),
        }
    }
}

/// `events` without those that stand in `pending`, added to `pending`.
pub open spec fn added_once(pending: Seq<InputEvent>, events: Seq<InputEvent>) -> Seq<InputEvent>
    decreases events.len(),
{
    if events.len() == 0 {
        pending
    } else {
        let before = added_once(pending, events.drop_last());
        if before.contains(events.last()) {
            before
        } else {
            before.push(events.last())
        }
    }
}

/// What a cleanup needs from the tray next.
#[derive(Debug)]
pub enum CleanupStep {
    /// Stop the helper.
    Stop,
    /// Send these releases.
    Release(Vec<InputEvent>),
    /// The cleanup is over: whether it is complete, and whether the helper's
    /// controller is to be told so.
    Done { complete: bool, recover: bool },
}

pub enum CleanupStepView {
    Stop,
    Release(Seq<InputEvent>),
    Done { complete: bool, recover: bool },
}

impl View for CleanupStep {
    type V = CleanupStepView;

    open spec fn view(&self) -> CleanupStepView {
        match self {
            CleanupStep::Stop => CleanupStepView::Stop,
            CleanupStep::Release(events) => CleanupStepView::Release(events@),
            CleanupStep::Done { complete, recover } => CleanupStepView::Done {
                complete: *complete,
                recover: *recover,
            },
        }
    }
}

impl BatchView {
    pub open spec fn empty() -> BatchView {
        BatchView {
            epoch: None,
            active: None,
            active_generation: None,
            frames: Seq::empty(),
            completed: 0,
            held_generation: None,
            resume: None,
            releases: Seq::empty(),
            cleanup_native: None,
            failed: None,
            elevated_cleanup: None,
            reset_required: false,
        }
    }

    /// A batch is active exactly while it has frames left, and then its
    /// authorization is known.
    pub open spec fn wf(self) -> bool {
        &&& self.active is Some <==> self.frames.len() > 0
        &&& self.active is Some <==> self.active_generation is Some
        &&& self.active != Some(0u64)
        &&& self.failed is Some ==> self.reset_required
    }

    /// The state in which a new daemon process is met: what was pending for
    /// release stays, receipts and payloads of the old one are gone.
    pub open spec fn new_epoch(self, epoch: Seq<char>) -> BatchView {
        BatchView {
            epoch: Some(epoch),
            releases: self.releases,
            cleanup_native: self.cleanup_native,
            elevated_cleanup: self.elevated_cleanup,
            ..BatchView::empty()
        }
    }

    pub open spec fn begin_epoch(self, epoch: Seq<char>) -> BatchView {
        if epoch.len() == 0 || self.epoch == Some(epoch) {
            self
        } else {
            self.new_epoch(epoch)
        }
    }

    pub open spec fn batch_error(
        self,
        batch_id: u64,
        frames: Seq<Seq<InputEvent>>,
        generation: u64,
    ) -> Option<InjectReplyError> {
        if batch_id == 0 {
            if frames.len() == 0 && generation == 0 {
                None
            } else {
                Some(InjectReplyError::PayloadWithoutBatchId)
            }
        } else if generation == 0 {
            Some(InjectReplyError::MissingAuthorization { batch_id })
        } else if frames.len() > INPUT_BROKER_INJECT_BATCH_CAP {
            Some(InjectReplyError::TooManyFrames { batch_id, count: frames.len() as usize })
        } else if self.completed == batch_id {
            None
        } else {
            match self.active {
                Some(active) => if active != batch_id {
                    Some(InjectReplyError::Advanced { batch_id, active })
                } else if frames.len() > 0 {
                    Some(InjectReplyError::ReplayedActive { batch_id })
                } else if self.active_generation != Some(generation) {
                    Some(InjectReplyError::AuthorizationChanged { batch_id })
                } else {
                    None
                },
                None => if frames.len() == 0 {
                    Some(InjectReplyError::NoFrames { batch_id })
                } else {
                    None
                },
            }
        }
    }

    pub open spec fn with_batch(
        self,
        batch_id: u64,
        frames: Seq<Seq<InputEvent>>,
        generation: u64,
    ) -> BatchView {
        if self.batch_error(batch_id, frames, generation) is None && batch_id != 0
            && self.completed != batch_id && self.active is None {
            BatchView {
                active: Some(batch_id),
                active_generation: Some(generation),
                frames: self.frames + frames,
                ..self
            }
        } else {
            self
        }
    }

    pub open spec fn cancel_error(
        self,
        batch_id: u64,
        frames: Seq<Seq<InputEvent>>,
        generation: u64,
    ) -> Option<InjectReplyError> {
        if batch_id == 0 {
            Some(InjectReplyError::CancelWithoutBatchId)
        } else if frames.len() > 0 {
            Some(InjectReplyError::CancelWithFrames { batch_id })
        } else if generation != 0 {
            Some(InjectReplyError::CancelWithAuthorization { batch_id })
        } else if self.completed == batch_id {
            None
        } else {
            match self.active {
                Some(active) if active != batch_id => Some(
                    InjectReplyError::CancelledOther { batch_id, active },
                ),
                _ => None,
            }
        }
    }

    pub open spec fn cancelled(self, batch_id: u64) -> BatchView {
        BatchView {
            active: None,
            active_generation: None,
            frames: Seq::empty(),
            completed: batch_id,
            resume: None,
            failed: None,
            ..self
        }
    }

    pub open spec fn reply_error(
        self,
        batch_id: u64,
        cancelled: bool,
        frames: Seq<Seq<InputEvent>>,
        generation: u64,
    ) -> Option<InjectReplyError> {
        if cancelled {
            self.cancel_error(batch_id, frames, generation)
        } else {
            self.batch_error(batch_id, frames, generation)
        }
    }

    pub open spec fn with_reply(
        self,
        batch_id: u64,
        cancelled: bool,
        frames: Seq<Seq<InputEvent>>,
        generation: u64,
    ) -> BatchView {
        if !cancelled {
            self.with_batch(batch_id, frames, generation)
        } else if self.cancel_error(batch_id, frames, generation) is None && self.completed
            != batch_id {
            self.cancelled(batch_id)
        } else {
            self
        }
    }

    /// The state in which a session that ended leaves its held input behind.
    pub open spec fn prepared_resume(self, held: Seq<InputEvent>) -> BatchView {
        let generation = match self.resume {
            Some(resume) => Some(resume.generation),
            None => self.held_generation,
        };
        let intended = match self.resume {
            Some(resume) => resume.intended,
            None => held,
        };
        if held.len() == 0 && self.resume is None || generation is None {
            BatchView { resume: None, ..self }
        } else {
            BatchView {
                resume: Some(
                    ResumeView {
                        generation: generation->0,
                        authorized: false,
                        intended,
                        pending: intended,
                    },
                ),
                ..self
            }
        }
    }

    /// The generation for which held input is to be authorized again; zero if none.
    pub open spec fn held_request(self, held: Seq<InputEvent>) -> u64 {
        match self.resume {
            Some(resume) => resume.generation,
            None => if held.len() > 0 && self.held_generation is Some {
                self.held_generation->0
            } else {
                0
            },
        }
    }

    pub open spec fn held_reply(self, requested: u64, authorized: bool) -> BatchView {
        let matches = self.resume is Some && self.resume->0.generation == requested;
        if requested == 0 {
            self
        } else if authorized {
            if matches {
                BatchView {
                    resume: Some(ResumeView { authorized: true, ..self.resume->0 }),
                    ..self
                }
            } else {
                self
            }
        } else {
            BatchView {
                resume: if matches {
                    None
                } else {
                    self.resume
                },
                held_generation: if self.held_generation == Some(requested) {
                    None
                } else {
                    self.held_generation
                },
                ..self
            }
        }
    }

    pub open spec fn staged_cleanup(self, state: InjectedView, probe: DirectLane) -> BatchView {
        let releases = added_once(self.releases, state.releases());
        let after = state.after_elevated_cleanup_check(probe);
        BatchView {
            releases,
            cleanup_native: if releases.len() > 0 || after.native.native_cleanup_pending {
                Some(after.native)
            } else {
                self.cleanup_native
            },
            elevated_cleanup: if state.needs_elevated_cleanup(probe) {
                after.elevated
            } else {
                self.elevated_cleanup
            },
            ..self
        }
    }

    pub open spec fn cleanup_pending(self) -> bool {
        ||| self.elevated_cleanup is Some
        ||| self.releases.len() > 0
        ||| self.cleanup_native is Some && self.cleanup_native->0.native_cleanup_pending
    }

    /// The state of a cleanup that no session owns any more.
    pub open spec fn cleanup_state(self) -> InjectedView {
        InjectedView {
            elevated: self.elevated_cleanup,
            lane: if self.elevated_cleanup is Some {
                InputDeliveryLane::Blocked
            } else {
                InputDeliveryLane::Direct
            },
            ..InjectedView::idle(
                match self.cleanup_native {
                    Some(native) => native,
                    None => WindowsInputState { num_lock_on: false, native_cleanup_pending: false },
                },
            )
        }
    }

    pub open spec fn elevated_done(self) -> BatchView {
        BatchView { elevated_cleanup: None, ..self }
    }

    /// What a cleanup does once the helper is out of the way.
    pub open spec fn cleanup_unlocked(self, state: InjectedView) -> (
        BatchView,
        InjectedView,
        CleanupStepView,
    ) {
        if self.releases.len() == 0 && !state.native.native_cleanup_pending {
            (
                self.elevated_done(),
                cleaned(self, state),
                CleanupStepView::Done { complete: true, recover: self.elevated_cleanup is Some },
            )
        } else {
            (self, state, CleanupStepView::Release(self.releases))
        }
    }

    pub open spec fn cleanup_begin(self, state: InjectedView) -> (
        BatchView,
        InjectedView,
        CleanupStepView,
    ) {
        if self.elevated_cleanup is Some {
            (self, state, CleanupStepView::Stop)
        } else {
            self.cleanup_unlocked(state)
        }
    }

    pub open spec fn cleanup_stopped(
        self,
        state: InjectedView,
        stopped: bool,
        probe: DirectLane,
    ) -> (BatchView, InjectedView, CleanupStepView) {
        let after = state.after_lane_stop(stopped, probe);
        if state.lane_stopped(stopped, probe) {
            (BatchView { held_generation: None, ..self }).cleanup_unlocked(after)
        } else {
            (self, after, CleanupStepView::Done { complete: false, recover: false })
        }
    }

    /// The releases went out, and nothing of them is left to do.
    pub open spec fn cleanup_complete(self, state: InjectedView, outcome: SendOutcomeView) -> bool {
        &&& outcome.error is None
        &&& outcome.remaining.len() == 0
        &&& !state.native.native_cleanup_pending
    }

    pub open spec fn cleanup_released(self, state: InjectedView, outcome: SendOutcomeView) -> (
        BatchView,
        InjectedView,
        CleanupStepView,
    ) {
        if self.cleanup_complete(state, outcome) {
            (
                BatchView {
                    releases: outcome.remaining,
                    held_generation: None,
                    cleanup_native: None,
                    elevated_cleanup: None,
                    ..self
                },
                cleaned(self, state),
                CleanupStepView::Done { complete: true, recover: self.elevated_cleanup is Some },
            )
        } else {
            (
                BatchView {
                    releases: outcome.remaining,
                    cleanup_native: if self.cleanup_native is None {
                        Some(state.native)
                    } else {
                        self.cleanup_native
                    },
                    ..self
                },
                state,
                CleanupStepView::Done { complete: false, recover: false },
            )
        }
    }

    pub open spec fn session_reset(self) -> BatchView {
        BatchView {
            active: None,
            active_generation: None,
            frames: Seq::empty(),
            held_generation: None,
            resume: None,
            failed: None,
            reset_required: false,
            ..self
        }
    }
}

/// The injected state after the helper's cleanup is complete.
pub open spec fn cleaned(batch: BatchView, state: InjectedView) -> InjectedView {
    match state.elevated {
        Some(status) if batch.elevated_cleanup is Some => InjectedView {
            elevated: Some(status.recovered()),
            ..state
        },
        _ => state,
    }
}

impl Default for BrokerInjectBatchState {
    fn default() -> (r: BrokerInjectBatchState)
        ensures
            r@ == BatchView::empty(),
            r@.wf(),
    {
        let r = BrokerInjectBatchState {
            delivery_epoch: None,
            active_batch_id: None,
            active_authorization_generation: None,
            frames: VecDeque::new(),
            last_completed_batch_id: 0,
            held_authorization_generation: None,
            held_input_resume: None,
            pending_local_releases: Vec::new(),
            pending_cleanup_windows_input: None,
            failed_inject_batch_id: None,
            pending_elevated_cleanup: None,
            input_session_reset_required: false,
        };
        assert(r@ =~= BatchView::empty());
        r
    }
}

impl BrokerInjectBatchState {
    pub open spec fn wf(&self) -> bool {
        self@.wf()
    }

    fn drop_payload(&mut self)
        ensures
            final(self)@ == (BatchView {
                active: None,
                active_generation: None,
                frames: Seq::empty(),
                resume: None,
                failed: None,
                ..old(self)@
            }),
    {
        self.frames.clear();
        self.active_batch_id = None;
        self.active_authorization_generation = None;
        self.held_input_resume = None;
        self.failed_inject_batch_id = None;
        assert(self@.frames =~= Seq::empty());
    }

    /// Attaches to a daemon. Batch ids start over with every daemon process, so
    /// receipts and retained suffixes count only within the epoch that issued
    /// them.
    pub fn begin_delivery_epoch(&mut self, delivery_epoch: &str) -> (r: Result<
        (),
        InjectReplyError,
    >)
        ensures
            r is Err <==> delivery_epoch@.len() == 0,
            r is Err ==> r->Err_0 == InjectReplyError::MissingDeliveryEpoch,
            final(self)@ == old(self)@.begin_epoch(delivery_epoch@),
            old(self).wf() ==> final(self).wf(),
    {
        if delivery_epoch.is_empty() {
            return Err(InjectReplyError::MissingDeliveryEpoch);
        }
        let known = match &self.delivery_epoch {
            Some(epoch) => text::same(epoch.as_str(), delivery_epoch),
            None => false,
        };
        if known {
            return Ok(());
        }
        self.drop_payload();
        self.delivery_epoch = Some(text::owned(delivery_epoch));
        self.last_completed_batch_id = 0;
        self.held_authorization_generation = None;
        self.input_session_reset_required = false;
        assert(self@ =~= old(self)@.new_epoch(delivery_epoch@));
        Ok(())
    }

    /// Whether a batch is not delivered to its end yet.
    pub fn backpressure_active(&self) -> (r: bool)
        ensures
            r == (self@.active is Some),
    {
        self.active_batch_id.is_some()
    }

    /// The batch that was last delivered to its end.
    pub fn acked_batch_id(&self) -> (r: u64)
        ensures
            r == self@.completed,
    {
        self.last_completed_batch_id
    }

    /// The batch of which it is not known what was delivered; zero if none.
    pub fn failed_batch_id(&self) -> (r: u64)
        ensures
            r == (match self@.failed {
                Some(id) => id,
                None => 0,
            }),
    {
        match self.failed_inject_batch_id {
            Some(id) => id,
            None => 0,
        }
    }

    /// The helper was lost while it may have held input: the session cannot go on.
    pub fn require_session_reset_for_elevated_recovery(&mut self)
        ensures
            final(self)@ == (BatchView {
                failed: if old(self)@.failed is None {
                    old(self)@.active
                } else {
                    old(self)@.failed
                },
                reset_required: true,
                ..old(self)@
            }),
            old(self).wf() ==> final(self).wf(),
    {
        if self.failed_inject_batch_id.is_none() {
            self.failed_inject_batch_id = self.active_batch_id;
        }
        self.input_session_reset_required = true;
    }

    /// Takes the daemon's word on a batch: whether it was cancelled just now. A
    /// reply that was lost may come again, so a batch that was delivered or
    /// cancelled before is taken once more without effect.
    pub fn accept_reply(
        &mut self,
        batch_id: u64,
        cancelled: bool,
        frames: Vec<Vec<InputEvent>>,
        authorization_generation: u64,
    ) -> (r: Result<bool, InjectReplyError>)
        ensures
            match r {
                Ok(now) => {
                    &&& old(self)@.reply_error(
                        batch_id,
                        cancelled,
                        frame_views(frames@),
                        authorization_generation,
                    ) is None
                    &&& now == (cancelled && old(self)@.completed != batch_id)
                },
                Err(error) => old(self)@.reply_error(
                    batch_id,
                    cancelled,
                    frame_views(frames@),
                    authorization_generation,
                ) == Some(error),
            },
            final(self)@ == old(self)@.with_reply(
                batch_id,
                cancelled,
                frame_views(frames@),
                authorization_generation,
            ),
            old(self).wf() ==> final(self).wf(),
    {
        if !cancelled {
            return match self.accept_authorized_batch(batch_id, frames, authorization_generation) {
                Ok(_) => Ok(false),
                Err(error) => Err(error),
            };
        }
        if batch_id == 0 {
            return Err(InjectReplyError::CancelWithoutBatchId);
        }
        if frames.len() > 0 {
            return Err(InjectReplyError::CancelWithFrames { batch_id });
        }
        if authorization_generation != 0 {
            return Err(InjectReplyError::CancelWithAuthorization { batch_id });
        }
        if self.last_completed_batch_id == batch_id {
            return Ok(false);
        }
        if let Some(active) = self.active_batch_id {
            if active != batch_id {
                return Err(InjectReplyError::CancelledOther { batch_id, active });
            }
        }
        self.drop_payload();
        self.last_completed_batch_id = batch_id;
        Ok(true)
    }

    /// Takes a batch under the first authorization.
    pub fn accept_batch(&mut self, batch_id: u64, frames: Vec<Vec<InputEvent>>) -> (r: Result<
        (),
        InjectReplyError,
    >)
        ensures
            match r {
                Ok(_) => old(self)@.batch_error(batch_id, frame_views(frames@), 1) is None,
                Err(error) => old(self)@.batch_error(batch_id, frame_views(frames@), 1) == Some(
                    error,
                ),
            },
            final(self)@ == old(self)@.with_batch(batch_id, frame_views(frames@), 1),
            old(self).wf() ==> final(self).wf(),
    {
        self.accept_authorized_batch(batch_id, frames, 1)
    }

    /// Takes a batch, or the daemon's word that the retained batch is still
    /// authorized.
    pub fn accept_authorized_batch(
        &mut self,
        batch_id: u64,
        frames: Vec<Vec<InputEvent>>,
        authorization_generation: u64,
    ) -> (r: Result<(), InjectReplyError>)
        ensures
            match r {
                Ok(_) => old(self)@.batch_error(
                    batch_id,
                    frame_views(frames@),
                    authorization_generation,
                ) is None,
                Err(error) => old(self)@.batch_error(
                    batch_id,
                    frame_views(frames@),
                    authorization_generation,
                ) == Some(error),
            },
            final(self)@ == old(self)@.with_batch(
                batch_id,
                frame_views(frames@),
                authorization_generation,
            ),
            old(self).wf() ==> final(self).wf(),
    {
        let count: usize = frames.len();
        if batch_id == 0 {
            if count == 0 && authorization_generation == 0 {
                return Ok(());
            }
            return Err(InjectReplyError::PayloadWithoutBatchId);
        }
        if authorization_generation == 0 {
            return Err(InjectReplyError::MissingAuthorization { batch_id });
        }
        if count > INPUT_BROKER_INJECT_BATCH_CAP {
            return Err(InjectReplyError::TooManyFrames { batch_id, count });
        }
        if self.last_completed_batch_id == batch_id {
            return Ok(());
        }
        if let Some(active) = self.active_batch_id {
            if active != batch_id {
                return Err(InjectReplyError::Advanced { batch_id, active });
            }
            if count > 0 {
                return Err(InjectReplyError::ReplayedActive { batch_id });
            }
            let unchanged = match self.active_authorization_generation {
                Some(generation) => generation == authorization_generation,
                None => false,
            };
            if !unchanged {
                return Err(InjectReplyError::AuthorizationChanged { batch_id });
            }
            return Ok(());
        }
        if count == 0 {
            return Err(InjectReplyError::NoFrames { batch_id });
        }
        self.active_batch_id = Some(batch_id);
        self.active_authorization_generation = Some(authorization_generation);
        let ghost kept = self.frames@;
        let ghost added = frames@;
        let mut frames = frames;
        let mut i: usize = 0;
        let ghost before = *self;
        while i < count
            invariant
                i <= count == added.len(),
                frames@ == added.subrange(i as int, count as int),
                self.frames@ == kept + added.take(i as int),
                self@ == (BatchView { frames: frame_views(self.frames@), ..before@ }),
            decreases count - i,
        {
            let frame = frames.remove(0);
            self.frames.push_back(frame);
            i = i + 1;
            assert(kept + added.take(i as int) =~= (kept + added.take(i - 1)).push(added[i - 1]));
            assert(frames@ =~= added.subrange(i as int, count as int));
        }
        proof {
            assert(added.take(i as int) =~= added);
            assert(frame_views(kept + added) =~= frame_views(kept) + frame_views(added));
        }
        Ok(())
    }

    /// A session ends: remembers what it holds, to press it again in a later
    /// session of the same daemon. What an earlier session meant to hold stands.
    pub fn prepare_held_input_resume(&mut self, injected_state: &InjectedInputState)
        ensures
            final(self)@ == old(self)@.prepared_resume(injected_state@.held_downs()),
            old(self).wf() ==> final(self).wf(),
    {
        let current_downs = injected_state.held_down_events();
        let previous = self.held_input_resume.take();
        match previous {
            Some(resume) => {
                let intended = resume.intended_downs;
                self.held_input_resume = Some(
                    BrokerHeldInputResume {
                        authorization_generation: resume.authorization_generation,
                        authorized_for_attempt: false,
                        pending_restore: copy_events(intended.as_slice()),
                        intended_downs: intended,
                    },
                );
            },
            None => {
                if current_downs.len() == 0 {
                    return;
                }
                match self.held_authorization_generation {
                    Some(authorization_generation) => {
                        self.held_input_resume = Some(
                            BrokerHeldInputResume {
                                authorization_generation,
                                authorized_for_attempt: false,
                                pending_restore: copy_events(current_downs.as_slice()),
                                intended_downs: current_downs,
                            },
                        );
                    },
                    None => {},
                }
            },
        }
    }

    /// The generation for which held input is to be authorized again; zero if none.
    pub fn held_authorization_request(&self, injected_state: &InjectedInputState) -> (r: u64)
        ensures
            r == self@.held_request(injected_state@.held_downs()),
    {
        match &self.held_input_resume {
            Some(resume) => resume.authorization_generation,
            None => {
                if injected_state.holds_input() {
                    match self.held_authorization_generation {
                        Some(generation) => generation,
                        None => 0,
                    }
                } else {
                    0
                }
            },
        }
    }

    /// Takes the daemon's answer to the request for held input: whether the
    /// authorization is revoked.
    pub fn observe_held_authorization_reply(
        &mut self,
        requested_generation: u64,
        authorized: bool,
    ) -> (r: Result<bool, InjectReplyError>)
        ensures
            r is Err <==> requested_generation == 0 && authorized,
            r is Err ==> r->Err_0 == InjectReplyError::HeldInputNotRequested,
            r is Ok ==> r->Ok_0 == (requested_generation != 0 && !authorized),
            final(self)@ == old(self)@.held_reply(requested_generation, authorized),
            old(self).wf() ==> final(self).wf(),
    {
        if requested_generation == 0 {
            if authorized {
                return Err(InjectReplyError::HeldInputNotRequested);
            }
            return Ok(false);
        }
        let matches = match &self.held_input_resume {
            Some(resume) => resume.authorization_generation == requested_generation,
            None => false,
        };
        if authorized {
            if matches {
                if let Some(resume) = self.held_input_resume.take() {
                    self.held_input_resume = Some(
                        BrokerHeldInputResume { authorized_for_attempt: true, ..resume },
                    );
                }
            }
            return Ok(false);
        }
        if matches {
            self.held_input_resume = None;
        }
        if let Some(generation) = self.held_authorization_generation {
            if generation == requested_generation {
                self.held_authorization_generation = None;
            }
        }
        Ok(true)
    }

    pub fn clear_held_input_resume(&mut self)
        ensures
            final(self)@ == (BatchView { resume: None, ..old(self)@ }),
            old(self).wf() ==> final(self).wf(),
    {
        self.held_input_resume = None;
    }

    /// Remembers what has to be released: everything that is held now, besides
    /// what was pending before. `probe` says whether the ordinary lane can be
    /// taken back from the helper.
    pub fn stage_local_cleanup(
        &mut self,
        injected_state: &mut InjectedInputState,
        probe: DirectLane,
    )
        requires
            old(injected_state).wf(),
        ensures
            final(self)@ == old(self)@.staged_cleanup(old(injected_state)@, probe),
            final(injected_state)@ == old(injected_state)@.after_elevated_cleanup_check(probe),
            final(injected_state).wf(),
            old(self).wf() ==> final(self).wf(),
    {
        let releases = injected_state.release_events_snapshot();
        let ghost pending = self.pending_local_releases@;
        let ghost before = self@;
        let mut i: usize = 0;
        while i < releases.len()
            invariant
                i <= releases.len(),
                self.pending_local_releases@ == added_once(pending, releases@.take(i as int)),
                self@ == (BatchView { releases: self.pending_local_releases@, ..before }),
            decreases releases.len() - i,
        {
            let release = releases[i];
            proof {
                let longer = releases@.take(i + 1);
                assert(longer.drop_last() =~= releases@.take(i as int));
                assert(longer.last() == release);
            }
            if !holds_event(&self.pending_local_releases, release) {
                self.pending_local_releases.push(release);
            }
            i = i + 1;
        }
        assert(releases@.take(i as int) =~= releases@);
        let stop_first = injected_state.elevated_cleanup_controller(probe);
        if self.pending_local_releases.len() > 0
            || injected_state.windows_input.has_pending_native_cleanup() {
            self.pending_cleanup_windows_input = Some(injected_state.windows_input);
        }
        if stop_first {
            self.pending_elevated_cleanup = match &injected_state.elevated_controller {
                Some(status) => Some(status.clone()),
                None => None,
            };
        }
    }

    /// Whether something is still to be released or undone.
    pub fn local_cleanup_pending(&self) -> (r: bool)
        ensures
            r == self@.cleanup_pending(),
    {
        let native_pending = match &self.pending_cleanup_windows_input {
            Some(windows_input) => windows_input.has_pending_native_cleanup(),
            None => false,
        };
        self.pending_elevated_cleanup.is_some() || self.pending_local_releases.len() > 0
            || native_pending
    }

    /// The state on which a cleanup works that no session owns any more.
    pub fn pending_local_cleanup_state(&self) -> (r: InjectedInputState)
        ensures
            r@ == self@.cleanup_state(),
            r.wf(),
    {
        let windows_input = match self.pending_cleanup_windows_input {
            Some(windows_input) => windows_input,
            None => WindowsInputState::new(false),
        };
        let mut state = InjectedInputState::with_windows_input(windows_input);
        if let Some(status) = &self.pending_elevated_cleanup {
            state.elevated_controller = Some(status.clone());
            state.delivery_lane = InputDeliveryLane::Blocked;
        }
        state
    }

    fn complete_elevated_cleanup(&mut self, injected_state: &mut InjectedInputState) -> (r: bool)
        ensures
            r == (old(self)@.elevated_cleanup is Some),
            final(self)@ == old(self)@.elevated_done(),
            final(injected_state)@ == cleaned(old(self)@, old(injected_state)@),
            old(injected_state).wf() ==> final(injected_state).wf(),
    {
        let pending = self.pending_elevated_cleanup.take();
        if pending.is_some() {
            if let Some(status) = injected_state.elevated_controller.take() {
                let mut status = status;
                status.complete_direct_recovery_cleanup();
                injected_state.elevated_controller = Some(status);
            }
        }
        pending.is_some()
    }

    fn cleanup_unlocked(&mut self, injected_state: &mut InjectedInputState) -> (r: CleanupStep)
        ensures
            (final(self)@, final(injected_state)@, r@) == old(self)@.cleanup_unlocked(
                old(injected_state)@,
            ),
            old(injected_state).wf() ==> final(injected_state).wf(),
            old(self).wf() ==> final(self).wf(),
    {
        if self.pending_local_releases.len() == 0
            && !injected_state.windows_input.has_pending_native_cleanup() {
            let recover = self.complete_elevated_cleanup(injected_state);
            return CleanupStep::Done { complete: true, recover };
        }
        CleanupStep::Release(copy_events(self.pending_local_releases.as_slice()))
    }

    /// Begins a cleanup: the helper is stopped first where it has to be, then
    /// everything pending is released.
    pub fn process_local_cleanup(&mut self, injected_state: &mut InjectedInputState) -> (r:
        CleanupStep)
        ensures
            (final(self)@, final(injected_state)@, r@) == old(self)@.cleanup_begin(
                old(injected_state)@,
            ),
            old(injected_state).wf() ==> final(injected_state).wf(),
            old(self).wf() ==> final(self).wf(),
    {
        if self.pending_elevated_cleanup.is_some() {
            return CleanupStep::Stop;
        }
        self.cleanup_unlocked(injected_state)
    }

    /// Takes what came of stopping the helper for a cleanup.
    pub fn local_cleanup_stopped(
        &mut self,
        injected_state: &mut InjectedInputState,
        stopped: bool,
        probe: DirectLane,
    ) -> (r: CleanupStep)
        ensures
            (final(self)@, final(injected_state)@, r@) == old(self)@.cleanup_stopped(
                old(injected_state)@,
                stopped,
                probe,
            ),
            old(injected_state).wf() ==> final(injected_state).wf(),
            old(self).wf() ==> final(self).wf(),
    {
        if !injected_state.stop_elevated_lane_for_cleanup(stopped, probe) {
            return CleanupStep::Done { complete: false, recover: false };
        }
        self.held_authorization_generation = None;
        self.cleanup_unlocked(injected_state)
    }

    /// Takes what came of sending the releases: exactly what was not sent stays
    /// pending.
    pub fn local_cleanup_released(
        &mut self,
        injected_state: &mut InjectedInputState,
        outcome: InputSendOutcome,
    ) -> (r: CleanupStep)
        ensures
            (final(self)@, final(injected_state)@, r@) == old(self)@.cleanup_released(
                old(injected_state)@,
                outcome@,
            ),
            old(injected_state).wf() ==> final(injected_state).wf(),
            old(self).wf() ==> final(self).wf(),
    {
        let complete = outcome.error.is_none() && outcome.remaining_events.len() == 0
            && !injected_state.windows_input.has_pending_native_cleanup();
        self.pending_local_releases = outcome.remaining_events;
        if complete {
            self.held_authorization_generation = None;
            self.pending_cleanup_windows_input = None;
            let recover = self.complete_elevated_cleanup(injected_state);
            CleanupStep::Done { complete: true, recover }
        } else {
            if self.pending_cleanup_windows_input.is_none() {
                self.pending_cleanup_windows_input = Some(injected_state.windows_input);
            }
            CleanupStep::Done { complete: false, recover: false }
        }
    }

    /// Whether a cleanup that is tried a bounded number of times is over, and
    /// then whether it left nothing pending.
    pub fn process_local_cleanup_bounded(&self, attempts_left: usize, complete: bool) -> (r: Option<
        bool,
    >)
        ensures
            r == (if complete {
                Some(true)
            } else if attempts_left == 0 {
                Some(!self@.cleanup_pending())
            } else {
                None
            }),
    {
        if complete {
            Some(true)
        } else if attempts_left == 0 {
            Some(!self.local_cleanup_pending())
        } else {
            None
        }
    }

    /// The daemon confirmed that the session is reset.
    pub fn complete_input_session_reset(&mut self)
        ensures
            final(self)@ == old(self)@.session_reset(),
            final(self).wf(),
    {
        self.drop_payload();
        self.held_authorization_generation = None;
        self.input_session_reset_required = false;
        assert(self@ =~= old(self)@.session_reset());
    }
}

} // verus!

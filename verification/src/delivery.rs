//! One pass of delivering an inject batch: pending cleanup first, then held
//! input that is restored, then the retained frames, in order.

use crate::batch::{
    BatchView, BrokerHeldInputResume, BrokerInjectBatchState, BrokerInjectProgress, CleanupStep,
    CleanupStepView, ResumeView, INPUT_BROKER_INJECT_BATCH_CAP,
};
use crate::injected::{DirectLane, InjectedInputState, InjectedView};
use crate::input::{copy_events, InputEvent, InputSendOutcome, SendError, SendOutcomeView};
use vstd::prelude::*;

verus! {

/// The part of a pass that a cleanup belongs to.
#[derive(Debug, Clone, Copy, PartialEq, Eq, Structural)]
pub enum CleanupPhase {
    /// Before anything is delivered.
    Opening,
    /// After a delivery of which the outcome is not known.
    Closing,
}

/// What the events that are being sent are for.
#[derive(Debug, Clone, Copy, PartialEq, Eq, Structural)]
pub enum SendPhase {
    Release(CleanupPhase),
    Restore { authorization_generation: u64 },
    Frame,
}

/// What a pass needs from the tray next.
#[derive(Debug)]
pub enum InjectAction {
    /// Stop the helper.
    StopElevatedLane { phase: CleanupPhase },
    /// Send these events; opening releases go straight to the ordinary lane,
    /// everything else through the current one.
    Send { events: Vec<InputEvent>, purpose: SendPhase },
    /// Tell the helper's controller that its cleanup is complete.
    CompleteRecovery { phase: CleanupPhase },
    /// Probe the ordinary lane, to see whether it can be taken back.
    ProbeLane,
    /// The pass is over.
    Done(BrokerInjectProgress),
}

pub enum InjectActionView {
    StopElevatedLane { phase: CleanupPhase },
    Send { events: Seq<InputEvent>, purpose: SendPhase },
    CompleteRecovery { phase: CleanupPhase },
    ProbeLane,
    Done(BrokerInjectProgress),
}

impl View for InjectAction {
    type V = InjectActionView;

    open spec fn view(&self) -> InjectActionView {
        match self {
            InjectAction::StopElevatedLane { phase } => InjectActionView::StopElevatedLane {
                phase: *phase,
            },
            InjectAction::Send { events, purpose } => InjectActionView::Send {
                events: events@,
                purpose: *purpose,
            },
            InjectAction::CompleteRecovery { phase } => InjectActionView::CompleteRecovery {
                phase: *phase,
            },
            InjectAction::ProbeLane => InjectActionView::ProbeLane,
            InjectAction::Done(progress) => InjectActionView::Done(*progress),
        }
    }
}

/// A pass so far: the batch state, what is injected, and the next action.
pub struct PassView {
    pub batch: BatchView,
    pub state: InjectedView,
    pub action: InjectActionView,
}

pub open spec fn count_one(n: u32) -> u32 {
    if n < u32::MAX {
        (n + 1) as u32
    } else {
        u32::MAX
    }
}

impl BatchView {
    /// The pass ends.
    pub open spec fn pass_done(self, state: InjectedView, progress: BrokerInjectProgress) -> PassView {
        PassView {
            batch: self,
            state,
            action: InjectActionView::Done(
                BrokerInjectProgress {
                    requires_session_teardown: self.cleanup_pending() || self.reset_required,
                    ..progress
                },
            ),
        }
    }

    /// The pass ends with one more failed attempt.
    pub open spec fn pass_failed(self, state: InjectedView, progress: BrokerInjectProgress) -> PassView {
        self.pass_done(
            state,
            BrokerInjectProgress { failed_attempts: count_one(progress.failed_attempts), ..progress },
        )
    }

    /// The batch without frames is delivered.
    pub open spec fn settled(self) -> BatchView {
        match self.active {
            Some(batch_id) if self.frames.len() == 0 => BatchView {
                active: None,
                active_generation: None,
                completed: batch_id,
                ..self
            },
            _ => self,
        }
    }

    /// The retained frames are next.
    pub open spec fn pass_frames(self, state: InjectedView, progress: BrokerInjectProgress) -> PassView {
        if self.frames.len() == 0 {
            self.settled().pass_done(state, progress)
        } else {
            PassView {
                batch: self,
                state,
                action: InjectActionView::Send { events: self.frames[0], purpose: SendPhase::Frame },
            }
        }
    }

    /// Nothing is in the way but what the gates of the pass see.
    pub open spec fn pass_gates(self, state: InjectedView, progress: BrokerInjectProgress) -> PassView {
        if self.failed is Some || self.cleanup_pending() {
            self.pass_failed(state, progress)
        } else {
            match self.resume {
                None => self.pass_frames(state, progress),
                Some(resume) => if !resume.authorized {
                    self.pass_failed(state, progress)
                } else if resume.pending.len() == 0 {
                    (BatchView { resume: None, ..self }).pass_frames(state, progress)
                } else {
                    PassView {
                        batch: BatchView {
                            resume: Some(ResumeView { authorized: false, ..resume }),
                            ..self
                        },
                        state,
                        action: InjectActionView::Send {
                            events: resume.pending,
                            purpose: SendPhase::Restore {
                                authorization_generation: resume.generation,
                            },
                        },
                    }
                },
            }
        }
    }

    /// The pass goes on after a step of its cleanup.
    pub open spec fn pass_cleanup(
        step: (BatchView, InjectedView, CleanupStepView),
        phase: CleanupPhase,
        progress: BrokerInjectProgress,
    ) -> PassView {
        let (batch, state, cleanup) = step;
        match cleanup {
            CleanupStepView::Stop => PassView {
                batch,
                state,
                action: InjectActionView::StopElevatedLane { phase },
            },
            CleanupStepView::Release(events) => PassView {
                batch,
                state,
                action: InjectActionView::Send { events, purpose: SendPhase::Release(phase) },
            },
            CleanupStepView::Done { complete, recover } => if recover {
                PassView { batch, state, action: InjectActionView::CompleteRecovery { phase } }
            } else if complete && phase == CleanupPhase::Opening {
                batch.pass_gates(state, progress)
            } else {
                batch.pass_failed(state, progress)
            },
        }
    }

    pub open spec fn pass_begin(self, state: InjectedView) -> PassView {
        let progress = BrokerInjectProgress {
            completed_frames: 0,
            failed_attempts: 0,
            requires_session_teardown: false,
        };
        if self.elevated_cleanup is Some {
            BatchView::pass_cleanup(self.cleanup_begin(state), CleanupPhase::Opening, progress)
        } else {
            self.pass_gates(state, progress)
        }
    }

    /// It is not known what was delivered: the batch is given up, and the
    /// session has to be reset.
    pub open spec fn given_up(self) -> BatchView {
        BatchView { failed: self.active, reset_required: true, ..self }
    }

    pub open spec fn pass_sent(
        self,
        state: InjectedView,
        progress: BrokerInjectProgress,
        phase: SendPhase,
        outcome: SendOutcomeView,
    ) -> PassView {
        match phase {
            SendPhase::Release(cleanup) => BatchView::pass_cleanup(
                self.cleanup_released(state, outcome),
                cleanup,
                progress,
            ),
            SendPhase::Restore { authorization_generation } => {
                let held = if state.held_downs().len() > 0 {
                    Some(authorization_generation)
                } else {
                    self.held_generation
                };
                if outcome.uncertain() {
                    PassView {
                        batch: (BatchView { resume: None, ..self }).given_up(),
                        state,
                        action: InjectActionView::ProbeLane,
                    }
                } else if outcome.error is Some {
                    (BatchView {
                        resume: match self.resume {
                            Some(resume) => Some(
                                ResumeView { pending: outcome.remaining, ..resume },
                            ),
                            None => None,
                        },
                        held_generation: held,
                        ..self
                    }).pass_failed(state, progress)
                } else {
                    (BatchView { resume: None, held_generation: held, ..self }).pass_frames(
                        state,
                        progress,
                    )
                }
            },
            SendPhase::Frame => {
                let observed = BatchView {
                    held_generation: if state.held_downs().len() > 0 {
                        self.active_generation
                    } else {
                        None
                    },
                    ..self
                };
                if self.frames.len() == 0 {
                    self.pass_frames(state, progress)
                } else if outcome.error is None {
                    (BatchView { frames: self.frames.skip(1), ..observed }).pass_frames(
                        state,
                        BrokerInjectProgress {
                            completed_frames: count_one(progress.completed_frames),
                            ..progress
                        },
                    )
                } else if outcome.uncertain() {
                    PassView {
                        batch: observed.given_up(),
                        state,
                        action: InjectActionView::ProbeLane,
                    }
                } else {
                    (BatchView {
                        frames: self.frames.update(0, outcome.remaining),
                        ..observed
                    }).pass_failed(state, progress)
                }
            },
        }
    }

    pub open spec fn pass_probed(
        self,
        state: InjectedView,
        progress: BrokerInjectProgress,
        probe: DirectLane,
    ) -> PassView {
        BatchView::pass_cleanup(
            self.staged_cleanup(state, probe).cleanup_begin(
                state.after_elevated_cleanup_check(probe),
            ),
            CleanupPhase::Closing,
            progress,
        )
    }

    pub open spec fn pass_recovered(
        self,
        state: InjectedView,
        progress: BrokerInjectProgress,
        phase: CleanupPhase,
    ) -> PassView {
        if phase == CleanupPhase::Opening {
            self.pass_gates(state, progress)
        } else {
            self.pass_failed(state, progress)
        }
    }
}

fn counted(n: u32) -> (r: u32)
    ensures
        r == count_one(n),
{
    n.saturating_add(1)
}

fn is_uncertain(outcome: &InputSendOutcome) -> (r: bool)
    ensures
        r == outcome@.uncertain(),
{
    match outcome.error {
        Some(error) => error == SendError::ElevatedDeliveryUncertain,
        None => false,
    }
}

impl BrokerInjectBatchState {
    fn finish_progress(&self, progress: BrokerInjectProgress) -> (r: InjectAction)
        ensures
            forall|state: InjectedView|
                r@ == #[trigger] self@.pass_done(state, progress).action,
    {
        InjectAction::Done(
            BrokerInjectProgress {
                requires_session_teardown: self.local_cleanup_pending()
                    || self.input_session_reset_required,
                ..progress
            },
        )
    }

    fn fail_pass(&self, progress: BrokerInjectProgress) -> (r: InjectAction)
        ensures
            forall|state: InjectedView|
                r@ == #[trigger] self@.pass_failed(state, progress).action,
    {
        let failed = BrokerInjectProgress {
            failed_attempts: counted(progress.failed_attempts),
            ..progress
        };
        let r = self.finish_progress(failed);
        proof {
            assert forall|state: InjectedView|
                r@ == #[trigger] self@.pass_failed(state, progress).action by {
                assert(self@.pass_failed(state, progress) == self@.pass_done(state, failed));
            }
        }
        r
    }

    fn send_frames(
        &mut self,
        injected_state: &InjectedInputState,
        progress: BrokerInjectProgress,
    ) -> (r: InjectAction)
        ensures
            (PassView { batch: final(self)@, state: injected_state@, action: r@ }) == old(
                self,
            )@.pass_frames(injected_state@, progress),
            old(self).wf() ==> final(self).wf(),
            r@ is Done && old(self).wf() ==> final(self)@.frames.len() == 0,
    {
        if self.frames.len() == 0 {
            if let Some(batch_id) = self.active_batch_id {
                self.active_batch_id = None;
                self.active_authorization_generation = None;
                self.last_completed_batch_id = batch_id;
            }
            assert(self@ =~= old(self)@.settled());
            let r = self.finish_progress(progress);
            assert(r@ == self@.pass_done(injected_state@, progress).action);
            return r;
        }
        let events = copy_events(self.frames[0].as_slice());
        InjectAction::Send { events, purpose: SendPhase::Frame }
    }

    fn pass_gates(
        &mut self,
        injected_state: &InjectedInputState,
        progress: BrokerInjectProgress,
    ) -> (r: InjectAction)
        ensures
            (PassView { batch: final(self)@, state: injected_state@, action: r@ }) == old(
                self,
            )@.pass_gates(injected_state@, progress),
            old(self).wf() ==> final(self).wf(),
    {
        if self.failed_inject_batch_id.is_some() || self.local_cleanup_pending() {
            let r = self.fail_pass(progress);
            assert(r@ == self@.pass_failed(injected_state@, progress).action);
            return r;
        }
        match self.held_input_resume.take() {
            None => self.send_frames(injected_state, progress),
            Some(resume) => {
                if !resume.authorized_for_attempt {
                    self.held_input_resume = Some(resume);
                    let r = self.fail_pass(progress);
                    assert(r@ == self@.pass_failed(injected_state@, progress).action);
                    return r;
                }
                if resume.pending_restore.len() == 0 {
                    return self.send_frames(injected_state, progress);
                }
                let events = copy_events(resume.pending_restore.as_slice());
                let authorization_generation = resume.authorization_generation;
                self.held_input_resume = Some(
                    BrokerHeldInputResume { authorized_for_attempt: false, ..resume },
                );
                InjectAction::Send { events, purpose: SendPhase::Restore { authorization_generation } }
            },
        }
    }

    fn continue_cleanup(
        &mut self,
        injected_state: &InjectedInputState,
        step: CleanupStep,
        phase: CleanupPhase,
        progress: BrokerInjectProgress,
    ) -> (r: InjectAction)
        ensures
            (PassView { batch: final(self)@, state: injected_state@, action: r@ })
                == BatchView::pass_cleanup(
                (old(self)@, injected_state@, step@),
                phase,
                progress,
            ),
            old(self).wf() ==> final(self).wf(),
    {
        match step {
            CleanupStep::Stop => InjectAction::StopElevatedLane { phase },
            CleanupStep::Release(events) => InjectAction::Send {
                events,
                purpose: SendPhase::Release(phase),
            },
            CleanupStep::Done { complete, recover } => {
                if recover {
                    InjectAction::CompleteRecovery { phase }
                } else if complete && phase == CleanupPhase::Opening {
                    self.pass_gates(injected_state, progress)
                } else {
                    let r = self.fail_pass(progress);
                    assert(r@ == self@.pass_failed(injected_state@, progress).action);
                    r
                }
            },
        }
    }

    /// Begins a pass. Nothing is delivered while a cleanup is pending, after a
    /// batch was given up, or before held input is authorized again.
    pub fn process(&mut self, injected_state: &mut InjectedInputState) -> (r: InjectAction)
        ensures
            (PassView { batch: final(self)@, state: final(injected_state)@, action: r@ }) == old(
                self,
            )@.pass_begin(old(injected_state)@),
            old(injected_state).wf() ==> final(injected_state).wf(),
            old(self).wf() ==> final(self).wf(),
    {
        let progress = BrokerInjectProgress {
            completed_frames: 0,
            failed_attempts: 0,
            requires_session_teardown: false,
        };
        if self.pending_elevated_cleanup.is_some() {
            let step = self.process_local_cleanup(injected_state);
            return self.continue_cleanup(injected_state, step, CleanupPhase::Opening, progress);
        }
        self.pass_gates(injected_state, progress)
    }

    /// Goes on with a pass after the helper was stopped.
    pub fn process_stopped(
        &mut self,
        injected_state: &mut InjectedInputState,
        progress: BrokerInjectProgress,
        phase: CleanupPhase,
        stopped: bool,
        probe: DirectLane,
    ) -> (r: InjectAction)
        ensures
            (PassView { batch: final(self)@, state: final(injected_state)@, action: r@ })
                == BatchView::pass_cleanup(
                old(self)@.cleanup_stopped(old(injected_state)@, stopped, probe),
                phase,
                progress,
            ),
            old(injected_state).wf() ==> final(injected_state).wf(),
            old(self).wf() ==> final(self).wf(),
    {
        let step = self.local_cleanup_stopped(injected_state, stopped, probe);
        self.continue_cleanup(injected_state, step, phase, progress)
    }

    /// Goes on with a pass after events were sent. `progress` gains a frame
    /// where one was delivered to its end.
    pub fn process_sent(
        &mut self,
        injected_state: &mut InjectedInputState,
        progress: &mut BrokerInjectProgress,
        phase: SendPhase,
        outcome: InputSendOutcome,
    ) -> (r: InjectAction)
        ensures
            (PassView { batch: final(self)@, state: final(injected_state)@, action: r@ }) == old(
                self,
            )@.pass_sent(old(injected_state)@, *old(progress), phase, outcome@),
            *final(progress) == (BrokerInjectProgress {
                completed_frames: if phase == SendPhase::Frame && old(self)@.frames.len() > 0
                    && outcome@.error is None {
                    count_one(old(progress).completed_frames)
                } else {
                    old(progress).completed_frames
                },
                ..*old(progress)
            }),
            old(injected_state).wf() ==> final(injected_state).wf(),
            old(self).wf() ==> final(self).wf(),
    {
        match phase {
            SendPhase::Release(cleanup) => {
                let step = self.local_cleanup_released(injected_state, outcome);
                self.continue_cleanup(injected_state, step, cleanup, *progress)
            },
            SendPhase::Restore { authorization_generation } => {
                if is_uncertain(&outcome) {
                    self.held_input_resume = None;
                    self.failed_inject_batch_id = self.active_batch_id;
                    self.input_session_reset_required = true;
                    return InjectAction::ProbeLane;
                }
                if injected_state.holds_input() {
                    self.held_authorization_generation = Some(authorization_generation);
                }
                if outcome.error.is_some() {
                    if let Some(resume) = self.held_input_resume.take() {
                        self.held_input_resume = Some(
                            BrokerHeldInputResume {
                                pending_restore: outcome.remaining_events,
                                ..resume
                            },
                        );
                    }
                    let r = self.fail_pass(*progress);
                    assert(r@ == self@.pass_failed(injected_state@, *progress).action);
                    return r;
                }
                self.held_input_resume = None;
                self.send_frames(injected_state, *progress)
            },
            SendPhase::Frame => {
                if self.frames.len() == 0 {
                    return self.send_frames(injected_state, *progress);
                }
                self.held_authorization_generation = if injected_state.holds_input() {
                    self.active_authorization_generation
                } else {
                    None
                };
                let ghost frames = self.frames@;
                if outcome.error.is_none() {
                    let _ = self.frames.pop_front();
                    assert(self@.frames =~= old(self)@.frames.skip(1));
                    let ghost counted_progress = BrokerInjectProgress {
                        completed_frames: count_one(progress.completed_frames),
                        ..*progress
                    };
                    progress.completed_frames = counted(progress.completed_frames);
                    assert(*progress == counted_progress);
                    return self.send_frames(injected_state, *progress);
                }
                if is_uncertain(&outcome) {
                    self.failed_inject_batch_id = self.active_batch_id;
                    self.input_session_reset_required = true;
                    return InjectAction::ProbeLane;
                }
                let _ = self.frames.pop_front();
                self.frames.push_front(outcome.remaining_events);
                assert(self@.frames =~= old(self)@.frames.update(0, outcome@.remaining));
                let r = self.fail_pass(*progress);
                assert(r@ == self@.pass_failed(injected_state@, *progress).action);
                r
            },
        }
    }

    /// Goes on with a pass whose last delivery is uncertain: everything that is
    /// held, or may be, is released.
    pub fn process_probed(
        &mut self,
        injected_state: &mut InjectedInputState,
        progress: BrokerInjectProgress,
        probe: DirectLane,
    ) -> (r: InjectAction)
        requires
            old(injected_state).wf(),
        ensures
            (PassView { batch: final(self)@, state: final(injected_state)@, action: r@ }) == old(
                self,
            )@.pass_probed(old(injected_state)@, progress, probe),
            final(injected_state).wf(),
            old(self).wf() ==> final(self).wf(),
    {
        self.stage_local_cleanup(injected_state, probe);
        let step = self.process_local_cleanup(injected_state);
        self.continue_cleanup(injected_state, step, CleanupPhase::Closing, progress)
    }

    /// Goes on with a pass after the helper's controller was told that its
    /// cleanup is complete.
    pub fn process_recovered(
        &mut self,
        injected_state: &InjectedInputState,
        progress: BrokerInjectProgress,
        phase: CleanupPhase,
    ) -> (r: InjectAction)
        ensures
            (PassView { batch: final(self)@, state: injected_state@, action: r@ }) == old(
                self,
            )@.pass_recovered(injected_state@, progress, phase),
            old(self).wf() ==> final(self).wf(),
    {
        if phase == CleanupPhase::Opening {
            return self.pass_gates(injected_state, progress);
        }
        let r = self.fail_pass(progress);
        assert(r@ == self@.pass_failed(injected_state@, progress).action);
        r
    }
}

/// Payload leaves a pass only as a frame or as restored held input.
pub open spec fn sends_payload(action: InjectActionView) -> bool {
    action matches InjectActionView::Send { purpose, .. } && !(purpose is Release)
}

/// A batch that was delivered to its end, or cancelled, is acknowledged again
/// when it comes again, and not injected again.
pub proof fn law_completed_batch_is_not_reinjected(
    batch: BatchView,
    frames: Seq<Seq<InputEvent>>,
    generation: u64,
)
    requires
        batch.completed != 0,
        generation != 0,
        frames.len() <= INPUT_BROKER_INJECT_BATCH_CAP,
    ensures
        batch.batch_error(batch.completed, frames, generation) is None,
        batch.with_batch(batch.completed, frames, generation) == batch,
{
}

/// A cancellation that comes again changes nothing.
pub proof fn law_cancellation_is_idempotent(batch: BatchView, batch_id: u64)
    requires
        batch.cancel_error(batch_id, Seq::empty(), 0) is None,
    ensures
        ({
            let once = batch.with_reply(batch_id, true, Seq::empty(), 0);
            &&& once.completed == batch_id
            &&& once.cancel_error(batch_id, Seq::empty(), 0) is None
            &&& once.with_reply(batch_id, true, Seq::empty(), 0) == once
        }),
{
}

/// A daemon process that was not met before finds neither receipts nor payload
/// of another one, while what has to be released stays.
pub proof fn law_new_epoch_discards_payload_and_keeps_cleanup(batch: BatchView, epoch: Seq<char>)
    requires
        epoch.len() > 0,
        batch.epoch != Some(epoch),
    ensures
        ({
            let next = batch.begin_epoch(epoch);
            &&& next.epoch == Some(epoch)
            &&& next.active is None && next.frames.len() == 0
            &&& next.completed == 0 && next.failed is None && !next.reset_required
            &&& next.resume is None && next.held_generation is None
            &&& next.releases == batch.releases
            &&& next.cleanup_pending() == batch.cleanup_pending()
        }),
{
}

/// The same daemon finds everything as it was.
pub proof fn law_same_epoch_keeps_everything(batch: BatchView, epoch: Seq<char>)
    requires
        epoch.len() > 0,
    ensures
        batch.begin_epoch(epoch).begin_epoch(epoch) == batch.begin_epoch(epoch),
        batch.epoch == Some(epoch) ==> batch.begin_epoch(epoch) == batch,
{
}

/// While something is still to be released, or after a batch was given up, no
/// step of a pass sends payload, whatever comes of the cleanup.
pub proof fn law_no_payload_before_cleanup(
    batch: BatchView,
    state: InjectedView,
    progress: BrokerInjectProgress,
)
    requires
        batch.failed is Some || batch.cleanup_pending(),
    ensures
        !sends_payload(batch.pass_gates(state, progress).action),
        !sends_payload(batch.pass_begin(state).action),
{
}

/// A batch of which it is not known what was delivered is never sent again: the
/// pass that finds out asks for a teardown in every way it can go on, and later
/// passes send no payload until the session is reset.
pub proof fn law_uncertain_delivery_is_never_replayed(
    batch: BatchView,
    state: InjectedView,
    progress: BrokerInjectProgress,
    outcome: SendOutcomeView,
)
    requires
        batch.wf(),
        batch.frames.len() > 0,
        outcome.uncertain(),
    ensures
        ({
            let pass = batch.pass_sent(state, progress, SendPhase::Frame, outcome);
            &&& pass.action is ProbeLane
            &&& pass.batch.failed == batch.active && batch.active is Some
            &&& pass.batch.reset_required
            &&& pass.batch.frames == batch.frames
            &&& forall|later: InjectedView, probe: DirectLane|
                #![trigger pass.batch.pass_probed(later, progress, probe)]
                {
                    let next = pass.batch.pass_probed(later, progress, probe);
                    &&& !sends_payload(next.action)
                    &&& next.batch.failed == batch.active
                    &&& next.action matches InjectActionView::Done(end)
                        ==> end.requires_session_teardown
                }
            &&& forall|later: InjectedView|
                #![trigger pass.batch.pass_begin(later)]
                !sends_payload(pass.batch.pass_begin(later).action)
            &&& pass.batch.session_reset().failed is None
            &&& pass.batch.session_reset().completed == batch.completed
        }),
{
}

/// Where a frame was delivered in part, the next pass begins with exactly what
/// was left of it, and the later frames wait unchanged behind it.
pub proof fn law_exact_suffix_is_retried_before_later_frames(
    batch: BatchView,
    state: InjectedView,
    later: InjectedView,
    progress: BrokerInjectProgress,
    outcome: SendOutcomeView,
)
    requires
        batch.wf(),
        batch.frames.len() > 0,
        batch.resume is None,
        batch.failed is None,
        !batch.cleanup_pending(),
        outcome.error is Some,
        !outcome.uncertain(),
    ensures
        ({
            let pass = batch.pass_sent(state, progress, SendPhase::Frame, outcome);
            let next = pass.batch.pass_begin(later);
            &&& pass.action is Done
            &&& pass.batch.active == batch.active
            &&& pass.batch.completed == batch.completed
            &&& next.action == (InjectActionView::Send {
                events: outcome.remaining,
                purpose: SendPhase::Frame,
            })
            &&& pass.batch.frames.skip(1) == batch.frames.skip(1)
        }),
{
    let pass = batch.pass_sent(state, progress, SendPhase::Frame, outcome);
    assert(pass.batch.frames.skip(1) =~= batch.frames.skip(1));
}

/// Delivering the last frame acknowledges the batch.
pub proof fn law_last_frame_acknowledges_batch(
    batch: BatchView,
    state: InjectedView,
    progress: BrokerInjectProgress,
    outcome: SendOutcomeView,
)
    requires
        batch.wf(),
        batch.frames.len() > 0,
        outcome.error is None,
    ensures
        ({
            let pass = batch.pass_sent(state, progress, SendPhase::Frame, outcome);
            if batch.frames.len() == 1 {
                &&& Some(pass.batch.completed) == batch.active
                &&& pass.batch.active is None
            } else {
                &&& pass.batch.completed == batch.completed
                &&& pass.batch.active == batch.active
                &&& pass.action == (InjectActionView::Send {
                    events: batch.frames[1],
                    purpose: SendPhase::Frame,
                })
            }
        }),
{
}

/// Held input is pressed again only after the daemon has authorized its
/// generation for this attempt, and then before any frame; a session that lost
/// its connection restores exactly what it held.
pub proof fn law_held_input_is_restored_once_reauthorized(
    batch: BatchView,
    held: InjectedView,
    later: InjectedView,
    generation: u64,
)
    requires
        held.wf(),
        held.held_downs().len() > 0,
        batch.resume is None,
        batch.held_generation == Some(generation),
        generation != 0,
        batch.failed is None,
        !batch.cleanup_pending(),
        later.released() == later,
        held.native == later.native,
        held.elevated == later.elevated,
        held.lane == later.lane,
    ensures
        ({
            let waiting = batch.prepared_resume(held.held_downs());
            let granted = waiting.held_reply(generation, true);
            let pass = granted.pass_begin(later);
            &&& waiting.held_request(later.held_downs()) == generation
            &&& !sends_payload(waiting.pass_begin(later).action)
            &&& pass.action == (InjectActionView::Send {
                events: held.held_downs(),
                purpose: SendPhase::Restore { authorization_generation: generation },
            })
            &&& later.observe(held.held_downs()) == held
            &&& !sends_payload(pass.batch.pass_begin(later).action)
        }),
{
    crate::injected::law_held_downs_restore_held_input(held);
    assert(held.released() =~= later);
}

/// A daemon that does not authorize held input again takes it away: it is not
/// restored under that generation any more.
pub proof fn law_revoked_held_input_is_discarded(batch: BatchView, generation: u64)
    requires
        generation != 0,
    ensures
        ({
            let revoked = batch.held_reply(generation, false);
            &&& revoked.held_generation != Some(generation)
            &&& revoked.resume is Some ==> revoked.resume->0.generation != generation
        }),
{
}

proof fn lemma_added_once(pending: Seq<InputEvent>, events: Seq<InputEvent>)
    ensures
        ({
            let all = crate::batch::added_once(pending, events);
            &&& all.len() >= pending.len()
            &&& all.take(pending.len() as int) == pending
            &&& forall|e: InputEvent| #[trigger]
                all.contains(e) <==> pending.contains(e) || events.contains(e)
        }),
    decreases events.len(),
{
    let all = crate::batch::added_once(pending, events);
    if events.len() == 0 {
        assert(all.take(pending.len() as int) =~= pending);
    } else {
        let shorter = events.drop_last();
        let before = crate::batch::added_once(pending, shorter);
        lemma_added_once(pending, shorter);
        assert(all.take(pending.len() as int) =~= pending);
        assert forall|e: InputEvent| #[trigger] all.contains(e) <==> pending.contains(e)
            || events.contains(e) by {
            if events.contains(e) {
                let i = choose|i: int| 0 <= i < events.len() && events[i] == e;
                if i < shorter.len() {
                    assert(shorter[i] == e);
                    assert(before.contains(e));
                }
            }
            if shorter.contains(e) {
                let i = choose|i: int| 0 <= i < shorter.len() && shorter[i] == e;
                assert(events[i] == e);
            }
            if before.contains(e) {
                let i = choose|i: int| 0 <= i < before.len() && before[i] == e;
                assert(all[i] == e);
            }
            if all.contains(e) && !before.contains(e) {
                let i = choose|i: int| 0 <= i < all.len() && all[i] == e;
                assert(i == before.len());
                assert(events[events.len() - 1] == e);
            }
            if e == events.last() && !before.contains(e) {
                assert(all[before.len() as int] == e);
            }
        }
    }
}

/// What a cleanup is to release is what was pending before, in its order, and
/// everything that is held now.
pub proof fn law_staged_cleanup_covers_held_input(
    batch: BatchView,
    state: InjectedView,
    probe: DirectLane,
)
    ensures
        ({
            let staged = batch.staged_cleanup(state, probe).releases;
            &&& staged.take(batch.releases.len() as int) == batch.releases
            &&& forall|e: InputEvent| #[trigger]
                staged.contains(e) <==> batch.releases.contains(e) || state.releases().contains(e)
        }),
{
    lemma_added_once(batch.releases, state.releases());
}

/// A cleanup that did not get through keeps exactly what was not sent, and stays
/// pending while anything is left of it.
pub proof fn law_incomplete_cleanup_keeps_exact_suffix(
    batch: BatchView,
    state: InjectedView,
    outcome: SendOutcomeView,
)
    ensures
        ({
            let (next, _, step) = batch.cleanup_released(state, outcome);
            &&& next.releases == outcome.remaining
            &&& outcome.remaining.len() > 0 ==> next.cleanup_pending()
            &&& step == (CleanupStepView::Done {
                complete: batch.cleanup_complete(state, outcome),
                recover: batch.cleanup_complete(state, outcome) && batch.elevated_cleanup is Some,
            })
            &&& batch.cleanup_complete(state, outcome) ==> !next.cleanup_pending()
        }),
{
}

} // verus!

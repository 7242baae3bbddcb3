//! What holds of the way of injected input, from the daemon's reply to the last
//! acknowledged frame.

use crate::batch::{BatchView, BrokerInjectProgress, CleanupStepView, InjectReplyError, ResumeView};
use crate::delivery::{CleanupPhase, InjectActionView, PassView, SendPhase};
use crate::elevated::{ElevatedInputActivationResult, InputInjectorReason, InputInjectorState};
use crate::injected::{
    button_down, button_up, DirectLane, InjectedView, InputDeliveryLane, SendReplyView,
    SendStepView,
};
use crate::input::{InputEvent, MouseButton, SendError, SendOutcomeView};
use vstd::prelude::*;

verus! {

/// A new batch is kept whole: exactly the frames of the reply, in their order, under
/// its number and authorization, and nothing else changes.
pub proof fn law_new_batch_is_kept_whole(
    batch: BatchView,
    batch_id: u64,
    frames: Seq<Seq<InputEvent>>,
    generation: u64,
)
    requires
        batch.wf(),
        batch.active is None,
        batch_id != 0,
        batch_id != batch.completed,
        generation != 0,
        1 <= frames.len() <= 64,
    ensures
        batch.reply_error(batch_id, false, frames, generation) is None,
        ({
            let next = batch.with_reply(batch_id, false, frames, generation);
            &&& next.frames.len() == frames.len()
            &&& forall|i: int| 0 <= i < frames.len() ==> #[trigger] next.frames[i] == frames[i]
            &&& next.active == Some(batch_id)
            &&& next.active_generation == Some(generation)
            &&& next.completed == batch.completed && next.epoch == batch.epoch
            &&& next.held_generation == batch.held_generation && next.resume == batch.resume
            &&& next.releases == batch.releases && next.cleanup_native == batch.cleanup_native
            &&& next.failed == batch.failed && next.elevated_cleanup == batch.elevated_cleanup
            &&& next.reset_required == batch.reset_required
            &&& next == batch.with_batch(batch_id, frames, generation)
        }),
{
}

/// When a reply of the daemon is refused, and for what; a refused reply changes
/// nothing, and neither does one that brings nothing new.
pub proof fn law_refused_replies_change_nothing(
    batch: BatchView,
    batch_id: u64,
    frames: Seq<Seq<InputEvent>>,
    generation: u64,
)
    requires
        frames.len() <= usize::MAX,
    ensures
        ({
            let error = batch.reply_error(batch_id, false, frames, generation);
            let some = frames.len() > 0;
            let known = batch_id != 0 && generation != 0 && frames.len() <= 64;
            let fresh = known && batch.completed != batch_id;
            &&& error == Some(InjectReplyError::PayloadWithoutBatchId) <==> batch_id == 0 && (some
                || generation != 0)
            &&& error == Some(InjectReplyError::MissingAuthorization { batch_id }) <==> batch_id
                != 0 && generation == 0
            &&& error is Some && error->0 is TooManyFrames <==> batch_id != 0 && generation != 0
                && frames.len() > 64
            &&& error is Some && error->0 is Advanced <==> fresh && batch.active is Some
                && batch.active->0 != batch_id
            &&& error == Some(InjectReplyError::ReplayedActive { batch_id }) <==> fresh
                && batch.active == Some(batch_id) && some
            &&& error == Some(InjectReplyError::AuthorizationChanged { batch_id }) <==> fresh
                && batch.active == Some(batch_id) && !some && batch.active_generation != Some(
                generation,
            )
            &&& error == Some(InjectReplyError::NoFrames { batch_id }) <==> fresh
                && batch.active is None && !some
            &&& error is Some || !some || batch.active is Some || batch.completed == batch_id
                ==> batch.with_reply(batch_id, false, frames, generation) == batch
        }),
{
}

/// A cancellation names one batch and nothing else. It drops what is left of that
/// batch and acknowledges it; releases that are due stay due.
pub proof fn law_cancellation_drops_the_batch(
    batch: BatchView,
    batch_id: u64,
    frames: Seq<Seq<InputEvent>>,
    generation: u64,
)
    ensures
        ({
            let error = batch.reply_error(batch_id, true, frames, generation);
            let next = batch.with_reply(batch_id, true, frames, generation);
            let plain = batch_id != 0 && frames.len() == 0 && generation == 0;
            &&& error is None <==> plain && (batch.completed == batch_id || batch.active is None
                || batch.active == Some(batch_id))
            &&& error == Some(InjectReplyError::CancelWithoutBatchId) <==> batch_id == 0
            &&& error == Some(InjectReplyError::CancelWithFrames { batch_id }) <==> batch_id != 0
                && frames.len() > 0
            &&& error == Some(InjectReplyError::CancelWithAuthorization { batch_id })
                <==> batch_id != 0 && frames.len() == 0 && generation != 0
            &&& error is Some || batch.completed == batch_id ==> next == batch
            &&& error is None && batch.completed != batch_id ==> {
                &&& next.active is None && next.active_generation is None
                &&& next.frames.len() == 0 && next.completed == batch_id
                &&& next.resume is None && next.failed is None
                &&& next.releases == batch.releases && next.epoch == batch.epoch
                &&& next.held_generation == batch.held_generation
                &&& next.cleanup_native == batch.cleanup_native
                &&& next.elevated_cleanup == batch.elevated_cleanup
                &&& next.reset_required == batch.reset_required
            }
        }),
{
}

/// Everything that was handed over was delivered.
pub open spec fn all_delivered(events: Seq<InputEvent>) -> SendOutcomeView {
    SendOutcomeView { committed: events.len(), remaining: Seq::empty(), error: None }
}

/// The frames that a pass sends while every delivery succeeds, and where it ends;
/// `states` are what is injected after each of them.
pub open spec fn frames_sent(
    pass: PassView,
    progress: BrokerInjectProgress,
    states: Seq<InjectedView>,
) -> (Seq<Seq<InputEvent>>, PassView)
    decreases states.len(),
{
    match pass.action {
        InjectActionView::Send { events, purpose: SendPhase::Frame } if states.len() > 0 => {
            let next = pass.batch.pass_sent(
                states[0],
                progress,
                SendPhase::Frame,
                all_delivered(events),
            );
            let counted = BrokerInjectProgress {
                completed_frames: (progress.completed_frames + 1) as u32,
                ..progress
            };
            let (rest, end) = frames_sent(next, counted, states.skip(1));
            (seq![events] + rest, end)
        },
        _ => (Seq::empty(), pass),
    }
}

/// Nothing stands between the retained frames and their delivery.
pub open spec fn free_to_send(batch: BatchView) -> bool {
    &&& batch.resume is None
    &&& batch.failed is None
    &&& !batch.reset_required
    &&& batch.releases.len() == 0
    &&& batch.elevated_cleanup is None
    &&& !(batch.cleanup_native is Some && batch.cleanup_native->0.native_cleanup_pending)
}

proof fn lemma_frames_sent(
    batch: BatchView,
    state: InjectedView,
    progress: BrokerInjectProgress,
    states: Seq<InjectedView>,
)
    requires
        batch.wf(),
        batch.active is Some,
        free_to_send(batch),
        states.len() == batch.frames.len(),
        progress.completed_frames + batch.frames.len() <= u32::MAX,
        !progress.requires_session_teardown,
    ensures
        ({
            let (sent, end) = frames_sent(batch.pass_frames(state, progress), progress, states);
            &&& sent == batch.frames
            &&& end.action == InjectActionView::Done(
                BrokerInjectProgress {
                    completed_frames: (progress.completed_frames + batch.frames.len()) as u32,
                    ..progress
                },
            )
            &&& Some(end.batch.completed) == batch.active
            &&& end.batch.active is None && end.batch.active_generation is None
            &&& end.batch.frames.len() == 0
            &&& end.batch.releases == batch.releases
            &&& end.batch.epoch == batch.epoch
        }),
    decreases batch.frames.len(),
{
    let pass = batch.pass_frames(state, progress);
    let first = batch.frames[0];
    let next = pass.batch.pass_sent(states[0], progress, SendPhase::Frame, all_delivered(first));
    let counted = BrokerInjectProgress {
        completed_frames: (progress.completed_frames + 1) as u32,
        ..progress
    };
    let (sent, end) = frames_sent(pass, progress, states);
    if batch.frames.len() == 1 {
        assert(frames_sent(next, counted, states.skip(1)).0.len() == 0);
        assert(sent =~= batch.frames);
    } else {
        let rest = BatchView {
            frames: batch.frames.skip(1),
            held_generation: if states[0].held_downs().len() > 0 {
                batch.active_generation
            } else {
                None
            },
            ..batch
        };
        assert(next == rest.pass_frames(states[0], counted));
        lemma_frames_sent(rest, states[0], counted, states.skip(1));
        assert(seq![first] + batch.frames.skip(1) =~= batch.frames);
    }
}

/// A batch goes out frame by frame: where every delivery succeeds, a pass sends
/// exactly the retained frames, each once and in their order, and then acknowledges
/// the batch, with no failed attempt.
pub proof fn law_batch_goes_out_frame_by_frame(
    batch: BatchView,
    state: InjectedView,
    states: Seq<InjectedView>,
)
    requires
        batch.wf(),
        batch.active is Some,
        batch.frames.len() <= 64,
        free_to_send(batch),
        states.len() == batch.frames.len(),
    ensures
        ({
            let start = BrokerInjectProgress {
                completed_frames: 0,
                failed_attempts: 0,
                requires_session_teardown: false,
            };
            let (sent, end) = frames_sent(batch.pass_begin(state), start, states);
            &&& sent == batch.frames
            &&& end.action == InjectActionView::Done(
                BrokerInjectProgress {
                    completed_frames: batch.frames.len() as u32,
                    failed_attempts: 0,
                    requires_session_teardown: false,
                },
            )
            &&& Some(end.batch.completed) == batch.active
            &&& end.batch.active is None && end.batch.frames.len() == 0
        }),
{
    let start = BrokerInjectProgress {
        completed_frames: 0,
        failed_attempts: 0,
        requires_session_teardown: false,
    };
    lemma_frames_sent(batch, state, start, states);
}

/// After a frame the held input belongs to the authorization of its batch, and to
/// none where nothing is held. A frame that failed is not counted as delivered, and
/// the pass then ends with one more failed attempt.
pub proof fn law_frame_outcome_is_counted(
    batch: BatchView,
    state: InjectedView,
    progress: BrokerInjectProgress,
    outcome: SendOutcomeView,
)
    requires
        batch.wf(),
        batch.frames.len() > 0,
        progress.failed_attempts < u32::MAX,
        progress.completed_frames < u32::MAX,
    ensures
        ({
            let pass = batch.pass_sent(state, progress, SendPhase::Frame, outcome);
            &&& pass.state == state
            &&& pass.batch.held_generation == (if state.keys.len() + state.buttons.len() > 0 {
                batch.active_generation
            } else {
                None
            })
            &&& pass.batch.completed != batch.completed ==> outcome.error is None
                && batch.frames.len() == 1
            &&& outcome.error is None && batch.frames.len() == 1
                ==> pass.action is Done && pass.action->Done_0.completed_frames
                == progress.completed_frames + 1 && pass.action->Done_0.failed_attempts
                == progress.failed_attempts
            &&& outcome.error is Some && !outcome.uncertain()
                ==> pass.action is Done && pass.action->Done_0.completed_frames
                == progress.completed_frames && pass.action->Done_0.failed_attempts == progress.failed_attempts + 1
                && pass.action->Done_0.requires_session_teardown == (batch.cleanup_pending()
                || batch.reset_required)
            &&& outcome.error is Some && !outcome.uncertain() ==> pass.batch.frames.len()
                == batch.frames.len() && pass.batch.frames[0] == outcome.remaining
        }),
{
}

/// What a pass does first: the helper is stopped before anything is released, a batch
/// that was given up or a cleanup that is due keeps payload back, held input waits for
/// its authorization, and frames come last.
pub proof fn law_pass_order(batch: BatchView, state: InjectedView)
    ensures
        ({
            let pass = batch.pass_begin(state);
            let blocked = batch.failed is Some || batch.cleanup_pending();
            &&& pass.action == (InjectActionView::StopElevatedLane { phase: CleanupPhase::Opening })
                <==> batch.elevated_cleanup is Some
            &&& batch.elevated_cleanup is None && blocked
                ==> pass.action is Done && pass.action->Done_0.completed_frames == 0
                && pass.action->Done_0.failed_attempts == 1 && pass.batch == batch
            &&& !blocked && batch.resume is Some && !batch.resume->0.authorized
                ==> pass.action is Done && pass.action->Done_0.failed_attempts == 1
                && pass.batch == batch
            &&& !blocked && batch.resume is Some && batch.resume->0.authorized
                && batch.resume->0.pending.len() > 0 ==> pass.action == (InjectActionView::Send {
                events: batch.resume->0.pending,
                purpose: SendPhase::Restore {
                    authorization_generation: batch.resume->0.generation,
                },
            })
            &&& !blocked && batch.frames.len() > 0 && (batch.resume is None
                || batch.resume->0.authorized && batch.resume->0.pending.len() == 0)
                ==> pass.action == (InjectActionView::Send {
                events: batch.frames[0],
                purpose: SendPhase::Frame,
            }) && pass.batch.frames == batch.frames
        }),
{
}

/// Held input that was pressed again belongs to its authorization. What could not be
/// pressed again stays to be pressed, and has to be authorized anew; once it is not
/// known what was pressed, the session has to be reset. Otherwise the frames go on.
pub proof fn law_restored_input_is_settled(
    batch: BatchView,
    state: InjectedView,
    progress: BrokerInjectProgress,
    generation: u64,
    outcome: SendOutcomeView,
)
    requires
        batch.wf(),
        batch.resume is Some,
        batch.resume->0.generation == generation,
        progress.failed_attempts < u32::MAX,
    ensures
        ({
            let purpose = SendPhase::Restore { authorization_generation: generation };
            let pass = batch.pass_sent(state, progress, purpose, outcome);
            let holds = state.keys.len() + state.buttons.len() > 0;
            &&& outcome.uncertain() ==> {
                &&& pass.action is ProbeLane && pass.batch.resume is None
                &&& pass.batch.reset_required && pass.batch.failed == batch.active
            }
            &&& outcome.error is Some && !outcome.uncertain() ==> {
                &&& pass.batch.resume matches Some(resume) && resume.pending == outcome.remaining
                    && resume.authorized == batch.resume->0.authorized && resume.intended
                    == batch.resume->0.intended && resume.generation == generation
                &&& pass.batch.frames == batch.frames
                &&& pass.action is Done && pass.action->Done_0.failed_attempts
                    == progress.failed_attempts + 1
            }
            &&& outcome.error is None ==> {
                &&& pass.batch.resume is None
                &&& batch.frames.len() > 0 ==> pass.action == (InjectActionView::Send {
                    events: batch.frames[0],
                    purpose: SendPhase::Frame,
                })
            }
            &&& !outcome.uncertain() ==> pass.batch.held_generation == (if holds {
                Some(generation)
            } else {
                batch.held_generation
            })
        }),
{
}

/// A session that ends leaves exactly its held input to be pressed again, under the
/// authorization it had; what was left to be pressed again before stays as it was
/// meant. Without an authorization nothing is left.
pub proof fn law_ended_session_leaves_its_held_input(batch: BatchView, held: Seq<InputEvent>)
    ensures
        ({
            let next = batch.prepared_resume(held);
            &&& batch.resume is None && batch.held_generation is Some && held.len() > 0
                ==> next.resume == Some(
                ResumeView {
                    generation: batch.held_generation->0,
                    authorized: false,
                    intended: held,
                    pending: held,
                },
            )
            &&& batch.resume is None && (batch.held_generation is None || held.len() == 0)
                ==> next.resume is None
            &&& batch.resume is Some ==> next.resume == Some(
                ResumeView {
                    authorized: false,
                    pending: batch.resume->0.intended,
                    ..batch.resume->0
                },
            )
            &&& next.frames == batch.frames && next.active == batch.active && next.completed
                == batch.completed && next.releases == batch.releases && next.held_generation
                == batch.held_generation && next.failed == batch.failed && next.reset_required
                == batch.reset_required && next.elevated_cleanup == batch.elevated_cleanup
        }),
{
}

/// The generation that the daemon is asked about is that of the input left to be
/// pressed again, else that of the held input, else none. Its answer counts only for
/// the generation it was asked about.
pub proof fn law_held_input_is_asked_about(
    batch: BatchView,
    held: Seq<InputEvent>,
    requested: u64,
    authorized: bool,
)
    ensures
        batch.resume is Some ==> batch.held_request(held) == batch.resume->0.generation,
        batch.resume is None && held.len() > 0 && batch.held_generation is Some
            ==> batch.held_request(held) == batch.held_generation->0,
        batch.resume is None && (held.len() == 0 || batch.held_generation is None)
            ==> batch.held_request(held) == 0,
        ({
            let next = batch.held_reply(requested, authorized);
            let asked = requested != 0 && batch.resume is Some && batch.resume->0.generation
                == requested;
            &&& requested == 0 ==> next == batch
            &&& asked && authorized ==> next.resume == Some(
                ResumeView { authorized: true, ..batch.resume->0 },
            )
            &&& asked && !authorized ==> next.resume is None
            &&& !asked ==> next.resume == batch.resume
            &&& authorized || batch.held_generation != Some(requested) || requested == 0
                ==> next.held_generation == batch.held_generation
            &&& !authorized && requested != 0 && batch.held_generation == Some(requested)
                ==> next.held_generation is None
            &&& next.frames == batch.frames && next.active == batch.active && next.completed
                == batch.completed && next.releases == batch.releases && next.failed
                == batch.failed && next.reset_required == batch.reset_required
        }),
{
}

/// A cleanup stops the helper first, then sends everything that is due for release at
/// once, and is complete at once where nothing is due.
pub proof fn law_cleanup_order(
    batch: BatchView,
    state: InjectedView,
    stopped: bool,
    probe: DirectLane,
)
    ensures
        ({
            let (next, after, step) = batch.cleanup_begin(state);
            let due = batch.releases.len() > 0 || state.native.native_cleanup_pending;
            &&& step is Stop <==> batch.elevated_cleanup is Some
            &&& batch.elevated_cleanup is None && due ==> step == CleanupStepView::Release(
                batch.releases,
            ) && next == batch && after == state
            &&& batch.elevated_cleanup is None && !due ==> step == (CleanupStepView::Done {
                complete: true,
                recover: false,
            })
        }),
        ({
            let (next, after, step) = batch.cleanup_stopped(state, stopped, probe);
            &&& !state.lane_stopped(stopped, probe) ==> step == (CleanupStepView::Done {
                complete: false,
                recover: false,
            }) && next == batch
            &&& state.lane_stopped(stopped, probe) && batch.releases.len() > 0
                ==> step == CleanupStepView::Release(batch.releases)
            &&& state.lane_stopped(stopped, probe) ==> next.held_generation is None
                && next.releases == batch.releases && next.frames == batch.frames
        }),
{
}

/// A cleanup is over exactly where everything was sent without an error and the
/// ordinary lane has nothing left to undo; then nothing is held or due any more.
pub proof fn law_cleanup_is_over_once_everything_went_out(
    batch: BatchView,
    state: InjectedView,
    outcome: SendOutcomeView,
)
    ensures
        ({
            let (next, after, step) = batch.cleanup_released(state, outcome);
            let over = outcome.error is None && outcome.remaining.len() == 0
                && !state.native.native_cleanup_pending;
            &&& step == (CleanupStepView::Done {
                complete: over,
                recover: over && batch.elevated_cleanup is Some,
            })
            &&& over ==> next.releases.len() == 0 && next.held_generation is None
                && next.cleanup_native is None && next.elevated_cleanup is None
            &&& !over ==> next.elevated_cleanup == batch.elevated_cleanup
                && next.held_generation == batch.held_generation && next.cleanup_native is Some
            &&& next.frames == batch.frames && next.active == batch.active && next.completed
                == batch.completed && next.resume == batch.resume && next.failed == batch.failed
        }),
{
}

/// Staging a cleanup only adds to what is due; payload and receipts stay.
pub proof fn law_staging_touches_only_the_cleanup(
    batch: BatchView,
    state: InjectedView,
    probe: DirectLane,
)
    ensures
        ({
            let next = batch.staged_cleanup(state, probe);
            &&& next.frames == batch.frames && next.active == batch.active && next.completed
                == batch.completed && next.resume == batch.resume && next.failed == batch.failed
                && next.held_generation == batch.held_generation && next.epoch == batch.epoch
                && next.reset_required == batch.reset_required && next.active_generation
                == batch.active_generation
            &&& state.needs_elevated_cleanup(probe) ==> next.elevated_cleanup == state.elevated
                && next.elevated_cleanup is Some
            &&& !state.needs_elevated_cleanup(probe) ==> next.elevated_cleanup
                == batch.elevated_cleanup
            &&& next.releases.len() > 0 ==> next.cleanup_native is Some && next.cleanup_pending()
        }),
{
}

/// A session that is reset forgets payload, held input and failures; receipts and what
/// is due for release stay.
pub proof fn law_reset_session_keeps_receipts(batch: BatchView)
    ensures
        ({
            let next = batch.session_reset();
            &&& next.active is None && next.active_generation is None && next.frames.len() == 0
            &&& next.held_generation is None && next.resume is None && next.failed is None
            &&& !next.reset_required
            &&& next.completed == batch.completed && next.epoch == batch.epoch
            &&& next.releases == batch.releases && next.cleanup_native == batch.cleanup_native
            &&& next.elevated_cleanup == batch.elevated_cleanup
        }),
{
}

/// What has to be released before payload may go out: an unfinished cleanup of the
/// helper, releases that are due, or a Num Lock of the ordinary lane.
pub proof fn law_cleanup_is_pending_while_anything_is_due(batch: BatchView)
    ensures
        batch.cleanup_pending() <==> batch.elevated_cleanup is Some || batch.releases.len() > 0
            || (batch.cleanup_native is Some && batch.cleanup_native->0.native_cleanup_pending),
        BatchView::empty().completed == 0 && !BatchView::empty().cleanup_pending()
            && BatchView::empty().frames.len() == 0 && BatchView::empty().wf(),
{
}

/// A delivery begins with the ordinary lane where there is no helper. A lane that is
/// not the ordinary one is taken back first, where that is safe. The helper is asked
/// to take over only while the ordinary lane is idle. Otherwise the events go to the
/// lane that is in use; a blocked one takes none.
pub proof fn law_delivery_begins_on_the_right_lane(state: InjectedView, events: Seq<InputEvent>)
    ensures
        ({
            let (next, step) = state.send_step(events, SendReplyView::Begin);
            let status = state.elevated->0;
            let helped = state.elevated is Some;
            let direct = state.lane == InputDeliveryLane::Direct;
            let idle = state.keys.len() == 0 && state.buttons.len() == 0
                && !state.native.native_cleanup_pending;
            let drains = status.direct_fallback_safe && status.state
                == InputInjectorState::ReadyPendingIdle;
            &&& next == state
            &&& !helped ==> step == SendStepView::SendNative
            &&& helped && !direct && status.direct_fallback_safe ==> step
                == SendStepView::ProbeLane
            &&& helped && direct && idle ==> step == SendStepView::Activate
            &&& helped && direct && !idle && drains ==> step == SendStepView::SendNative
            &&& helped && direct && !idle && !drains ==> step == SendStepView::CheckLane
            &&& helped && state.lane == InputDeliveryLane::Elevated
                && !status.direct_fallback_safe ==> step == (SendStepView::ApplyElevated {
                num_lock_on: state.native.num_lock_on,
            })
            &&& helped && state.lane == InputDeliveryLane::Blocked
                && !status.direct_fallback_safe ==> step == (SendStepView::Done {
                outcome: SendOutcomeView {
                    committed: 0,
                    remaining: events,
                    error: Some(SendError::ElevatedDeliveryUncertain),
                },
                request_disable: false,
            })
        }),
{
}

/// What was committed counts as delivered, and no more; what remains is handed back.
/// Through the helper the destination's Num Lock is taken over as well.
pub proof fn law_committed_events_are_observed(
    state: InjectedView,
    events: Seq<InputEvent>,
    outcome: SendOutcomeView,
    reason: InputInjectorReason,
    num_lock_on: bool,
)
    requires
        outcome.committed <= events.len(),
    ensures
        ({
            let reply = SendReplyView::Native { outcome, windows_input: state.native };
            let (next, step) = state.send_step(events, reply);
            &&& next == state.observe(events.take(outcome.committed as int))
            &&& step == (SendStepView::Done { outcome, request_disable: false })
        }),
        ({
            let reply = SendReplyView::Applied {
                committed: outcome.committed,
                remaining: outcome.remaining,
                reason,
                destination_num_lock_on: num_lock_on,
            };
            let (next, step) = state.send_step(events, reply);
            &&& next.keys == state.observe(events.take(outcome.committed as int)).keys
            &&& next.buttons == state.observe(events.take(outcome.committed as int)).buttons
            &&& next.lane == state.lane
            &&& !state.native.native_cleanup_pending ==> next.native.num_lock_on == num_lock_on
            &&& state.native.native_cleanup_pending ==> next.native == state.native
            &&& step is Done && step->outcome.committed == outcome.committed
                && step->outcome.remaining == outcome.remaining && !step->request_disable
            &&& step->outcome.error == (if reason == InputInjectorReason::Unspecified {
                None
            } else {
                Some(SendError::InjectorReported(reason))
            })
        }),
{
    lemma_observe_keeps_the_rest(state, events.take(outcome.committed as int));
    let synced = InjectedView { native: state.native.synchronized(num_lock_on), ..state };
    lemma_observe_keeps_the_rest(synced, events.take(outcome.committed as int));
    lemma_observe_ignores_native(state, synced, events.take(outcome.committed as int));
    assert((InjectedView { native: state.native, ..state }) == state);
}

proof fn lemma_observe_keeps_the_rest(state: InjectedView, events: Seq<InputEvent>)
    ensures
        state.observe(events).native == state.native,
        state.observe(events).elevated == state.elevated,
        state.observe(events).lane == state.lane,
    decreases events.len(),
{
    if events.len() > 0 {
        lemma_observe_keeps_the_rest(state, events.drop_last());
    }
}

proof fn lemma_observe_ignores_native(a: InjectedView, b: InjectedView, events: Seq<InputEvent>)
    requires
        a.keys == b.keys,
        a.buttons == b.buttons,
    ensures
        a.observe(events).keys == b.observe(events).keys,
        a.observe(events).buttons == b.observe(events).buttons,
    decreases events.len(),
{
    if events.len() > 0 {
        lemma_observe_ignores_native(a, b, events.drop_last());
    }
}

/// How a delivery goes on once the helper has answered, or the lane was probed.
pub proof fn law_delivery_follows_the_answers(
    state: InjectedView,
    events: Seq<InputEvent>,
    probe: DirectLane,
    error: SendError,
)
    requires
        state.elevated is Some,
    ensures
        state.send_step(
            events,
            SendReplyView::Activation(ElevatedInputActivationResult::Activated),
        ).0.lane == InputDeliveryLane::Elevated,
        state.send_step(
            events,
            SendReplyView::Activation(ElevatedInputActivationResult::Activated),
        ).1 == (SendStepView::ApplyElevated { num_lock_on: state.native.num_lock_on }),
        state.send_step(
            events,
            SendReplyView::Activation(ElevatedInputActivationResult::NotReady),
        ).0 == state,
        state.send_step(
            events,
            SendReplyView::Activation(ElevatedInputActivationResult::Uncertain),
        ).0.lane == InputDeliveryLane::Blocked,
        state.send_step(
            events,
            SendReplyView::Activation(ElevatedInputActivationResult::Uncertain),
        ).1 is Done,
        state.send_step(events, SendReplyView::LaneCheck(None)) == (
            state,
            SendStepView::SendNative,
        ),
        ({
            let (next, step) = state.send_step(events, SendReplyView::LaneCheck(Some(error)));
            next == state && step == (SendStepView::Done {
                outcome: SendOutcomeView { committed: 0, remaining: events, error: Some(error) },
                request_disable: false,
            })
        }),
        ({
            let (next, step) = state.send_step(events, SendReplyView::NotActive);
            &&& next == state
            &&& state.elevated->0.direct_fallback_safe ==> step == SendStepView::ProbeFallbackLane
            &&& !state.elevated->0.direct_fallback_safe ==> step is Done && step->outcome.error
                == Some(SendError::ElevatedDeliveryUncertain) && step->outcome.remaining == events
                && step->outcome.committed == 0
        }),
        ({
            let (next, step) = state.send_step(events, SendReplyView::FallbackLane(probe));
            &&& step == SendStepView::SendNative <==> probe is Available
                && !state.native.native_cleanup_pending
            &&& step != SendStepView::SendNative ==> next == state && step is Done
                && step->outcome.remaining == events && step->outcome.committed == 0
                && step->outcome.error is Some
        }),
        ({
            let (next, step) = state.send_step(events, SendReplyView::Lane(probe));
            &&& step is Done && step->outcome.error is Some ==> next == state || next.lane
                == InputDeliveryLane::Blocked
            &&& probe is Available && !state.native.native_cleanup_pending ==> next.lane
                == InputDeliveryLane::Direct && step == SendStepView::Activate
            &&& !(probe is Available && !state.native.native_cleanup_pending) ==> next == state
                && step is Done && step->outcome.remaining == events && step->outcome.error is Some
        }),
{
}

/// Taking back the ordinary lane leaves nothing held there and knows the destination's
/// Num Lock. It fails where the probe does, or while a Num Lock toggle is to be undone,
/// and then changes nothing.
pub proof fn law_ordinary_lane_is_taken_back_clean(state: InjectedView, probe: DirectLane)
    ensures
        ({
            let next = state.on_direct_lane(probe);
            let free = probe is Available && !state.native.native_cleanup_pending;
            &&& state.direct_lane_error(probe) is None <==> free
            &&& probe matches DirectLane::Refused(error) ==> state.direct_lane_error(probe) == Some(
                error,
            )
            &&& probe is Available && !free ==> state.direct_lane_error(probe) == Some(
                SendError::NativeCleanupPending,
            )
            &&& !free ==> next == state
            &&& free ==> {
                &&& next.lane == InputDeliveryLane::Direct
                &&& next.keys.len() == 0 && next.buttons.len() == 0
                &&& next.native.num_lock_on == probe->num_lock_on
                &&& !next.native.native_cleanup_pending
                &&& next.elevated == state.elevated
            }
        }),
{
}

/// When the helper has to be stopped before anything is released: where it went away
/// without releasing, or where its lane cannot simply be taken back.
pub proof fn law_helper_is_stopped_before_releases(
    state: InjectedView,
    stopped: bool,
    probe: DirectLane,
)
    ensures
        ({
            let status = state.elevated->0;
            let free = probe is Available && !state.native.native_cleanup_pending;
            let direct = state.lane == InputDeliveryLane::Direct;
            &&& state.needs_elevated_cleanup(probe) <==> state.elevated is Some && (
            status.direct_recovery_cleanup_required || (!direct && !(status.direct_fallback_safe
                && free)))
            &&& state.lane_stopped(stopped, probe) <==> state.elevated is None || (stopped && free
                && (status.direct_fallback_safe || status.direct_recovery_cleanup_required))
            &&& state.elevated is Some && !state.lane_stopped(stopped, probe)
                ==> state.after_lane_stop(stopped, probe).lane == InputDeliveryLane::Blocked
                && state.after_lane_stop(stopped, probe).keys == state.keys
                && state.after_lane_stop(stopped, probe).buttons == state.buttons
            &&& state.elevated is Some && state.lane_stopped(stopped, probe)
                ==> state.after_lane_stop(stopped, probe).lane == InputDeliveryLane::Direct
                && state.after_lane_stop(stopped, probe).keys.len() == 0
            &&& state.elevated is None ==> state.after_lane_stop(stopped, probe) == state
            &&& state.after_elevated_cleanup_check(probe) == state
                || state.after_elevated_cleanup_check(probe).lane == InputDeliveryLane::Direct
        }),
{
}

/// Where it is not known what was delivered, every press of the run may have been: it
/// counts as held, and nothing that was held before is forgotten.
pub proof fn law_possible_presses_count_as_held(
    state: InjectedView,
    events: Seq<InputEvent>,
    at: int,
)
    requires
        0 <= at < events.len(),
    ensures
        ({
            let (next, step) = state.send_step(events, SendReplyView::ApplyUncertain);
            &&& next.lane == InputDeliveryLane::Blocked
            &&& step is Done && step->request_disable && step->outcome.committed == 0
                && step->outcome.remaining == events && step->outcome.error == Some(
                SendError::ElevatedDeliveryUncertain,
            )
            &&& forall|b: MouseButton|
                state.buttons.contains(b) || events[at] == button_down(b)
                    ==> #[trigger] next.buttons.contains(b)
            &&& forall|code: u16|
                crate::injected::holds_key(state.keys, code) || crate::injected::presses_key(
                    events[at],
                    code,
                ) ==> #[trigger] crate::injected::holds_key(next.keys, code)
        }),
{
    let downs = events.filter(|e: InputEvent| e.is_down());
    if events[at].is_down() {
        crate::injected::lemma_filter_keeps(events, |e: InputEvent| e.is_down(), at);
        let i = choose|i: int| 0 <= i < downs.len() && downs[i] == events[at];
        crate::injected::lemma_filter_subsequence(events, |e: InputEvent| e.is_down());
        lemma_downs_are_held(state, downs, i);
    } else {
        crate::injected::lemma_filter_subsequence(events, |e: InputEvent| e.is_down());
        lemma_downs_are_held(state, downs, -1);
    }
}

proof fn lemma_downs_are_held(state: InjectedView, downs: Seq<InputEvent>, at: int)
    requires
        -1 <= at < downs.len(),
        forall|i: int| 0 <= i < downs.len() ==> (#[trigger] downs[i]).is_down(),
    ensures
        ({
            let next = state.observe(downs);
            &&& forall|b: MouseButton|
                state.buttons.contains(b) || (at >= 0 && downs[at] == button_down(b))
                    ==> #[trigger] next.buttons.contains(b)
            &&& forall|code: u16|
                crate::injected::holds_key(state.keys, code) || (at >= 0
                    && crate::injected::presses_key(downs[at], code))
                    ==> #[trigger] crate::injected::holds_key(next.keys, code)
        }),
    decreases downs.len(),
{
    if downs.len() > 0 {
        let shorter = downs.drop_last();
        let before = state.observe(shorter);
        let next = state.observe(downs);
        lemma_downs_are_held(
            state,
            shorter,
            if at < shorter.len() {
                at
            } else {
                -1
            },
        );
        assert(downs[downs.len() - 1].is_down());
        assert forall|b: MouseButton|
            state.buttons.contains(b) || (at >= 0 && downs[at] == button_down(b))
            implies #[trigger] next.buttons.contains(b) by {
            if before.buttons.contains(b) {
                let i = choose|i: int| 0 <= i < before.buttons.len() && before.buttons[i] == b;
                assert(next.buttons[i] == b);
            } else {
                assert(next.buttons[before.buttons.len() as int] == b);
            }
        }
        assert forall|code: u16|
            crate::injected::holds_key(state.keys, code) || (at >= 0
                && crate::injected::presses_key(downs[at], code))
            implies #[trigger] crate::injected::holds_key(next.keys, code) by {
            if crate::injected::holds_key(before.keys, code) {
                let i = choose|i: int|
                    0 <= i < before.keys.len() && (#[trigger] before.keys[i]).0 == code;
                assert(next.keys[i].0 == code);
            } else {
                assert(next.keys[before.keys.len() as int].0 == code);
            }
        }
    }
}

/// A press is pressed again with the key and the button that it was, and released
/// likewise; keys come before buttons when they are pressed again.
pub proof fn law_held_input_is_named_exactly(state: InjectedView)
    ensures
        state.held_downs().len() == state.keys.len() + state.buttons.len(),
        forall|i: int|
            0 <= i < state.keys.len() ==> #[trigger] state.held_downs()[i] == (InputEvent::Key {
                scan_code: state.keys[i].0,
                state: crate::input::KeyState::Down,
                semantics: state.keys[i].1,
            }),
        forall|i: int|
            0 <= i < state.buttons.len() ==> #[trigger] state.held_downs()[state.keys.len() + i]
                == (InputEvent::MouseButton {
                button: state.buttons[i],
                state: crate::input::KeyState::Down,
            }),
        forall|b: MouseButton|
            #[trigger] button_up(b) == (InputEvent::MouseButton {
                button: b,
                state: crate::input::KeyState::Up,
            }),
        state.released().keys.len() == 0 && state.released().buttons.len() == 0,
        state.released().native == state.native && state.released().lane == state.lane,
{
}

} // verus!

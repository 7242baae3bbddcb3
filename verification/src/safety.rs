//! Local safety unlocks, and when captured input goes on to the daemon.

use crate::input::InputEvent;
use vstd::prelude::*;

verus! {

/// The most captured events that wait for the daemon's authorization.
pub const INPUT_BROKER_CAPTURE_STAGING_CAP: usize = 4096;

/// Why the platform gave local input free.
#[derive(Debug, Clone, Copy, PartialEq, Eq, Structural)]
pub enum HookControlAction {
    EscapeUnlock,
    LeaseExpiredUnlock,
    DetectorUnavailableUnlock,
}

/// Safety unlocks that the daemon has not taken note of yet.
#[derive(Debug, Clone, Copy, PartialEq, Eq, Structural)]
pub struct SafetyUnlockReconciler {
    pub pending_escape_count: u32,
    pub pending_lease_expired_count: u32,
    pub pending_detector_unavailable_count: u32,
    pub waiting_for_daemon_release: bool,
}

/// `n` more than `count`, as far as a counter goes.
pub open spec fn counted_up(count: u32, n: nat) -> u32 {
    if count + n <= u32::MAX {
        (count + n) as u32
    } else {
        u32::MAX
    }
}

/// How often `action` stands in `actions`.
pub open spec fn occurrences(actions: Seq<HookControlAction>, action: HookControlAction) -> nat
    decreases actions.len(),
{
    if actions.len() == 0 {
        0
    } else {
        occurrences(actions.drop_last(), action) + (if actions.last() == action {
            1nat
        } else {
            0
        })
    }
}

impl Default for SafetyUnlockReconciler {
    fn default() -> (r: SafetyUnlockReconciler)
        ensures
            r == (SafetyUnlockReconciler {
                pending_escape_count: 0,
                pending_lease_expired_count: 0,
                pending_detector_unavailable_count: 0,
                waiting_for_daemon_release: false,
            }),
    {
        SafetyUnlockReconciler {
            pending_escape_count: 0,
            pending_lease_expired_count: 0,
            pending_detector_unavailable_count: 0,
            waiting_for_daemon_release: false,
        }
    }
}

impl SafetyUnlockReconciler {
    pub open spec fn observed(self, actions: Seq<HookControlAction>) -> SafetyUnlockReconciler {
        SafetyUnlockReconciler {
            pending_escape_count: counted_up(
                self.pending_escape_count,
                occurrences(actions, HookControlAction::EscapeUnlock),
            ),
            pending_lease_expired_count: counted_up(
                self.pending_lease_expired_count,
                occurrences(actions, HookControlAction::LeaseExpiredUnlock),
            ),
            pending_detector_unavailable_count: counted_up(
                self.pending_detector_unavailable_count,
                occurrences(actions, HookControlAction::DetectorUnavailableUnlock),
            ),
            waiting_for_daemon_release: self.waiting_for_daemon_release || actions.len() > 0,
        }
    }

    /// A lock that was asked for and neither came about nor was undone by an
    /// action of the platform counts as an unlock of its own.
    pub open spec fn lock_updated(
        self,
        requested_active: bool,
        activated: bool,
        followup: Seq<HookControlAction>,
    ) -> SafetyUnlockReconciler {
        if requested_active && !activated && followup.len() == 0 {
            SafetyUnlockReconciler {
                pending_detector_unavailable_count: counted_up(
                    self.pending_detector_unavailable_count,
                    1,
                ),
                waiting_for_daemon_release: true,
                ..self
            }
        } else {
            self.observed(followup)
        }
    }

    /// Whether the daemon's wish for lock and capture locks local input.
    pub open spec fn lock_wanted(self, daemon_lock: bool, daemon_capture: bool) -> bool {
        !self.waiting_for_daemon_release && daemon_lock && daemon_capture
    }

    pub open spec fn after_wish(self, daemon_lock: bool, daemon_capture: bool) -> SafetyUnlockReconciler {
        SafetyUnlockReconciler {
            waiting_for_daemon_release: self.waiting_for_daemon_release && (daemon_lock
                || daemon_capture),
            ..self
        }
    }

    /// The state after the daemon has wished for lock and capture several times.
    pub open spec fn after_wishes(self, wishes: Seq<(bool, bool)>) -> SafetyUnlockReconciler
        decreases wishes.len(),
    {
        if wishes.len() == 0 {
            self
        } else {
            self.after_wishes(wishes.drop_last()).after_wish(wishes.last().0, wishes.last().1)
        }
    }

    /// Takes note of safety unlocks. Local input then stays free until the
    /// daemon has let go of it.
    pub fn observe(&mut self, actions: Vec<HookControlAction>)
        ensures
            *final(self) == old(self).observed(actions@),
    {
        let ghost before = *self;
        let mut i: usize = 0;
        while i < actions.len()
            invariant
                i <= actions.len(),
                *self == before.observed(actions@.take(i as int)),
            decreases actions.len() - i,
        {
            proof {
                let longer = actions@.take(i + 1);
                assert(longer.drop_last() =~= actions@.take(i as int));
                assert(longer.last() == actions@[i as int]);
            }
            match actions[i] {
                HookControlAction::EscapeUnlock => {
                    self.pending_escape_count = self.pending_escape_count.saturating_add(1);
                },
                HookControlAction::LeaseExpiredUnlock => {
                    self.pending_lease_expired_count =
                    self.pending_lease_expired_count.saturating_add(1);
                },
                HookControlAction::DetectorUnavailableUnlock => {
                    self.pending_detector_unavailable_count =
                    self.pending_detector_unavailable_count.saturating_add(1);
                },
            }
            self.waiting_for_daemon_release = true;
            i = i + 1;
        }
        assert(actions@.take(i as int) =~= actions@);
    }

    /// Takes note of what came of changing the local lock: `activated` says
    /// whether the lock is known to be on.
    pub fn observe_lock_update(
        &mut self,
        requested_active: bool,
        activated: bool,
        followup_actions: Vec<HookControlAction>,
    )
        ensures
            *final(self) == old(self).lock_updated(requested_active, activated, followup_actions@),
    {
        let observed_action = followup_actions.len() > 0;
        self.observe(followup_actions);
        if requested_active && !activated && !observed_action {
            assert(occurrences(followup_actions@, HookControlAction::EscapeUnlock) == 0);
            assert(occurrences(followup_actions@, HookControlAction::LeaseExpiredUnlock) == 0);
            assert(occurrences(followup_actions@, HookControlAction::DetectorUnavailableUnlock)
                == 0);
            self.pending_detector_unavailable_count =
            self.pending_detector_unavailable_count.saturating_add(1);
            self.waiting_for_daemon_release = true;
        }
    }

    /// The unlocks to report: by escape gesture, by expired lease, by a detector
    /// that is not available.
    pub fn report_counts(&self) -> (r: (u32, u32, u32))
        ensures
            r == (
                self.pending_escape_count,
                self.pending_lease_expired_count,
                self.pending_detector_unavailable_count,
            ),
    {
        (
            self.pending_escape_count,
            self.pending_lease_expired_count,
            self.pending_detector_unavailable_count,
        )
    }

    /// The daemon has the report.
    pub fn mark_report_delivered(&mut self)
        ensures
            *final(self) == (SafetyUnlockReconciler {
                pending_escape_count: 0,
                pending_lease_expired_count: 0,
                pending_detector_unavailable_count: 0,
                waiting_for_daemon_release: old(self).waiting_for_daemon_release,
            }),
    {
        self.pending_escape_count = 0;
        self.pending_lease_expired_count = 0;
        self.pending_detector_unavailable_count = 0;
    }

    pub fn should_forward_captured_events(&self) -> (r: bool)
        ensures
            r == !self.waiting_for_daemon_release,
    {
        !self.waiting_for_daemon_release
    }

    /// Whether local input is to be locked. After a safety unlock the daemon's
    /// wish counts for nothing until it has wished for neither lock nor capture.
    pub fn lock_should_be_active(&mut self, daemon_lock: bool, daemon_capture: bool) -> (r: bool)
        ensures
            r == old(self).lock_wanted(daemon_lock, daemon_capture),
            *final(self) == old(self).after_wish(daemon_lock, daemon_capture),
    {
        if self.waiting_for_daemon_release {
            if !daemon_lock && !daemon_capture {
                self.waiting_for_daemon_release = false;
            }
            return false;
        }
        daemon_lock && daemon_capture
    }
}

/// Captured input on its way to the daemon.
#[derive(Debug)]
pub struct BrokerCaptureForwardingGate {
    pub daemon_authorized: bool,
    pub staged_events: Vec<InputEvent>,
    pub dropped_event_count: u64,
}

#[verifier::ext_equal]
pub struct GateView {
    pub authorized: bool,
    pub staged: Seq<InputEvent>,
    pub dropped: u64,
}

impl View for BrokerCaptureForwardingGate {
    type V = GateView;

    open spec fn view(&self) -> GateView {
        GateView {
            authorized: self.daemon_authorized,
            staged: self.staged_events@,
            dropped: self.dropped_event_count,
        }
    }
}

/// What is sent of a poll: captured events, or how far the free pointer moved.
#[derive(Debug)]
pub struct BrokerCaptureBatch {
    pub captured_events: Vec<InputEvent>,
    pub handoff_probe: Option<(i32, i32)>,
}

#[verifier::ext_equal]
pub struct CaptureView {
    pub captured: Seq<InputEvent>,
    pub probe: Option<(i32, i32)>,
}

impl View for BrokerCaptureBatch {
    type V = CaptureView;

    open spec fn view(&self) -> CaptureView {
        CaptureView { captured: self.captured_events@, probe: self.handoff_probe }
    }
}

pub open spec fn clamp_i32(x: int) -> i32 {
    if x > i32::MAX {
        i32::MAX
    } else if x < i32::MIN {
        i32::MIN
    } else {
        x as i32
    }
}

/// How far relative moves take the pointer; each sum stops at the ends of its
/// range.
pub open spec fn moved(events: Seq<InputEvent>) -> (i32, i32)
    decreases events.len(),
{
    if events.len() == 0 {
        (0, 0)
    } else {
        let (x, y) = moved(events.drop_last());
        match events.last() {
            InputEvent::MouseMove { dx, dy } => (clamp_i32(x + dx), clamp_i32(y + dy)),
            _ => (x, y),
        }
    }
}

pub open spec fn clamp_u64(x: int) -> u64 {
    if x > u64::MAX {
        u64::MAX
    } else {
        x as u64
    }
}

impl GateView {
    pub open spec fn wf(self) -> bool {
        self.staged.len() <= INPUT_BROKER_CAPTURE_STAGING_CAP
    }

    /// How many of `count` events still find room.
    pub open spec fn room(self, count: nat) -> nat {
        let free = if self.staged.len() < INPUT_BROKER_CAPTURE_STAGING_CAP {
            (INPUT_BROKER_CAPTURE_STAGING_CAP - self.staged.len()) as nat
        } else {
            0
        };
        if count < free {
            count
        } else {
            free
        }
    }

    pub open spec fn closed(self) -> GateView {
        GateView { authorized: false, staged: Seq::empty(), ..self }
    }

    pub open spec fn with_events(self, events: Seq<InputEvent>) -> GateView {
        GateView {
            staged: self.staged + events.take(self.room(events.len()) as int),
            dropped: clamp_u64(self.dropped + events.len() - self.room(events.len())),
            ..self
        }
    }

    /// What a poll that captured `events` leads to.
    pub open spec fn prepared(
        self,
        events: Seq<InputEvent>,
        lock_active: bool,
        safety_allows: bool,
    ) -> (GateView, CaptureView) {
        if !safety_allows {
            (self.closed(), CaptureView { captured: Seq::empty(), probe: None })
        } else if !lock_active {
            (
                self.closed(),
                CaptureView {
                    captured: Seq::empty(),
                    probe: if moved(events) == (0i32, 0i32) {
                        None
                    } else {
                        Some(moved(events))
                    },
                },
            )
        } else if !self.authorized {
            (self.with_events(events), CaptureView { captured: Seq::empty(), probe: None })
        } else {
            let filled = self.with_events(events);
            (
                GateView { staged: Seq::empty(), ..filled },
                CaptureView { captured: filled.staged, probe: None },
            )
        }
    }
}

fn add_clamped(a: i32, b: i32) -> (r: i32)
    ensures
        r == clamp_i32(a + b),
{
    let sum: i64 = a as i64 + b as i64;
    if sum > 2147483647 {
        2147483647
    } else if sum < -2147483648 {
        -2147483648
    } else {
        sum as i32
    }
}

impl Default for BrokerCaptureForwardingGate {
    fn default() -> (r: BrokerCaptureForwardingGate)
        ensures
            r@ == (GateView { authorized: false, staged: Seq::empty(), dropped: 0 }),
            r@.wf(),
    {
        BrokerCaptureForwardingGate {
            daemon_authorized: false,
            staged_events: Vec::new(),
            dropped_event_count: 0,
        }
    }
}

impl BrokerCaptureForwardingGate {
    pub open spec fn wf(&self) -> bool {
        self@.wf()
    }

    /// Takes the events of a poll. They leave only under the lock and with the
    /// daemon's authorization; until then a bounded number of them waits, and
    /// the rest is counted as dropped. Without the lock only the sum of the
    /// pointer's moves is told.
    pub fn prepare_batch(
        &mut self,
        observed_events: Vec<InputEvent>,
        lock_active: bool,
        safety_allows_forwarding: bool,
    ) -> (r: BrokerCaptureBatch)
        ensures
            (final(self)@, r@) == old(self)@.prepared(
                observed_events@,
                lock_active,
                safety_allows_forwarding,
            ),
            old(self).wf() ==> final(self).wf(),
    {
        let ghost before = self@;
        if !safety_allows_forwarding {
            self.daemon_authorized = false;
            self.staged_events.clear();
            return BrokerCaptureBatch { captured_events: Vec::new(), handoff_probe: None };
        }
        if !lock_active {
            self.daemon_authorized = false;
            self.staged_events.clear();
            let mut x: i32 = 0;
            let mut y: i32 = 0;
            let mut i: usize = 0;
            while i < observed_events.len()
                invariant
                    i <= observed_events.len(),
                    (x, y) == moved(observed_events@.take(i as int)),
                decreases observed_events.len() - i,
            {
                proof {
                    let longer = observed_events@.take(i + 1);
                    assert(longer.drop_last() =~= observed_events@.take(i as int));
                    assert(longer.last() == observed_events@[i as int]);
                }
                match observed_events[i] {
                    InputEvent::MouseMove { dx, dy } => {
                        x = add_clamped(x, dx);
                        y = add_clamped(y, dy);
                    },
                    _ => {},
                }
                i = i + 1;
            }
            assert(observed_events@.take(i as int) =~= observed_events@);
            let handoff_probe = if x != 0 || y != 0 {
                Some((x, y))
            } else {
                None
            };
            return BrokerCaptureBatch { captured_events: Vec::new(), handoff_probe };
        }
        let count: usize = observed_events.len();
        let staged: usize = self.staged_events.len();
        let available: usize = if staged < INPUT_BROKER_CAPTURE_STAGING_CAP {
            INPUT_BROKER_CAPTURE_STAGING_CAP - staged
        } else {
            0
        };
        let accepted: usize = if count < available {
            count
        } else {
            available
        };
        let mut i: usize = 0;
        while i < accepted
            invariant
                i <= accepted <= observed_events.len(),
                self@ == (GateView { staged: before.staged + observed_events@.take(i as int), ..before
                }),
            decreases accepted - i,
        {
            self.staged_events.push(observed_events[i]);
            i = i + 1;
            assert(before.staged + observed_events@.take(i as int) =~= (before.staged
                + observed_events@.take(i - 1)).push(observed_events@[i - 1]));
        }
        let dropped: u64 = (count - accepted) as u64;
        self.dropped_event_count = self.dropped_event_count.saturating_add(dropped);
        assert(self@ =~= before.with_events(observed_events@));
        if !self.daemon_authorized {
            return BrokerCaptureBatch { captured_events: Vec::new(), handoff_probe: None };
        }
        let mut captured_events: Vec<InputEvent> = Vec::new();
        std::mem::swap(&mut captured_events, &mut self.staged_events);
        BrokerCaptureBatch { captured_events, handoff_probe: None }
    }

    /// Takes the daemon's word on forwarding. Without the lock, or after a
    /// safety unlock, what was waiting is thrown away.
    pub fn observe_daemon_authorization(
        &mut self,
        daemon_authorized: bool,
        lock_active: bool,
        safety_allows_forwarding: bool,
    )
        ensures
            final(self)@ == (GateView {
                authorized: daemon_authorized && lock_active && safety_allows_forwarding,
                staged: if lock_active && safety_allows_forwarding {
                    old(self)@.staged
                } else {
                    Seq::empty()
                },
                ..old(self)@
            }),
            old(self).wf() ==> final(self).wf(),
    {
        self.daemon_authorized = daemon_authorized && lock_active && safety_allows_forwarding;
        if !lock_active || !safety_allows_forwarding {
            self.staged_events.clear();
        }
    }

    /// How many events were dropped since this was last asked.
    pub fn take_dropped_event_count(&mut self) -> (r: u64)
        ensures
            r == old(self)@.dropped,
            final(self)@ == (GateView { dropped: 0, ..old(self)@ }),
    {
        let dropped: u64 = self.dropped_event_count;
        self.dropped_event_count = 0;
        dropped
    }
}

/// After a safety unlock nothing locks local input again until the daemon has
/// let go of both lock and capture, however often it asks, and nothing that is
/// captured meanwhile is forwarded; then it is as before.
pub proof fn law_safety_unlock_holds_until_daemon_release(
    reconciler: SafetyUnlockReconciler,
    actions: Seq<HookControlAction>,
    wishes: Seq<(bool, bool)>,
)
    requires
        actions.len() > 0,
        forall|i: int| 0 <= i < wishes.len() ==> (#[trigger] wishes[i]).0 || wishes[i].1,
    ensures
        ({
            let unlocked = reconciler.observed(actions).after_wishes(wishes);
            &&& unlocked.waiting_for_daemon_release
            &&& !unlocked.lock_wanted(true, true)
            &&& unlocked.after_wish(false, false).lock_wanted(true, true)
        }),
    decreases wishes.len(),
{
    if wishes.len() > 0 {
        law_safety_unlock_holds_until_daemon_release(reconciler, actions, wishes.drop_last());
    }
}

/// A lock that was refused counts as a safety unlock.
pub proof fn law_refused_lock_is_a_safety_unlock(
    reconciler: SafetyUnlockReconciler,
    followup: Seq<HookControlAction>,
)
    ensures
        reconciler.lock_updated(true, false, followup).waiting_for_daemon_release,
{
}

/// Captured events go on to the daemon only under the lock, with the daemon's
/// authorization and no safety unlock; then they leave in the order in which
/// they came, and nothing waits behind them.
pub proof fn law_captured_events_need_lock_and_authorization(
    gate: GateView,
    events: Seq<InputEvent>,
    lock_active: bool,
    safety_allows: bool,
)
    requires
        gate.wf(),
    ensures
        ({
            let (next, batch) = gate.prepared(events, lock_active, safety_allows);
            &&& batch.captured.len() > 0 ==> gate.authorized && lock_active && safety_allows
            &&& gate.authorized && lock_active && safety_allows ==> batch.captured == gate.staged
                + events.take(gate.room(events.len()) as int) && next.staged.len() == 0
            &&& !(lock_active && safety_allows) ==> next.staged.len() == 0 && !next.authorized
            &&& batch.captured.len() <= INPUT_BROKER_CAPTURE_STAGING_CAP
            &&& next.wf()
        }),
{
}

/// The sum of the sideways moves of the pointer.
pub open spec fn total_dx(events: Seq<InputEvent>) -> int
    decreases events.len(),
{
    if events.len() == 0 {
        0
    } else {
        total_dx(events.drop_last()) + (match events.last() {
            InputEvent::MouseMove { dx, .. } => dx as int,
            _ => 0,
        })
    }
}

/// The sum of the up and down moves of the pointer.
pub open spec fn total_dy(events: Seq<InputEvent>) -> int
    decreases events.len(),
{
    if events.len() == 0 {
        0
    } else {
        total_dy(events.drop_last()) + (match events.last() {
            InputEvent::MouseMove { dy, .. } => dy as int,
            _ => 0,
        })
    }
}

/// The sums of moves add up over two runs of events; a single move counts as it is, and
/// any other event not at all.
pub proof fn law_moves_add_up(a: Seq<InputEvent>, b: Seq<InputEvent>, dx: i32, dy: i32)
    ensures
        total_dx(a + b) == total_dx(a) + total_dx(b),
        total_dy(a + b) == total_dy(a) + total_dy(b),
        total_dx(seq![InputEvent::MouseMove { dx, dy }]) == dx,
        total_dy(seq![InputEvent::MouseMove { dx, dy }]) == dy,
        forall|e: InputEvent|
            #![trigger seq![e]]
            !(e is MouseMove) ==> total_dx(seq![e]) == 0 && total_dy(seq![e]) == 0,
    decreases b.len(),
{
    let single = seq![InputEvent::MouseMove { dx, dy }];
    assert(single.drop_last() =~= Seq::empty());
    assert(total_dx(Seq::<InputEvent>::empty()) == 0 && total_dy(Seq::<InputEvent>::empty()) == 0);
    assert forall|e: InputEvent| #![trigger seq![e]] !(e is MouseMove) implies total_dx(seq![e])
        == 0 && total_dy(seq![e]) == 0 by {
        assert(seq![e].drop_last() =~= Seq::empty());
    }
    if b.len() == 0 {
        assert(a + b =~= a);
    } else {
        law_moves_add_up(a, b.drop_last(), dx, dy);
        assert((a + b).drop_last() =~= a + b.drop_last());
    }
}

/// No sum on the way leaves the range of a move.
pub open spec fn sums_stay_in_range(events: Seq<InputEvent>) -> bool {
    forall|n: int|
        #![trigger events.take(n)]
        0 <= n <= events.len() ==> i32::MIN <= total_dx(events.take(n)) <= i32::MAX && i32::MIN
            <= total_dy(events.take(n)) <= i32::MAX
}

proof fn lemma_moved_is_the_sum(events: Seq<InputEvent>)
    requires
        sums_stay_in_range(events),
    ensures
        moved(events).0 == total_dx(events),
        moved(events).1 == total_dy(events),
    decreases events.len(),
{
    assert(events.take(events.len() as int) =~= events);
    if events.len() > 0 {
        let shorter = events.drop_last();
        assert forall|n: int| #![trigger shorter.take(n)] 0 <= n <= shorter.len() implies i32::MIN
            <= total_dx(shorter.take(n)) <= i32::MAX && i32::MIN <= total_dy(shorter.take(n))
            <= i32::MAX by {
            assert(shorter.take(n) =~= events.take(n));
        }
        lemma_moved_is_the_sum(shorter);
    }
}

/// Without the lock the daemon is told how far the pointer moved in a poll: the sums of
/// all its moves, and nothing where both are zero. No event goes out.
pub proof fn law_probe_is_the_sum_of_the_moves(gate: GateView, events: Seq<InputEvent>)
    requires
        sums_stay_in_range(events),
    ensures
        ({
            let (next, batch) = gate.prepared(events, false, true);
            &&& batch.probe is None <==> total_dx(events) == 0 && total_dy(events) == 0
            &&& batch.probe matches Some((dx, dy)) ==> dx == total_dx(events) && dy == total_dy(
                events,
            )
            &&& batch.captured.len() == 0
            &&& next.dropped == gate.dropped
        }),
{
    lemma_moved_is_the_sum(events);
}

/// Under the lock the events of a poll queue up behind those that wait, up to 4096 of
/// them; what finds no room is counted. With the daemon's authorization the whole queue
/// goes out, without it all of it waits; no move is told. After a safety unlock nothing
/// goes out and nothing is told.
pub proof fn law_captured_events_queue_up(gate: GateView, events: Seq<InputEvent>)
    requires
        gate.wf(),
        gate.dropped + events.len() <= u64::MAX,
    ensures
        ({
            let (next, batch) = gate.prepared(events, true, true);
            let all = gate.staged + events;
            let kept = if all.len() < 4096 {
                all.len() as int
            } else {
                4096
            };
            &&& batch.probe is None
            &&& gate.authorized ==> batch.captured == all.take(kept) && next.staged.len() == 0
            &&& !gate.authorized ==> batch.captured.len() == 0 && next.staged == all.take(kept)
            &&& next.dropped == gate.dropped + all.len() - kept
            &&& next.authorized == gate.authorized
        }),
        forall|lock: bool|
            ({
                let (next, batch) = #[trigger] gate.prepared(events, lock, false);
                &&& batch.probe is None && batch.captured.len() == 0 && next.staged.len() == 0
                &&& !next.authorized && next.dropped == gate.dropped
            }),
{
    let (next, batch) = gate.prepared(events, true, true);
    let all = gate.staged + events;
    let kept = if all.len() < 4096 {
        all.len() as int
    } else {
        4096
    };
    assert(gate.staged + events.take(gate.room(events.len()) as int) =~= all.take(kept));
}

/// Safety unlocks are counted each in its own counter, whether they are told together
/// or one after the other.
pub proof fn law_unlocks_are_counted_by_kind(
    reconciler: SafetyUnlockReconciler,
    a: Seq<HookControlAction>,
    b: Seq<HookControlAction>,
)
    ensures
        reconciler.observed(a + b) == reconciler.observed(a).observed(b),
        reconciler.observed(Seq::empty()) == reconciler,
        ({
            let next = reconciler.observed(seq![HookControlAction::EscapeUnlock]);
            &&& reconciler.pending_escape_count < u32::MAX ==> next.pending_escape_count
                == reconciler.pending_escape_count + 1
            &&& next.pending_lease_expired_count == reconciler.pending_lease_expired_count
            &&& next.pending_detector_unavailable_count
                == reconciler.pending_detector_unavailable_count
            &&& next.waiting_for_daemon_release
        }),
        ({
            let next = reconciler.observed(seq![HookControlAction::LeaseExpiredUnlock]);
            &&& reconciler.pending_lease_expired_count < u32::MAX
                ==> next.pending_lease_expired_count == reconciler.pending_lease_expired_count + 1
            &&& next.pending_escape_count == reconciler.pending_escape_count
            &&& next.pending_detector_unavailable_count
                == reconciler.pending_detector_unavailable_count
            &&& next.waiting_for_daemon_release
        }),
        ({
            let next = reconciler.observed(seq![HookControlAction::DetectorUnavailableUnlock]);
            &&& reconciler.pending_detector_unavailable_count < u32::MAX
                ==> next.pending_detector_unavailable_count
                == reconciler.pending_detector_unavailable_count + 1
            &&& next.pending_escape_count == reconciler.pending_escape_count
            &&& next.pending_lease_expired_count == reconciler.pending_lease_expired_count
            &&& next.waiting_for_daemon_release
        }),
{
    lemma_occurrences_add_up(a, b, HookControlAction::EscapeUnlock);
    lemma_occurrences_add_up(a, b, HookControlAction::LeaseExpiredUnlock);
    lemma_occurrences_add_up(a, b, HookControlAction::DetectorUnavailableUnlock);
    reveal_with_fuel(occurrences, 2);
    assert(seq![HookControlAction::EscapeUnlock].drop_last() =~= Seq::empty());
    assert(seq![HookControlAction::LeaseExpiredUnlock].drop_last() =~= Seq::empty());
    assert(seq![HookControlAction::DetectorUnavailableUnlock].drop_last() =~= Seq::empty());
    assert(occurrences(Seq::empty(), HookControlAction::EscapeUnlock) == 0);
    assert(occurrences(Seq::empty(), HookControlAction::LeaseExpiredUnlock) == 0);
    assert(occurrences(Seq::empty(), HookControlAction::DetectorUnavailableUnlock) == 0);
}

proof fn lemma_occurrences_add_up(
    a: Seq<HookControlAction>,
    b: Seq<HookControlAction>,
    action: HookControlAction,
)
    ensures
        occurrences(a + b, action) == occurrences(a, action) + occurrences(b, action),
    decreases b.len(),
{
    if b.len() == 0 {
        assert(a + b =~= a);
    } else {
        lemma_occurrences_add_up(a, b.drop_last(), action);
        assert((a + b).drop_last() =~= a + b.drop_last());
    }
}

/// Without a safety unlock local input is locked exactly where the daemon wishes both
/// lock and capture. Wishes change no counter, and a lock that came about changes
/// nothing; one that was refused without a reason of the platform counts as an unlock
/// for want of a detector.
pub proof fn law_lock_follows_the_daemon(
    reconciler: SafetyUnlockReconciler,
    lock: bool,
    capture: bool,
    activated: bool,
)
    ensures
        !reconciler.waiting_for_daemon_release ==> reconciler.lock_wanted(lock, capture) == (lock
            && capture),
        reconciler.waiting_for_daemon_release ==> !reconciler.lock_wanted(lock, capture),
        ({
            let next = reconciler.after_wish(lock, capture);
            &&& next.pending_escape_count == reconciler.pending_escape_count
            &&& next.pending_lease_expired_count == reconciler.pending_lease_expired_count
            &&& next.pending_detector_unavailable_count
                == reconciler.pending_detector_unavailable_count
            &&& next.waiting_for_daemon_release == (reconciler.waiting_for_daemon_release && (lock
                || capture))
        }),
        reconciler.lock_updated(false, activated, Seq::empty()) == reconciler,
        reconciler.lock_updated(true, true, Seq::empty()) == reconciler,
        reconciler.lock_updated(true, false, Seq::empty()) == reconciler.observed(
            seq![HookControlAction::DetectorUnavailableUnlock],
        ),
        forall|requested: bool, some: Seq<HookControlAction>|
            some.len() > 0 ==> #[trigger] reconciler.lock_updated(requested, activated, some)
                == reconciler.observed(some),
{
    law_unlocks_are_counted_by_kind(reconciler, Seq::empty(), Seq::empty());
    reveal_with_fuel(occurrences, 2);
    let one = seq![HookControlAction::DetectorUnavailableUnlock];
    assert(one.drop_last() =~= Seq::empty());
    assert(occurrences(one, HookControlAction::DetectorUnavailableUnlock) == 1);
    assert(occurrences(one, HookControlAction::EscapeUnlock) == 0);
    assert(occurrences(one, HookControlAction::LeaseExpiredUnlock) == 0);
}

/// A move that does not fit is cut off at the end of its range, a count at its last.
pub proof fn law_values_are_cut_off_at_their_range(x: int, count: u32, n: nat)
    ensures
        i32::MIN <= x <= i32::MAX ==> clamp_i32(x) == x,
        x > i32::MAX ==> clamp_i32(x) == 0x7fff_ffff,
        x < i32::MIN ==> clamp_i32(x) == -0x8000_0000,
        0 <= x <= u64::MAX ==> clamp_u64(x) == x,
        x > u64::MAX ==> clamp_u64(x) == 0xffff_ffff_ffff_ffff,
        count + n <= u32::MAX ==> counted_up(count, n) == count + n,
        count + n > u32::MAX ==> counted_up(count, n) == 0xffff_ffff,
{
}

} // verus!

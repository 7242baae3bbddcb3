//! Input events, and what became of a run of events handed to an input lane.

use vstd::prelude::*;

verus! {

#[derive(Debug, Clone, Copy, PartialEq, Eq, Structural)]
pub enum KeyState {
    Down,
    Up,
}

/// What a key press means at its source.
#[derive(Debug, Clone, Copy, PartialEq, Eq, Structural)]
pub enum KeySemantics {
    /// Only the physical position of the key is known.
    Physical,
    /// The source reported a virtual key, and whether Num Lock was on.
    Windows { virtual_key: u16, num_lock_on: bool },
}

#[derive(Debug, Clone, Copy, PartialEq, Eq, Structural)]
pub enum MouseButton {
    Left,
    Right,
    Middle,
    X1,
    X2,
}

#[derive(Debug, Clone, Copy, PartialEq, Eq, Structural)]
pub enum InputEvent {
    Key { scan_code: u16, state: KeyState, semantics: KeySemantics },
    MouseButton { button: MouseButton, state: KeyState },
    MouseMove { dx: i32, dy: i32 },
    MouseMoveAbsolute { x: i32, y: i32 },
    MouseWheel { delta_x: i32, delta_y: i32 },
}

impl InputEvent {
    /// A key or a button that goes down.
    pub open spec fn is_down(self) -> bool {
        match self {
            InputEvent::Key { state, .. } => state == KeyState::Down,
            InputEvent::MouseButton { state, .. } => state == KeyState::Down,
            _ => false,
        }
    }
}

/// Why a run of events was not delivered to its end.
#[derive(Debug, Clone, Copy, PartialEq, Eq, Structural)]
pub enum SendError {
    /// It is not known what the elevated helper delivered.
    ElevatedDeliveryUncertain,
    /// The elevated helper still owns the interactive input lane.
    LaneOwnedByHelper,
    /// The interactive input lane could not be probed.
    LaneProbeFailed,
    /// The destination's Num Lock could not be read.
    NumLockRefreshFailed,
    /// The ordinary lane still had to undo a Num Lock toggle of its own.
    NativeCleanupPending,
    /// The elevated helper reported a reason.
    InjectorReported(crate::elevated::InputInjectorReason),
    /// The ordinary lane failed.
    Native,
}

/// What became of a run of events: how many were committed, what is still to
/// be delivered, and what stopped the delivery.
#[derive(Debug)]
pub struct InputSendOutcome {
    pub committed_event_count: usize,
    pub remaining_events: Vec<InputEvent>,
    pub error: Option<SendError>,
}

/// The mathematical view of an outcome.
pub struct SendOutcomeView {
    pub committed: nat,
    pub remaining: Seq<InputEvent>,
    pub error: Option<SendError>,
}

impl View for InputSendOutcome {
    type V = SendOutcomeView;

    open spec fn view(&self) -> SendOutcomeView {
        SendOutcomeView {
            committed: self.committed_event_count as nat,
            remaining: self.remaining_events@,
            error: self.error,
        }
    }
}

impl SendOutcomeView {
    /// Nothing was committed and everything is still to be delivered.
    pub open spec fn refused(events: Seq<InputEvent>, error: SendError) -> SendOutcomeView {
        SendOutcomeView { committed: 0, remaining: events, error: Some(error) }
    }

    pub open spec fn uncertain(self) -> bool {
        self.error == Some(SendError::ElevatedDeliveryUncertain)
    }
}

/// A copy of a run of events.
pub fn copy_events(events: &[InputEvent]) -> (r: Vec<InputEvent>)
    ensures
        r@ == events@,
{
    let mut out: Vec<InputEvent> = Vec::new();
    let mut i: usize = 0;
    while i < events.len()
        invariant
            i <= events.len(),
            out@ == events@.take(i as int),
        decreases events.len() - i,
    {
        out.push(events[i]);
        i = i + 1;
        assert(events@.take(i as int) =~= events@.take(i - 1).push(events@[i - 1]));
    }
    assert(events@.take(i as int) =~= events@);
    out
}

/// Whether `event` stands in `events`.
pub fn holds_event(events: &Vec<InputEvent>, event: InputEvent) -> (r: bool)
    ensures
        r == events@.contains(event),
{
    let mut i: usize = 0;
    while i < events.len()
        invariant
            i <= events.len(),
            forall|j: int| 0 <= j < i ==> events@[j] != event,
        decreases events.len() - i,
    {
        if events[i] == event {
            return true;
        }
        i = i + 1;
    }
    false
}

/// The outcome of events that no lane took.
pub fn refused_outcome(events: &[InputEvent], error: SendError) -> (r: InputSendOutcome)
    ensures
        r@ == SendOutcomeView::refused(events@, error),
{
    InputSendOutcome {
        committed_event_count: 0,
        remaining_events: copy_events(events),
        error: Some(error),
    }
}

/// The outcome of events of which it is not known whether the elevated helper
/// delivered them.
pub fn uncertain_elevated_input_outcome(events: &[InputEvent]) -> (r: InputSendOutcome)
    ensures
        r@ == SendOutcomeView::refused(events@, SendError::ElevatedDeliveryUncertain),
        r@.uncertain(),
{
    refused_outcome(events, SendError::ElevatedDeliveryUncertain)
}

/// Only keys and buttons go down.
pub proof fn law_only_keys_and_buttons_go_down(event: InputEvent)
    ensures
        event.is_down() <==> (event is Key && event->Key_state == KeyState::Down) || (
        event is MouseButton && event->MouseButton_state == KeyState::Down),
{
}

} // verus!

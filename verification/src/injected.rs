//! What the broker has injected and still holds down, and the lane that the
//! next events go through.

use crate::elevated::{
    ready_helper_allows_direct_drain, ElevatedInputActivationResult, ElevatedInputApplyResult,
    ElevatedInputControllerStatus, InputInjectorReason, InputInjectorState, StatusView,
};
use crate::input::{
    refused_outcome, uncertain_elevated_input_outcome, InputEvent, InputSendOutcome,
    KeySemantics, KeyState, MouseButton, SendError, SendOutcomeView,
};
use vstd::prelude::*;

verus! {

/// The ordinary input lane's own state.
#[derive(Debug, Clone, Copy, PartialEq, Eq, Structural)]
pub struct WindowsInputState {
    /// Num Lock at the destination, as far as it is known.
    pub num_lock_on: bool,
    /// A Num Lock toggle of the lane itself still has to be undone.
    pub native_cleanup_pending: bool,
}

impl WindowsInputState {
    pub fn new(num_lock_on: bool) -> (r: WindowsInputState)
        ensures
            r == (WindowsInputState { num_lock_on, native_cleanup_pending: false }),
    {
        WindowsInputState { num_lock_on, native_cleanup_pending: false }
    }

    pub fn has_pending_native_cleanup(&self) -> (r: bool)
        ensures
            r == self.native_cleanup_pending,
    {
        self.native_cleanup_pending
    }

    /// Takes over the destination's Num Lock, unless a toggle of the lane itself
    /// is still to be undone: whether it was taken over.
    pub fn synchronize_num_lock_if_native_idle(&mut self, num_lock_on: bool) -> (r: bool)
        ensures
            r == !old(self).native_cleanup_pending,
            *final(self) == old(self).synchronized(num_lock_on),
    {
        if self.native_cleanup_pending {
            return false;
        }
        self.num_lock_on = num_lock_on;
        true
    }

    pub open spec fn synchronized(self, num_lock_on: bool) -> WindowsInputState {
        if self.native_cleanup_pending {
            self
        } else {
            WindowsInputState { num_lock_on, ..self }
        }
    }
}

#[derive(Debug, Clone, Copy, PartialEq, Eq, Structural)]
pub enum InputDeliveryLane {
    Direct,
    Elevated,
    Blocked,
}

/// What a probe of the ordinary lane found: why it cannot be used, or the
/// destination's Num Lock.
#[derive(Debug, Clone, Copy, PartialEq, Eq, Structural)]
pub enum DirectLane {
    Refused(SendError),
    Available { num_lock_on: bool },
}

/// What the broker has injected and still holds down.
#[derive(Debug)]
pub struct InjectedInputState {
    pub windows_input: WindowsInputState,
    pub pressed_keys: Vec<(u16, KeySemantics)>,
    pub pressed_buttons: Vec<MouseButton>,
    /// The status of the elevated helper's controller, as it was last read;
    /// without one there is only the ordinary lane.
    pub elevated_controller: Option<ElevatedInputControllerStatus>,
    pub delivery_lane: InputDeliveryLane,
}

/// The mathematical view of the injected input.
#[verifier::ext_equal]
pub struct InjectedView {
    pub native: WindowsInputState,
    pub keys: Seq<(u16, KeySemantics)>,
    pub buttons: Seq<MouseButton>,
    pub elevated: Option<StatusView>,
    pub lane: InputDeliveryLane,
}

impl View for InjectedInputState {
    type V = InjectedView;

    open spec fn view(&self) -> InjectedView {
        InjectedView {
            native: self.windows_input,
            keys: self.pressed_keys@,
            buttons: self.pressed_buttons@,
            elevated: match self.elevated_controller {
                Some(status) => Some(status@),
                None => None,
            },
            lane: self.delivery_lane,
        }
    }
}

/// `key` is held down.
pub open spec fn holds_key(keys: Seq<(u16, KeySemantics)>, key: u16) -> bool {
    exists|i: int| 0 <= i < keys.len() && (#[trigger] keys[i]).0 == key
}

pub open spec fn key_down(key: (u16, KeySemantics)) -> InputEvent {
    InputEvent::Key { scan_code: key.0, state: KeyState::Down, semantics: key.1 }
}

pub open spec fn key_up(key: (u16, KeySemantics)) -> InputEvent {
    InputEvent::Key { scan_code: key.0, state: KeyState::Up, semantics: key.1 }
}

pub open spec fn button_down(button: MouseButton) -> InputEvent {
    InputEvent::MouseButton { button, state: KeyState::Down }
}

pub open spec fn button_up(button: MouseButton) -> InputEvent {
    InputEvent::MouseButton { button, state: KeyState::Up }
}

/// The order in which buttons are released.
pub open spec fn button_order() -> Seq<MouseButton> {
    seq![
        MouseButton::Left,
        MouseButton::Right,
        MouseButton::Middle,
        MouseButton::X1,
        MouseButton::X2,
    ]
}

/// `key` put into `keys`, which are in the order of their scan codes.
pub open spec fn key_inserted(
    keys: Seq<(u16, KeySemantics)>,
    key: (u16, KeySemantics),
) -> Seq<(u16, KeySemantics)>
    decreases keys.len(),
{
    if keys.len() == 0 || keys.last().0 <= key.0 {
        keys.push(key)
    } else {
        key_inserted(keys.drop_last(), key).push(keys.last())
    }
}

/// `keys` in the order of their scan codes.
pub open spec fn keys_sorted(keys: Seq<(u16, KeySemantics)>) -> Seq<(u16, KeySemantics)>
    decreases keys.len(),
{
    if keys.len() == 0 {
        keys
    } else {
        key_inserted(keys_sorted(keys.drop_last()), keys.last())
    }
}

impl InjectedView {
    /// No key and no button is listed twice.
    pub open spec fn wf(self) -> bool {
        &&& forall|i: int, j: int|
            0 <= i < j < self.keys.len() ==> (#[trigger] self.keys[i]).0 != (
            #[trigger] self.keys[j]).0
        &&& self.buttons.no_duplicates()
    }

    pub open spec fn idle(native: WindowsInputState) -> InjectedView {
        InjectedView {
            native,
            keys: Seq::empty(),
            buttons: Seq::empty(),
            elevated: None,
            lane: InputDeliveryLane::Direct,
        }
    }

    /// What a single delivered event changes. The first press of a key stands
    /// until the key is released.
    pub open spec fn observe_event(self, event: InputEvent) -> InjectedView {
        match event {
            InputEvent::Key { scan_code, state, semantics } => match state {
                KeyState::Down => if holds_key(self.keys, scan_code) {
                    self
                } else {
                    InjectedView { keys: self.keys.push((scan_code, semantics)), ..self }
                },
                KeyState::Up => InjectedView {
                    keys: self.keys.filter(|k: (u16, KeySemantics)| k.0 != scan_code),
                    ..self
                },
            },
            InputEvent::MouseButton { button, state } => match state {
                KeyState::Down => if self.buttons.contains(button) {
                    self
                } else {
                    InjectedView { buttons: self.buttons.push(button), ..self }
                },
                KeyState::Up => InjectedView {
                    buttons: self.buttons.filter(|b: MouseButton| b != button),
                    ..self
                },
            },
            _ => self,
        }
    }

    /// What a run of delivered events changes.
    pub open spec fn observe(self, events: Seq<InputEvent>) -> InjectedView
        decreases events.len(),
    {
        if events.len() == 0 {
            self
        } else {
            self.observe(events.drop_last()).observe_event(events.last())
        }
    }

    /// What a run of events may have pressed that perhaps was delivered.
    pub open spec fn observe_possible_downs(self, events: Seq<InputEvent>) -> InjectedView {
        self.observe(events.filter(|e: InputEvent| e.is_down()))
    }

    /// What an attempt to deliver `events` changes: its committed prefix counts.
    pub open spec fn observe_outcome(
        self,
        events: Seq<InputEvent>,
        outcome: SendOutcomeView,
    ) -> InjectedView {
        self.observe(
            events.take(
                if outcome.committed < events.len() {
                    outcome.committed as int
                } else {
                    events.len() as int
                },
            ),
        )
    }

    /// The events that press again what is held: keys before buttons, each in
    /// the order of the first presses.
    pub open spec fn held_downs(self) -> Seq<InputEvent> {
        self.keys.map_values(|k: (u16, KeySemantics)| key_down(k)) + self.buttons.map_values(
            |b: MouseButton| button_down(b),
        )
    }

    /// The events that release what is held: buttons before keys.
    pub open spec fn releases(self) -> Seq<InputEvent> {
        button_order().filter(|b: MouseButton| self.buttons.contains(b)).map_values(
            |b: MouseButton| button_up(b),
        ) + keys_sorted(self.keys).map_values(|k: (u16, KeySemantics)| key_up(k))
    }

    pub open spec fn released(self) -> InjectedView {
        InjectedView { keys: Seq::empty(), buttons: Seq::empty(), ..self }
    }

    pub open spec fn elevated_status(self) -> StatusView {
        match self.elevated {
            Some(status) => status,
            None => StatusView::off(),
        }
    }

    /// Why the ordinary lane cannot be taken, if it cannot.
    pub open spec fn direct_lane_error(self, probe: DirectLane) -> Option<SendError> {
        match probe {
            DirectLane::Refused(error) => Some(error),
            DirectLane::Available { .. } => if self.native.native_cleanup_pending {
                Some(SendError::NativeCleanupPending)
            } else {
                None
            },
        }
    }

    pub open spec fn on_direct_lane(self, probe: DirectLane) -> InjectedView {
        match probe {
            DirectLane::Refused(_) => self,
            DirectLane::Available { num_lock_on } => if self.native.native_cleanup_pending {
                self
            } else {
                InjectedView {
                    native: self.native.synchronized(num_lock_on),
                    lane: InputDeliveryLane::Direct,
                    ..self.released()
                }
            },
        }
    }

    pub open spec fn blocked(self) -> InjectedView {
        InjectedView { lane: InputDeliveryLane::Blocked, ..self }
    }

    /// A cleanup has to take the helper's lane back before it releases anything.
    pub open spec fn needs_elevated_cleanup(self, probe: DirectLane) -> bool {
        match self.elevated {
            None => false,
            Some(status) => {
                ||| status.direct_recovery_cleanup_required
                ||| self.lane != InputDeliveryLane::Direct && !(status.direct_fallback_safe
                    && self.direct_lane_error(probe) is None)
            },
        }
    }

    pub open spec fn after_elevated_cleanup_check(self, probe: DirectLane) -> InjectedView {
        match self.elevated {
            Some(status) if !status.direct_recovery_cleanup_required && self.lane
                != InputDeliveryLane::Direct && status.direct_fallback_safe => self.on_direct_lane(
                probe,
            ),
            _ => self,
        }
    }

    /// A stopped helper's lane is back, so that releases can be sent.
    pub open spec fn lane_stopped(self, stopped: bool, probe: DirectLane) -> bool {
        match self.elevated {
            None => true,
            Some(status) => stopped && (status.direct_fallback_safe
                || status.direct_recovery_cleanup_required) && self.direct_lane_error(probe)
                is None,
        }
    }

    pub open spec fn after_lane_stop(self, stopped: bool, probe: DirectLane) -> InjectedView {
        if self.elevated is None {
            self
        } else if self.lane_stopped(stopped, probe) {
            self.on_direct_lane(probe)
        } else {
            self.blocked()
        }
    }
}

proof fn lemma_filter_step<A>(s: Seq<A>, p: spec_fn(A) -> bool, i: int)
    requires
        0 <= i < s.len(),
    ensures
        s.take(i + 1).filter(p) == (if p(s[i]) {
            s.take(i).filter(p).push(s[i])
        } else {
            s.take(i).filter(p)
        }),
{
    reveal(Seq::filter);
    assert(s.take(i + 1).drop_last() =~= s.take(i));
}

proof fn lemma_key_inserted_at(keys: Seq<(u16, KeySemantics)>, key: (u16, KeySemantics), at: int)
    requires
        0 <= at <= keys.len(),
        at > 0 ==> keys[at - 1].0 <= key.0,
        forall|i: int| at <= i < keys.len() ==> (#[trigger] keys[i]).0 > key.0,
    ensures
        key_inserted(keys, key) == keys.insert(at, key),
    decreases keys.len(),
{
    if at < keys.len() {
        lemma_key_inserted_at(keys.drop_last(), key, at);
        assert(keys.drop_last().insert(at, key).push(keys.last()) =~= keys.insert(at, key));
    } else {
        assert(keys.push(key) =~= keys.insert(at, key));
    }
}

/// `keys` in the order of their scan codes.
fn sort_keys(keys: &Vec<(u16, KeySemantics)>) -> (r: Vec<(u16, KeySemantics)>)
    ensures
        r@ == keys_sorted(keys@),
{
    let mut out: Vec<(u16, KeySemantics)> = Vec::new();
    let mut i: usize = 0;
    while i < keys.len()
        invariant
            i <= keys.len(),
            out@ == keys_sorted(keys@.take(i as int)),
        decreases keys.len() - i,
    {
        let key = keys[i];
        let mut at: usize = out.len();
        while at > 0 && out[at - 1].0 > key.0
            invariant
                at <= out.len(),
                forall|j: int| at <= j < out.len() ==> (#[trigger] out@[j]).0 > key.0,
            decreases at,
        {
            at = at - 1;
        }
        proof {
            lemma_key_inserted_at(out@, key, at as int);
            assert(keys@.take(i + 1).drop_last() =~= keys@.take(i as int));
        }
        out.insert(at, key);
        i = i + 1;
    }
    assert(keys@.take(i as int) =~= keys@);
    out
}

fn holds_button(buttons: &Vec<MouseButton>, button: MouseButton) -> (r: bool)
    ensures
        r == buttons@.contains(button),
{
    let mut i: usize = 0;
    while i < buttons.len()
        invariant
            i <= buttons.len(),
            forall|j: int| 0 <= j < i ==> buttons@[j] != button,
        decreases buttons.len() - i,
    {
        if buttons[i] == button {
            return true;
        }
        i = i + 1;
    }
    false
}

/// The button that is released at place `i`.
fn button_at(i: usize) -> (r: MouseButton)
    requires
        i < 5,
    ensures
        r == button_order()[i as int],
{
    if i == 0 {
        MouseButton::Left
    } else if i == 1 {
        MouseButton::Right
    } else if i == 2 {
        MouseButton::Middle
    } else if i == 3 {
        MouseButton::X1
    } else {
        MouseButton::X2
    }
}

impl InjectedInputState {
    pub open spec fn wf(&self) -> bool {
        self@.wf()
    }

    /// Nothing is held, and there is only the ordinary lane.
    pub fn new(num_lock_on: bool) -> (r: InjectedInputState)
        ensures
            r@ == InjectedView::idle(
                (WindowsInputState { num_lock_on, native_cleanup_pending: false }),
            ),
            r.wf(),
    {
        InjectedInputState::with_windows_input(WindowsInputState::new(num_lock_on))
    }

    pub fn with_windows_input(windows_input: WindowsInputState) -> (r: InjectedInputState)
        ensures
            r@ == InjectedView::idle(windows_input),
            r.wf(),
    {
        InjectedInputState {
            windows_input,
            pressed_keys: Vec::new(),
            pressed_buttons: Vec::new(),
            elevated_controller: None,
            delivery_lane: InputDeliveryLane::Direct,
        }
    }

    /// Nothing is held. Until the helper is known to have left the lane alone,
    /// nothing is delivered.
    pub fn with_elevated_controller(
        num_lock_on: bool,
        elevated_controller: ElevatedInputControllerStatus,
    ) -> (r: InjectedInputState)
        ensures
            r@ == (InjectedView {
                elevated: Some(elevated_controller@),
                lane: if elevated_controller@.direct_fallback_safe {
                    InputDeliveryLane::Direct
                } else {
                    InputDeliveryLane::Blocked
                },
                ..InjectedView::idle(
                    (WindowsInputState { num_lock_on, native_cleanup_pending: false }),
                )
            }),
            r.wf(),
    {
        let delivery_lane = if elevated_controller.direct_fallback_safe {
            InputDeliveryLane::Direct
        } else {
            InputDeliveryLane::Blocked
        };
        InjectedInputState {
            windows_input: WindowsInputState::new(num_lock_on),
            pressed_keys: Vec::new(),
            pressed_buttons: Vec::new(),
            elevated_controller: Some(elevated_controller),
            delivery_lane,
        }
    }

    /// The helper's status; without a controller, that of a helper that is off.
    pub fn elevated_status(&self) -> (r: ElevatedInputControllerStatus)
        ensures
            r@ == self@.elevated_status(),
    {
        match &self.elevated_controller {
            Some(status) => status.clone(),
            None => ElevatedInputControllerStatus::default(),
        }
    }

    /// Takes over a newly read status of the helper.
    pub fn refresh_elevated_status(&mut self, status: ElevatedInputControllerStatus)
        ensures
            final(self)@ == (InjectedView {
                elevated: if old(self)@.elevated is Some {
                    Some(status@)
                } else {
                    None
                },
                ..old(self)@
            }),
    {
        if self.elevated_controller.is_some() {
            self.elevated_controller = Some(status);
        }
    }

    pub fn clear_observed_input(&mut self)
        ensures
            final(self)@ == old(self)@.released(),
            final(self).wf(),
    {
        self.pressed_keys.clear();
        self.pressed_buttons.clear();
        assert(self@ =~= old(self)@.released());
    }

    fn observe_event(&mut self, event: InputEvent)
        ensures
            final(self)@ == old(self)@.observe_event(event),
    {
        let ghost before = self@;
        match event {
            InputEvent::Key { scan_code, state, semantics } => match state {
                KeyState::Down => {
                    let mut held = false;
                    let mut i: usize = 0;
                    while i < self.pressed_keys.len()
                        invariant
                            i <= self.pressed_keys.len(),
                            self@ == before,
                            held ==> holds_key(self.pressed_keys@, scan_code),
                            !held ==> forall|j: int|
                                0 <= j < i ==> (#[trigger] self.pressed_keys@[j]).0 != scan_code,
                        decreases self.pressed_keys.len() - i,
                    {
                        if self.pressed_keys[i].0 == scan_code {
                            assert(self.pressed_keys@[i as int].0 == scan_code);
                            held = true;
                        }
                        i = i + 1;
                    }
                    if !held {
                        assert(!holds_key(self.pressed_keys@, scan_code));
                        self.pressed_keys.push((scan_code, semantics));
                    }
                    assert(self@ =~= before.observe_event(event));
                },
                KeyState::Up => {
                    let ghost keep = |k: (u16, KeySemantics)| k.0 != scan_code;
                    let mut kept: Vec<(u16, KeySemantics)> = Vec::new();
                    let mut i: usize = 0;
                    assert(self.pressed_keys@.take(0).filter(keep) =~= Seq::empty()) by {
                        reveal(Seq::filter);
                    }
                    while i < self.pressed_keys.len()
                        invariant
                            i <= self.pressed_keys.len(),
                            self@ == before,
                            keep == (|k: (u16, KeySemantics)| k.0 != scan_code),
                            kept@ == self.pressed_keys@.take(i as int).filter(keep),
                        decreases self.pressed_keys.len() - i,
                    {
                        let key = self.pressed_keys[i];
                        proof {
                            lemma_filter_step(self.pressed_keys@, keep, i as int);
                        }
                        if key.0 != scan_code {
                            kept.push(key);
                        }
                        i = i + 1;
                    }
                    assert(self.pressed_keys@.take(i as int) =~= self.pressed_keys@);
                    self.pressed_keys = kept;
                    assert(self@ =~= before.observe_event(event));
                },
            },
            InputEvent::MouseButton { button, state } => match state {
                KeyState::Down => {
                    if !holds_button(&self.pressed_buttons, button) {
                        self.pressed_buttons.push(button);
                    }
                    assert(self@ =~= before.observe_event(event));
                },
                KeyState::Up => {
                    let ghost keep = |b: MouseButton| b != button;
                    let mut kept: Vec<MouseButton> = Vec::new();
                    let mut i: usize = 0;
                    assert(self.pressed_buttons@.take(0).filter(keep) =~= Seq::empty()) by {
                        reveal(Seq::filter);
                    }
                    while i < self.pressed_buttons.len()
                        invariant
                            i <= self.pressed_buttons.len(),
                            self@ == before,
                            keep == (|b: MouseButton| b != button),
                            kept@ == self.pressed_buttons@.take(i as int).filter(keep),
                        decreases self.pressed_buttons.len() - i,
                    {
                        let held = self.pressed_buttons[i];
                        proof {
                            lemma_filter_step(self.pressed_buttons@, keep, i as int);
                        }
                        if held != button {
                            kept.push(held);
                        }
                        i = i + 1;
                    }
                    assert(self.pressed_buttons@.take(i as int) =~= self.pressed_buttons@);
                    self.pressed_buttons = kept;
                    assert(self@ =~= before.observe_event(event));
                },
            },
            _ => {},
        }
    }

    /// Takes note of events that were delivered.
    pub fn observe(&mut self, events: &[InputEvent])
        ensures
            final(self)@ == old(self)@.observe(events@),
            old(self).wf() ==> final(self).wf(),
    {
        self.observe_first(events, events.len());
        assert(events@.take(events@.len() as int) =~= events@);
    }

    /// Takes note of the first `count` events, which were delivered.
    fn observe_first(&mut self, events: &[InputEvent], count: usize)
        requires
            count <= events.len(),
        ensures
            final(self)@ == old(self)@.observe(events@.take(count as int)),
            old(self).wf() ==> final(self).wf(),
    {
        let ghost before = self@;
        let mut i: usize = 0;
        while i < count
            invariant
                i <= count <= events.len(),
                self@ == before.observe(events@.take(i as int)),
            decreases count - i,
        {
            self.observe_event(events[i]);
            proof {
                let longer = events@.take(i + 1);
                assert(longer.drop_last() =~= events@.take(i as int));
                assert(longer.last() == events@[i as int]);
            }
            i = i + 1;
        }
        proof {
            if before.wf() {
                law_observe_keeps_held_input_unique(before, events@.take(count as int));
            }
        }
    }

    /// Takes note of the presses among events that perhaps were delivered.
    pub fn observe_possible_downs(&mut self, events: &[InputEvent])
        ensures
            final(self)@ == old(self)@.observe_possible_downs(events@),
            old(self).wf() ==> final(self).wf(),
    {
        let ghost before = self@;
        let ghost down = |e: InputEvent| e.is_down();
        let mut i: usize = 0;
        assert(events@.take(0).filter(down) =~= Seq::empty()) by {
            reveal(Seq::filter);
        }
        while i < events.len()
            invariant
                i <= events.len(),
                down == (|e: InputEvent| e.is_down()),
                self@ == before.observe(events@.take(i as int).filter(down)),
            decreases events.len() - i,
        {
            let event = events[i];
            proof {
                lemma_filter_step(events@, down, i as int);
                let shorter = events@.take(i as int).filter(down);
                if event.is_down() {
                    assert(shorter.push(event).drop_last() =~= shorter);
                }
            }
            let pressed = match event {
                InputEvent::Key { state, .. } => state == KeyState::Down,
                InputEvent::MouseButton { state, .. } => state == KeyState::Down,
                _ => false,
            };
            if pressed {
                self.observe_event(event);
            }
            i = i + 1;
        }
        assert(events@.take(i as int) =~= events@);
        proof {
            if before.wf() {
                law_observe_keeps_held_input_unique(before, events@.filter(down));
            }
        }
    }

    /// The events that press again what is held: keys before buttons, so that a
    /// modifier is effective again before a drag or a click goes on.
    pub fn held_down_events(&self) -> (r: Vec<InputEvent>)
        ensures
            r@ == self@.held_downs(),
            r@.len() == 0 <==> self@.keys.len() == 0 && self@.buttons.len() == 0,
    {
        let mut held: Vec<InputEvent> = Vec::new();
        let ghost keys = self@.keys.map_values(|k: (u16, KeySemantics)| key_down(k));
        let ghost buttons = self@.buttons.map_values(|b: MouseButton| button_down(b));
        let mut i: usize = 0;
        while i < self.pressed_keys.len()
            invariant
                i <= self.pressed_keys.len(),
                keys == self.pressed_keys@.map_values(|k: (u16, KeySemantics)| key_down(k)),
                held@ == keys.take(i as int),
            decreases self.pressed_keys.len() - i,
        {
            let (scan_code, semantics) = self.pressed_keys[i];
            held.push(InputEvent::Key { scan_code, state: KeyState::Down, semantics });
            i = i + 1;
            assert(keys.take(i as int) =~= keys.take(i - 1).push(keys[i - 1]));
        }
        assert(keys.take(i as int) =~= keys);
        let mut j: usize = 0;
        assert(held@ =~= keys + buttons.take(0));
        while j < self.pressed_buttons.len()
            invariant
                j <= self.pressed_buttons.len(),
                buttons == self.pressed_buttons@.map_values(|b: MouseButton| button_down(b)),
                held@ == keys + buttons.take(j as int),
            decreases self.pressed_buttons.len() - j,
        {
            held.push(
                InputEvent::MouseButton { button: self.pressed_buttons[j], state: KeyState::Down },
            );
            j = j + 1;
            assert(keys + buttons.take(j as int) =~= (keys + buttons.take(j - 1)).push(
                buttons[j - 1],
            ));
        }
        assert(buttons.take(j as int) =~= buttons);
        held
    }

    /// Whether anything is held.
    pub fn holds_input(&self) -> (r: bool)
        ensures
            r == (self@.held_downs().len() > 0),
    {
        self.pressed_keys.len() > 0 || self.pressed_buttons.len() > 0
    }

    /// The events that release what is held: buttons in a fixed order, then
    /// keys by scan code, each key with the meaning of its first press.
    pub fn release_events_snapshot(&self) -> (r: Vec<InputEvent>)
        requires
            self.wf(),
        ensures
            r@ == self@.releases(),
    {
        let mut releases: Vec<InputEvent> = Vec::new();
        let ghost held = |b: MouseButton| self@.buttons.contains(b);
        let ghost order = button_order();
        let ghost up = |b: MouseButton| button_up(b);
        let mut i: usize = 0;
        assert(order.take(0).filter(held).map_values(up) =~= Seq::empty()) by {
            reveal(Seq::filter);
        }
        while i < 5
            invariant
                i <= 5,
                order == button_order(),
                held == (|b: MouseButton| self@.buttons.contains(b)),
                up == (|b: MouseButton| button_up(b)),
                releases@ == order.take(i as int).filter(held).map_values(up),
            decreases 5 - i,
        {
            let button = button_at(i);
            proof {
                lemma_filter_step(order, held, i as int);
                let shorter = order.take(i as int).filter(held);
                assert(shorter.push(button).map_values(up) =~= shorter.map_values(up).push(
                    button_up(button),
                ));
            }
            if holds_button(&self.pressed_buttons, button) {
                releases.push(InputEvent::MouseButton { button, state: KeyState::Up });
            }
            i = i + 1;
        }
        assert(order.take(5) =~= order);
        let sorted = sort_keys(&self.pressed_keys);
        let ghost keys = sorted@.map_values(|k: (u16, KeySemantics)| key_up(k));
        let ghost buttons = releases@;
        let mut j: usize = 0;
        assert(releases@ =~= buttons + keys.take(0));
        while j < sorted.len()
            invariant
                j <= sorted.len(),
                keys == sorted@.map_values(|k: (u16, KeySemantics)| key_up(k)),
                releases@ == buttons + keys.take(j as int),
            decreases sorted.len() - j,
        {
            let (scan_code, semantics) = sorted[j];
            releases.push(InputEvent::Key { scan_code, state: KeyState::Up, semantics });
            j = j + 1;
            assert(buttons + keys.take(j as int) =~= (buttons + keys.take(j - 1)).push(
                keys[j - 1],
            ));
        }
        assert(keys.take(j as int) =~= keys);
        releases
    }

    /// The events that release what is held, which then is held no more.
    pub fn drain_release_events(&mut self) -> (r: Vec<InputEvent>)
        requires
            old(self).wf(),
        ensures
            r@ == old(self)@.releases(),
            final(self)@ == old(self)@.released(),
            final(self).wf(),
    {
        let releases = self.release_events_snapshot();
        self.clear_observed_input();
        releases
    }

    /// Moves to the ordinary lane: what the helper held is not held by this
    /// lane, so the record of held input starts empty.
    pub fn switch_to_direct_lane(&mut self, probe: DirectLane) -> (r: Result<(), SendError>)
        ensures
            match r {
                Ok(_) => old(self)@.direct_lane_error(probe) is None,
                Err(error) => old(self)@.direct_lane_error(probe) == Some(error),
            },
            final(self)@ == old(self)@.on_direct_lane(probe),
            old(self).wf() ==> final(self).wf(),
    {
        match probe {
            DirectLane::Refused(error) => Err(error),
            DirectLane::Available { num_lock_on } => {
                if !self.windows_input.synchronize_num_lock_if_native_idle(num_lock_on) {
                    return Err(SendError::NativeCleanupPending);
                }
                self.clear_observed_input();
                self.delivery_lane = InputDeliveryLane::Direct;
                Ok(())
            },
        }
    }

    /// Whether a cleanup has to stop the helper first. Where the helper is
    /// known to have left the lane alone, the ordinary lane is taken at once.
    pub fn elevated_cleanup_controller(&mut self, probe: DirectLane) -> (r: bool)
        ensures
            r == old(self)@.needs_elevated_cleanup(probe),
            final(self)@ == old(self)@.after_elevated_cleanup_check(probe),
            old(self).wf() ==> final(self).wf(),
    {
        let (recovery_required, fallback_safe) = match &self.elevated_controller {
            None => {
                return false;
            },
            Some(status) => (status.direct_recovery_cleanup_required, status.direct_fallback_safe),
        };
        if recovery_required {
            return true;
        }
        if self.delivery_lane == InputDeliveryLane::Direct {
            return false;
        }
        if fallback_safe {
            return self.switch_to_direct_lane(probe).is_err();
        }
        true
    }

    /// Takes the result of stopping the helper, with the helper's status read
    /// after it: whether the ordinary lane is back. If not, nothing goes out.
    pub fn stop_elevated_lane_for_cleanup(&mut self, stopped: bool, probe: DirectLane) -> (r: bool)
        ensures
            r == old(self)@.lane_stopped(stopped, probe),
            final(self)@ == old(self)@.after_lane_stop(stopped, probe),
            old(self).wf() ==> final(self).wf(),
            r && old(self)@.elevated is Some ==> final(self)@.lane == InputDeliveryLane::Direct,
    {
        let cleanup_ready = match &self.elevated_controller {
            None => {
                return true;
            },
            Some(status) => status.direct_fallback_safe || status.direct_recovery_cleanup_required,
        };
        if stopped && cleanup_ready {
            if self.switch_to_direct_lane(probe).is_ok() {
                return true;
            }
        }
        self.delivery_lane = InputDeliveryLane::Blocked;
        false
    }
}

/// Takes note of the committed prefix of an attempt to deliver `events`.
pub fn observe_injected_input_outcome(
    events: &[InputEvent],
    injected_state: &mut InjectedInputState,
    outcome: InputSendOutcome,
) -> (r: InputSendOutcome)
    ensures
        r == outcome,
        final(injected_state)@ == old(injected_state)@.observe_outcome(events@, outcome@),
        old(injected_state).wf() ==> final(injected_state).wf(),
{
    let committed: usize = if outcome.committed_event_count < events.len() {
        outcome.committed_event_count
    } else {
        events.len()
    };
    injected_state.observe_first(events, committed);
    outcome
}

/// What the tray learned since the last step of a delivery.
#[derive(Debug)]
pub enum SendReply {
    /// The delivery begins.
    Begin,
    /// The probe that was asked for before the ordinary lane is taken.
    Lane(DirectLane),
    /// The helper's answer to an activation.
    Activation(ElevatedInputActivationResult),
    /// Why the ordinary lane may not be used now, if it may not.
    LaneCheck(Option<SendError>),
    /// What the ordinary lane delivered, and its own state after that.
    Native { outcome: InputSendOutcome, windows_input: WindowsInputState },
    /// The helper's answer to the events.
    Applied(ElevatedInputApplyResult),
    /// The probe that was asked for after the helper was found inactive.
    FallbackLane(DirectLane),
}

/// What a delivery does next.
#[derive(Debug)]
pub enum SendStep {
    /// Probe the ordinary lane, to take it.
    ProbeLane,
    /// Ask the helper to become active.
    Activate,
    /// Check that the ordinary lane may be used.
    CheckLane,
    /// Hand the events to the ordinary lane.
    SendNative,
    /// Hand the events to the helper.
    ApplyElevated { num_lock_on: bool },
    /// Probe the ordinary lane, as the helper is not active.
    ProbeFallbackLane,
    /// The delivery is over; the helper may have to be asked to stop.
    Done { outcome: InputSendOutcome, request_disable: bool },
}

pub enum SendReplyView {
    Begin,
    Lane(DirectLane),
    Activation(ElevatedInputActivationResult),
    LaneCheck(Option<SendError>),
    Native { outcome: SendOutcomeView, windows_input: WindowsInputState },
    Applied {
        committed: nat,
        remaining: Seq<InputEvent>,
        reason: InputInjectorReason,
        destination_num_lock_on: bool,
    },
    NotActive,
    ApplyUncertain,
    FallbackLane(DirectLane),
}

pub enum SendStepView {
    ProbeLane,
    Activate,
    CheckLane,
    SendNative,
    ApplyElevated { num_lock_on: bool },
    ProbeFallbackLane,
    Done { outcome: SendOutcomeView, request_disable: bool },
}

impl View for SendReply {
    type V = SendReplyView;

    open spec fn view(&self) -> SendReplyView {
        match self {
            SendReply::Begin => SendReplyView::Begin,
            SendReply::Lane(probe) => SendReplyView::Lane(*probe),
            SendReply::Activation(result) => SendReplyView::Activation(*result),
            SendReply::LaneCheck(error) => SendReplyView::LaneCheck(*error),
            SendReply::Native { outcome, windows_input } => SendReplyView::Native {
                outcome: outcome@,
                windows_input: *windows_input,
            },
            SendReply::Applied(ElevatedInputApplyResult::NotActive) => SendReplyView::NotActive,
            SendReply::Applied(ElevatedInputApplyResult::Uncertain) =>
                SendReplyView::ApplyUncertain,
            SendReply::Applied(
                ElevatedInputApplyResult::Applied {
                    committed_event_count,
                    remaining_events,
                    reason,
                    destination_num_lock_on,
                },
            ) => SendReplyView::Applied {
                committed: *committed_event_count as nat,
                remaining: remaining_events@,
                reason: *reason,
                destination_num_lock_on: *destination_num_lock_on,
            },
            SendReply::FallbackLane(probe) => SendReplyView::FallbackLane(*probe),
        }
    }
}

impl View for SendStep {
    type V = SendStepView;

    open spec fn view(&self) -> SendStepView {
        match self {
            SendStep::ProbeLane => SendStepView::ProbeLane,
            SendStep::Activate => SendStepView::Activate,
            SendStep::CheckLane => SendStepView::CheckLane,
            SendStep::SendNative => SendStepView::SendNative,
            SendStep::ApplyElevated { num_lock_on } => SendStepView::ApplyElevated {
                num_lock_on: *num_lock_on,
            },
            SendStep::ProbeFallbackLane => SendStepView::ProbeFallbackLane,
            SendStep::Done { outcome, request_disable } => SendStepView::Done {
                outcome: outcome@,
                request_disable: *request_disable,
            },
        }
    }
}

impl SendStepView {
    pub open spec fn refused(events: Seq<InputEvent>, error: SendError) -> SendStepView {
        SendStepView::Done {
            outcome: SendOutcomeView::refused(events, error),
            request_disable: false,
        }
    }

    pub open spec fn uncertain(events: Seq<InputEvent>) -> SendStepView {
        SendStepView::refused(events, SendError::ElevatedDeliveryUncertain)
    }
}

impl InjectedView {
    /// The ordinary lane is idle, so the helper may take over.
    pub open spec fn may_activate(self) -> bool {
        &&& self.lane == InputDeliveryLane::Direct
        &&& self.held_downs().len() == 0
        &&& !self.native.native_cleanup_pending
    }

    /// The step that hands the events to the current lane.
    pub open spec fn dispatch(self, events: Seq<InputEvent>) -> SendStepView {
        match self.lane {
            InputDeliveryLane::Direct => if self.elevated_status().direct_fallback_safe
                && self.elevated_status().state == InputInjectorState::ReadyPendingIdle {
                SendStepView::SendNative
            } else {
                SendStepView::CheckLane
            },
            InputDeliveryLane::Elevated => SendStepView::ApplyElevated {
                num_lock_on: self.native.num_lock_on,
            },
            InputDeliveryLane::Blocked => SendStepView::uncertain(events),
        }
    }

    /// The step after the lane is settled.
    pub open spec fn activate_or_dispatch(self, events: Seq<InputEvent>) -> SendStepView {
        if self.may_activate() {
            SendStepView::Activate
        } else {
            self.dispatch(events)
        }
    }

    /// One step of a delivery of `events`: the state after it, and what to do next.
    pub open spec fn send_step(self, events: Seq<InputEvent>, reply: SendReplyView) -> (
        InjectedView,
        SendStepView,
    ) {
        match reply {
            SendReplyView::Begin => if self.elevated is None {
                (self, SendStepView::SendNative)
            } else if self.lane != InputDeliveryLane::Direct
                && self.elevated_status().direct_fallback_safe {
                (self, SendStepView::ProbeLane)
            } else {
                (self, self.activate_or_dispatch(events))
            },
            SendReplyView::Lane(probe) => match self.direct_lane_error(probe) {
                Some(error) => (self, SendStepView::refused(events, error)),
                None => (
                    self.on_direct_lane(probe),
                    self.on_direct_lane(probe).activate_or_dispatch(events),
                ),
            },
            SendReplyView::Activation(ElevatedInputActivationResult::Activated) => {
                let active = InjectedView { lane: InputDeliveryLane::Elevated, ..self };
                (active, active.dispatch(events))
            },
            SendReplyView::Activation(ElevatedInputActivationResult::NotReady) => (
                self,
                self.dispatch(events),
            ),
            SendReplyView::Activation(ElevatedInputActivationResult::Uncertain) => (
                self.blocked(),
                SendStepView::uncertain(events),
            ),
            SendReplyView::LaneCheck(Some(error)) => (self, SendStepView::refused(events, error)),
            SendReplyView::LaneCheck(None) => (self, SendStepView::SendNative),
            SendReplyView::Native { outcome, windows_input } => (
                (InjectedView { native: windows_input, ..self }).observe_outcome(events, outcome),
                SendStepView::Done { outcome, request_disable: false },
            ),
            SendReplyView::Applied { committed, remaining, reason, destination_num_lock_on } => {
                let outcome = SendOutcomeView {
                    committed: if committed < events.len() {
                        committed
                    } else {
                        events.len()
                    },
                    remaining,
                    error: if reason == InputInjectorReason::Unspecified {
                        None
                    } else {
                        Some(SendError::InjectorReported(reason))
                    },
                };
                (
                    (InjectedView {
                        native: self.native.synchronized(destination_num_lock_on),
                        ..self
                    }).observe_outcome(events, outcome),
                    SendStepView::Done { outcome, request_disable: false },
                )
            },
            SendReplyView::NotActive => if self.elevated_status().direct_fallback_safe {
                (self, SendStepView::ProbeFallbackLane)
            } else {
                (self, SendStepView::uncertain(events))
            },
            SendReplyView::ApplyUncertain => (
                self.observe_possible_downs(events).blocked(),
                SendStepView::Done {
                    outcome: SendOutcomeView::refused(
                        events,
                        SendError::ElevatedDeliveryUncertain,
                    ),
                    request_disable: true,
                },
            ),
            SendReplyView::FallbackLane(probe) => match self.direct_lane_error(probe) {
                Some(error) => (self, SendStepView::refused(events, error)),
                None => (self.on_direct_lane(probe), SendStepView::SendNative),
            },
        }
    }
}

fn refused_step(events: &[InputEvent], error: SendError) -> (r: SendStep)
    ensures
        r@ == SendStepView::refused(events@, error),
{
    SendStep::Done { outcome: refused_outcome(events, error), request_disable: false }
}

impl InjectedInputState {
    fn dispatch(&self, events: &[InputEvent]) -> (r: SendStep)
        ensures
            r@ == self@.dispatch(events@),
    {
        match self.delivery_lane {
            InputDeliveryLane::Direct => {
                if ready_helper_allows_direct_drain(&self.elevated_status()) {
                    SendStep::SendNative
                } else {
                    SendStep::CheckLane
                }
            },
            InputDeliveryLane::Elevated => SendStep::ApplyElevated {
                num_lock_on: self.windows_input.num_lock_on,
            },
            InputDeliveryLane::Blocked => SendStep::Done {
                outcome: uncertain_elevated_input_outcome(events),
                request_disable: false,
            },
        }
    }

    fn activate_or_dispatch(&self, events: &[InputEvent]) -> (r: SendStep)
        ensures
            r@ == self@.activate_or_dispatch(events@),
    {
        if self.delivery_lane == InputDeliveryLane::Direct && !self.holds_input()
            && !self.windows_input.has_pending_native_cleanup() {
            SendStep::Activate
        } else {
            self.dispatch(events)
        }
    }

    /// One step of a delivery of `events`. The tray performs each step that is
    /// asked for and calls again with what came of it, until the step is `Done`;
    /// the helper's status is refreshed before each call.
    pub fn send_events(&mut self, events: &[InputEvent], reply: SendReply) -> (r: SendStep)
        ensures
            (final(self)@, r@) == old(self)@.send_step(events@, reply@),
            old(self).wf() ==> final(self).wf(),
    {
        match reply {
            SendReply::Begin => {
                let fallback_safe = match &self.elevated_controller {
                    None => {
                        return SendStep::SendNative;
                    },
                    Some(status) => status.direct_fallback_safe,
                };
                if self.delivery_lane != InputDeliveryLane::Direct && fallback_safe {
                    return SendStep::ProbeLane;
                }
                self.activate_or_dispatch(events)
            },
            SendReply::Lane(probe) => {
                match self.switch_to_direct_lane(probe) {
                    Err(error) => refused_step(events, error),
                    Ok(_) => self.activate_or_dispatch(events),
                }
            },
            SendReply::Activation(result) => {
                match result {
                    ElevatedInputActivationResult::Activated => {
                        self.delivery_lane = InputDeliveryLane::Elevated;
                        self.dispatch(events)
                    },
                    ElevatedInputActivationResult::NotReady => self.dispatch(events),
                    ElevatedInputActivationResult::Uncertain => {
                        self.delivery_lane = InputDeliveryLane::Blocked;
                        SendStep::Done {
                            outcome: uncertain_elevated_input_outcome(events),
                            request_disable: false,
                        }
                    },
                }
            },
            SendReply::LaneCheck(checked) => {
                match checked {
                    Some(error) => refused_step(events, error),
                    None => SendStep::SendNative,
                }
            },
            SendReply::Native { outcome, windows_input } => {
                self.windows_input = windows_input;
                let outcome = observe_injected_input_outcome(events, self, outcome);
                SendStep::Done { outcome, request_disable: false }
            },
            SendReply::Applied(result) => {
                match result {
                    ElevatedInputApplyResult::Applied {
                        committed_event_count,
                        remaining_events,
                        reason,
                        destination_num_lock_on,
                    } => {
                        let _ = self.windows_input.synchronize_num_lock_if_native_idle(
                            destination_num_lock_on,
                        );
                        let committed: usize = if committed_event_count < events.len() {
                            committed_event_count
                        } else {
                            events.len()
                        };
                        let outcome = InputSendOutcome {
                            committed_event_count: committed,
                            remaining_events,
                            error: if reason == InputInjectorReason::Unspecified {
                                None
                            } else {
                                Some(SendError::InjectorReported(reason))
                            },
                        };
                        let outcome = observe_injected_input_outcome(events, self, outcome);
                        SendStep::Done { outcome, request_disable: false }
                    },
                    ElevatedInputApplyResult::NotActive => {
                        if self.elevated_status().direct_fallback_safe {
                            SendStep::ProbeFallbackLane
                        } else {
                            SendStep::Done {
                                outcome: uncertain_elevated_input_outcome(events),
                                request_disable: false,
                            }
                        }
                    },
                    ElevatedInputApplyResult::Uncertain => {
                        self.observe_possible_downs(events);
                        self.delivery_lane = InputDeliveryLane::Blocked;
                        SendStep::Done {
                            outcome: uncertain_elevated_input_outcome(events),
                            request_disable: true,
                        }
                    },
                }
            },
            SendReply::FallbackLane(probe) => {
                match self.switch_to_direct_lane(probe) {
                    Err(error) => refused_step(events, error),
                    Ok(_) => SendStep::SendNative,
                }
            },
        }
    }
}

pub proof fn lemma_filter_subsequence<A>(s: Seq<A>, p: spec_fn(A) -> bool)
    ensures
        forall|i: int| 0 <= i < s.filter(p).len() ==> s.contains(#[trigger] s.filter(p)[i]) && p(
            s.filter(p)[i],
        ),
    decreases s.len(),
{
    reveal(Seq::filter);
    if s.len() > 0 {
        let shorter = s.drop_last();
        lemma_filter_subsequence(shorter, p);
        assert forall|i: int| 0 <= i < s.filter(p).len() implies s.contains(
            #[trigger] s.filter(p)[i],
        ) && p(s.filter(p)[i]) by {
            if i < shorter.filter(p).len() {
                assert(shorter.contains(shorter.filter(p)[i]));
                let k = choose|k: int|
                    0 <= k < shorter.len() && shorter[k] == shorter.filter(p)[i];
                assert(s[k] == shorter[k]);
            } else {
                assert(s[s.len() - 1] == s.filter(p)[i]);
            }
        }
    }
}

proof fn lemma_filter_keys_wf(keys: Seq<(u16, KeySemantics)>, p: spec_fn((u16, KeySemantics)) -> bool)
    requires
        forall|i: int, j: int|
            0 <= i < j < keys.len() ==> (#[trigger] keys[i]).0 != (#[trigger] keys[j]).0,
    ensures
        forall|i: int, j: int|
            0 <= i < j < keys.filter(p).len() ==> (#[trigger] keys.filter(p)[i]).0 != (
            #[trigger] keys.filter(p)[j]).0,
    decreases keys.len(),
{
    reveal(Seq::filter);
    if keys.len() > 0 {
        let shorter = keys.drop_last();
        lemma_filter_keys_wf(shorter, p);
        lemma_filter_subsequence(shorter, p);
        assert forall|i: int, j: int| 0 <= i < j < keys.filter(p).len() implies (
        #[trigger] keys.filter(p)[i]).0 != (#[trigger] keys.filter(p)[j]).0 by {
            if j == shorter.filter(p).len() {
                assert(shorter.contains(shorter.filter(p)[i]));
                let k = choose|k: int|
                    0 <= k < shorter.len() && shorter[k] == shorter.filter(p)[i];
                assert(keys[k].0 != keys[keys.len() - 1].0);
            }
        }
    }
}

proof fn lemma_filter_no_duplicates<A>(s: Seq<A>, p: spec_fn(A) -> bool)
    requires
        s.no_duplicates(),
    ensures
        s.filter(p).no_duplicates(),
    decreases s.len(),
{
    reveal(Seq::filter);
    if s.len() > 0 {
        let shorter = s.drop_last();
        lemma_filter_no_duplicates(shorter, p);
        lemma_filter_subsequence(shorter, p);
        assert forall|i: int, j: int|
            0 <= i < s.filter(p).len() && 0 <= j < s.filter(p).len() && i
                != j implies s.filter(p)[i] != s.filter(p)[j] by {
            let last = shorter.filter(p).len();
            if i == last {
                assert(shorter.contains(shorter.filter(p)[j]));
            } else if j == last {
                assert(shorter.contains(shorter.filter(p)[i]));
            }
        }
    }
}

/// However many presses and releases are delivered, no key and no button is
/// listed as held twice.
pub proof fn law_observe_keeps_held_input_unique(state: InjectedView, events: Seq<InputEvent>)
    requires
        state.wf(),
    ensures
        state.observe(events).wf(),
    decreases events.len(),
{
    if events.len() > 0 {
        let before = state.observe(events.drop_last());
        law_observe_keeps_held_input_unique(state, events.drop_last());
        match events.last() {
            InputEvent::Key { scan_code, state: KeyState::Up, .. } => {
                lemma_filter_keys_wf(before.keys, |k: (u16, KeySemantics)| k.0 != scan_code);
            },
            InputEvent::MouseButton { button, state: KeyState::Up } => {
                lemma_filter_no_duplicates(before.buttons, |b: MouseButton| b != button);
            },
            _ => {},
        }
    }
}

/// While the helper may still own the lane, a blocked lane delivers nothing and
/// keeps every event: a delivery ends at once, and stays blocked.
pub proof fn law_blocked_lane_delivers_nothing(state: InjectedView, events: Seq<InputEvent>)
    requires
        state.lane == InputDeliveryLane::Blocked,
        state.elevated is Some,
        !state.elevated_status().direct_fallback_safe,
    ensures
        state.send_step(events, SendReplyView::Begin) == (state, SendStepView::uncertain(events)),
{
}

/// The helper only takes over while nothing is held through the ordinary lane.
pub proof fn law_activation_only_while_idle(
    state: InjectedView,
    events: Seq<InputEvent>,
    reply: SendReplyView,
)
    ensures
        state.send_step(events, reply).1 is Activate ==> state.send_step(
            events,
            reply,
        ).0.may_activate(),
{
}

proof fn lemma_observe_append(state: InjectedView, a: Seq<InputEvent>, b: Seq<InputEvent>)
    ensures
        state.observe(a + b) == state.observe(a).observe(b),
    decreases b.len(),
{
    if b.len() == 0 {
        assert(a + b =~= a);
    } else {
        lemma_observe_append(state, a, b.drop_last());
        assert((a + b).drop_last() =~= a + b.drop_last());
    }
}

proof fn lemma_observe_key_downs(state: InjectedView, keys: Seq<(u16, KeySemantics)>)
    requires
        state.keys.len() == 0,
        forall|i: int, j: int|
            0 <= i < j < keys.len() ==> (#[trigger] keys[i]).0 != (#[trigger] keys[j]).0,
    ensures
        state.observe(keys.map_values(|k: (u16, KeySemantics)| key_down(k))) == (InjectedView {
            keys,
            ..state
        }),
    decreases keys.len(),
{
    let downs = keys.map_values(|k: (u16, KeySemantics)| key_down(k));
    if keys.len() == 0 {
        assert(keys =~= state.keys);
        assert(downs.len() == 0);
    } else {
        let shorter = keys.drop_last();
        lemma_observe_key_downs(state, shorter);
        assert(downs.drop_last() =~= shorter.map_values(
            |k: (u16, KeySemantics)| key_down(k),
        ));
        assert(!holds_key(shorter, keys.last().0)) by {
            if holds_key(shorter, keys.last().0) {
                let i = choose|i: int|
                    0 <= i < shorter.len() && (#[trigger] shorter[i]).0 == keys.last().0;
                assert(keys[i].0 != keys[keys.len() - 1].0);
            }
        }
        assert(shorter.push(keys.last()) =~= keys);
    }
}

proof fn lemma_observe_button_downs(state: InjectedView, buttons: Seq<MouseButton>)
    requires
        state.buttons.len() == 0,
        buttons.no_duplicates(),
    ensures
        state.observe(buttons.map_values(|b: MouseButton| button_down(b))) == (InjectedView {
            buttons,
            ..state
        }),
    decreases buttons.len(),
{
    let downs = buttons.map_values(|b: MouseButton| button_down(b));
    if buttons.len() == 0 {
        assert(buttons =~= state.buttons);
        assert(downs.len() == 0);
    } else {
        let shorter = buttons.drop_last();
        lemma_observe_button_downs(state, shorter);
        assert(downs.drop_last() =~= shorter.map_values(|b: MouseButton| button_down(b)));
        assert(!shorter.contains(buttons.last()));
        assert(shorter.push(buttons.last()) =~= buttons);
    }
}

/// Pressing again what was held restores exactly what was held.
pub proof fn law_held_downs_restore_held_input(state: InjectedView)
    requires
        state.wf(),
    ensures
        state.released().observe(state.held_downs()) == state,
{
    let keys = state.keys.map_values(|k: (u16, KeySemantics)| key_down(k));
    let buttons = state.buttons.map_values(|b: MouseButton| button_down(b));
    lemma_observe_append(state.released(), keys, buttons);
    lemma_observe_key_downs(state.released(), state.keys);
    lemma_observe_button_downs((InjectedView { keys: state.keys, ..state.released() }), state.buttons);
}

proof fn lemma_key_inserted_contains(
    keys: Seq<(u16, KeySemantics)>,
    key: (u16, KeySemantics),
    wanted: (u16, KeySemantics),
)
    ensures
        key_inserted(keys, key).contains(wanted) == (keys.contains(wanted) || key == wanted),
        key_inserted(keys, key).len() == keys.len() + 1,
    decreases keys.len(),
{
    let all = key_inserted(keys, key);
    if keys.len() == 0 || keys.last().0 <= key.0 {
        if keys.contains(wanted) {
            let i = choose|i: int| 0 <= i < keys.len() && keys[i] == wanted;
            assert(all[i] == wanted);
        }
        if key == wanted {
            assert(all[keys.len() as int] == wanted);
        }
    } else {
        let shorter = keys.drop_last();
        lemma_key_inserted_contains(shorter, key, wanted);
        let inner = key_inserted(shorter, key);
        if keys.contains(wanted) {
            let i = choose|i: int| 0 <= i < keys.len() && keys[i] == wanted;
            if i < shorter.len() {
                assert(shorter[i] == wanted);
            } else {
                assert(all[inner.len() as int] == wanted);
            }
        }
        if inner.contains(wanted) {
            let i = choose|i: int| 0 <= i < inner.len() && inner[i] == wanted;
            assert(all[i] == wanted);
        }
        if all.contains(wanted) {
            let i = choose|i: int| 0 <= i < all.len() && all[i] == wanted;
            if i < inner.len() {
                assert(inner[i] == wanted);
                if shorter.contains(wanted) {
                    let j = choose|j: int| 0 <= j < shorter.len() && shorter[j] == wanted;
                    assert(keys[j] == wanted);
                }
            } else {
                assert(keys[keys.len() - 1] == wanted);
            }
        }
    }
}

proof fn lemma_keys_sorted_contains(keys: Seq<(u16, KeySemantics)>, wanted: (u16, KeySemantics))
    ensures
        keys_sorted(keys).contains(wanted) == keys.contains(wanted),
        keys_sorted(keys).len() == keys.len(),
    decreases keys.len(),
{
    if keys.len() > 0 {
        let shorter = keys.drop_last();
        lemma_keys_sorted_contains(shorter, wanted);
        lemma_key_inserted_contains(keys_sorted(shorter), keys.last(), wanted);
        if keys.contains(wanted) {
            let i = choose|i: int| 0 <= i < keys.len() && keys[i] == wanted;
            if i < shorter.len() {
                assert(shorter[i] == wanted);
            }
        }
        if shorter.contains(wanted) {
            let i = choose|i: int| 0 <= i < shorter.len() && shorter[i] == wanted;
            assert(keys[i] == wanted);
        }
        assert(keys[keys.len() - 1] == keys.last());
    }
}

/// The keys that are held after the keys of `ups` were released.
proof fn lemma_observe_key_ups(state: InjectedView, ups: Seq<(u16, KeySemantics)>)
    ensures
        ({
            let after = state.observe(ups.map_values(|k: (u16, KeySemantics)| key_up(k)));
            &&& after.buttons == state.buttons
            &&& after.native == state.native
            &&& after.elevated == state.elevated
            &&& after.lane == state.lane
            &&& forall|i: int|
                0 <= i < after.keys.len() ==> state.keys.contains(#[trigger] after.keys[i])
                    && !holds_key(ups, after.keys[i].0)
        }),
    decreases ups.len(),
{
    let events = ups.map_values(|k: (u16, KeySemantics)| key_up(k));
    let after = state.observe(events);
    if ups.len() > 0 {
        let shorter = ups.drop_last();
        lemma_observe_key_ups(state, shorter);
        assert(events.drop_last() =~= shorter.map_values(|k: (u16, KeySemantics)| key_up(k)));
        let before = state.observe(events.drop_last());
        let code = ups.last().0;
        let keep = |k: (u16, KeySemantics)| k.0 != code;
        lemma_filter_subsequence(before.keys, keep);
        assert(events.last() == key_up(ups.last()));
        assert(after.keys == before.keys.filter(keep));
        assert forall|i: int| 0 <= i < after.keys.len() implies state.keys.contains(
            #[trigger] after.keys[i],
        ) && !holds_key(ups, after.keys[i].0) by {
            assert(before.keys.contains(after.keys[i]));
            let j = choose|j: int| 0 <= j < before.keys.len() && before.keys[j] == after.keys[i];
            assert(state.keys.contains(before.keys[j]));
            if holds_key(ups, after.keys[i].0) {
                let k = choose|k: int|
                    0 <= k < ups.len() && (#[trigger] ups[k]).0 == after.keys[i].0;
                if k < shorter.len() {
                    assert(shorter[k].0 == before.keys[j].0);
                }
            }
        }
    }
}

proof fn lemma_observe_button_ups(state: InjectedView, ups: Seq<MouseButton>)
    ensures
        ({
            let after = state.observe(ups.map_values(|b: MouseButton| button_up(b)));
            &&& after.keys == state.keys
            &&& after.native == state.native
            &&& after.elevated == state.elevated
            &&& after.lane == state.lane
            &&& forall|i: int|
                0 <= i < after.buttons.len() ==> state.buttons.contains(
                    #[trigger] after.buttons[i],
                ) && !ups.contains(after.buttons[i])
        }),
    decreases ups.len(),
{
    let events = ups.map_values(|b: MouseButton| button_up(b));
    let after = state.observe(events);
    if ups.len() > 0 {
        let shorter = ups.drop_last();
        lemma_observe_button_ups(state, shorter);
        assert(events.drop_last() =~= shorter.map_values(|b: MouseButton| button_up(b)));
        let before = state.observe(events.drop_last());
        let button = ups.last();
        let keep = |b: MouseButton| b != button;
        lemma_filter_subsequence(before.buttons, keep);
        assert(events.last() == button_up(button));
        assert(after.buttons == before.buttons.filter(keep));
        assert forall|i: int| 0 <= i < after.buttons.len() implies state.buttons.contains(
            #[trigger] after.buttons[i],
        ) && !ups.contains(after.buttons[i]) by {
            assert(before.buttons.contains(after.buttons[i]));
            let j = choose|j: int|
                0 <= j < before.buttons.len() && before.buttons[j] == after.buttons[i];
            assert(state.buttons.contains(before.buttons[j]));
            if ups.contains(after.buttons[i]) {
                let k = choose|k: int| 0 <= k < ups.len() && ups[k] == after.buttons[i];
                if k < shorter.len() {
                    assert(shorter[k] == before.buttons[j]);
                    assert(shorter.contains(before.buttons[j]));
                }
            }
        }
    }
}

pub proof fn lemma_filter_keeps<A>(s: Seq<A>, p: spec_fn(A) -> bool, i: int)
    requires
        0 <= i < s.len(),
        p(s[i]),
    ensures
        s.filter(p).contains(s[i]),
    decreases s.len(),
{
    reveal(Seq::filter);
    let shorter = s.drop_last();
    if i < shorter.len() {
        lemma_filter_keeps(shorter, p, i);
        let k = choose|k: int| 0 <= k < shorter.filter(p).len() && shorter.filter(p)[k] == s[i];
        assert(s.filter(p)[k] == s[i]);
    } else {
        assert(s.filter(p)[s.filter(p).len() - 1] == s[i]);
    }
}

/// Delivering the release events leaves nothing held, and touches nothing else.
pub proof fn law_releases_leave_nothing_held(state: InjectedView)
    requires
        state.wf(),
    ensures
        state.observe(state.releases()) == state.released(),
{
    let ups = button_order().filter(|b: MouseButton| state.buttons.contains(b));
    let keys = keys_sorted(state.keys);
    let button_events = ups.map_values(|b: MouseButton| button_up(b));
    let key_events = keys.map_values(|k: (u16, KeySemantics)| key_up(k));
    lemma_observe_append(state, button_events, key_events);
    lemma_observe_button_ups(state, ups);
    let middle = state.observe(button_events);
    assert(middle.buttons.len() == 0) by {
        if middle.buttons.len() > 0 {
            let b = middle.buttons[0];
            assert(state.buttons.contains(b));
            let place = match b {
                MouseButton::Left => 0int,
                MouseButton::Right => 1,
                MouseButton::Middle => 2,
                MouseButton::X1 => 3,
                MouseButton::X2 => 4,
            };
            assert(button_order()[place] == b);
            lemma_filter_keeps(
                button_order(),
                |b: MouseButton| state.buttons.contains(b),
                place,
            );
        }
    }
    lemma_observe_key_ups(middle, keys);
    let after = middle.observe(key_events);
    assert(after.keys.len() == 0) by {
        if after.keys.len() > 0 {
            let key = after.keys[0];
            assert(middle.keys.contains(key));
            lemma_keys_sorted_contains(state.keys, key);
            let k = choose|k: int| 0 <= k < keys.len() && keys[k] == key;
            assert(keys[k].0 == key.0);
        }
    }
    assert(after =~= state.released());
}

/// `event` presses the key.
pub open spec fn presses_key(event: InputEvent, scan_code: u16) -> bool {
    event matches InputEvent::Key { scan_code: code, state: KeyState::Down, .. } && code
        == scan_code
}

/// `event` releases the key.
pub open spec fn releases_key(event: InputEvent, scan_code: u16) -> bool {
    event matches InputEvent::Key { scan_code: code, state: KeyState::Up, .. } && code == scan_code
}

/// The event at `at` presses the key, and no later one releases it.
pub open spec fn stays_pressed(events: Seq<InputEvent>, scan_code: u16, at: int) -> bool {
    &&& 0 <= at < events.len()
    &&& presses_key(events[at], scan_code)
    &&& forall|j: int| at < j < events.len() ==> !releases_key(#[trigger] events[j], scan_code)
}

/// The last event of the key presses it.
pub open spec fn key_left_down(events: Seq<InputEvent>, scan_code: u16) -> bool {
    exists|at: int| stays_pressed(events, scan_code, at)
}

/// The event at `at` is the first press of a hold of the key that lasts: it stays
/// pressed, and every earlier press was released before.
pub open spec fn begins_hold(events: Seq<InputEvent>, scan_code: u16, at: int) -> bool {
    &&& stays_pressed(events, scan_code, at)
    &&& forall|j: int|
        0 <= j < at && presses_key(#[trigger] events[j], scan_code) ==> exists|k: int|
            j < k < at && releases_key(#[trigger] events[k], scan_code)
}

/// The event at `at` presses the button, and no later one releases it.
pub open spec fn button_stays_pressed(
    events: Seq<InputEvent>,
    button: MouseButton,
    at: int,
) -> bool {
    &&& 0 <= at < events.len()
    &&& events[at] == button_down(button)
    &&& forall|j: int| at < j < events.len() ==> #[trigger] events[j] != button_up(button)
}

/// The last event of the button presses it.
pub open spec fn button_left_down(events: Seq<InputEvent>, button: MouseButton) -> bool {
    exists|at: int| button_stays_pressed(events, button, at)
}

proof fn lemma_hold_begins(events: Seq<InputEvent>, scan_code: u16, at: int) -> (first: int)
    requires
        stays_pressed(events, scan_code, at),
    ensures
        first <= at,
        begins_hold(events, scan_code, first),
    decreases at,
{
    if begins_hold(events, scan_code, at) {
        at
    } else {
        let j = choose|j: int|
            0 <= j < at && presses_key(#[trigger] events[j], scan_code) && !(exists|k: int|
                j < k < at && releases_key(#[trigger] events[k], scan_code));
        assert forall|k: int| j < k < events.len() implies !releases_key(
            #[trigger] events[k],
            scan_code,
        ) by {}
        lemma_hold_begins(events, scan_code, j)
    }
}

proof fn lemma_one_hold(events: Seq<InputEvent>, scan_code: u16, a: int, b: int)
    requires
        begins_hold(events, scan_code, a),
        begins_hold(events, scan_code, b),
    ensures
        a == b,
{
    if a < b {
        assert(presses_key(events[a], scan_code));
    } else if b < a {
        assert(presses_key(events[b], scan_code));
    }
}

/// A further event that does not release the key leaves its hold as it was.
proof fn lemma_hold_goes_on(events: Seq<InputEvent>, scan_code: u16, at: int)
    requires
        events.len() > 0,
        at < events.len() - 1,
        !releases_key(events.last(), scan_code),
    ensures
        stays_pressed(events, scan_code, at) == stays_pressed(events.drop_last(), scan_code, at),
        begins_hold(events, scan_code, at) == begins_hold(events.drop_last(), scan_code, at),
{
    let shorter = events.drop_last();
    if stays_pressed(events, scan_code, at) {
        assert forall|j: int| at < j < shorter.len() implies !releases_key(
            #[trigger] shorter[j],
            scan_code,
        ) by {
            assert(!releases_key(events[j], scan_code));
        }
    }
    if stays_pressed(shorter, scan_code, at) {
        assert forall|j: int| at < j < events.len() implies !releases_key(
            #[trigger] events[j],
            scan_code,
        ) by {
            if j < shorter.len() {
                assert(!releases_key(shorter[j], scan_code));
            }
        }
        if begins_hold(events, scan_code, at) {
            assert forall|j: int| 0 <= j < at && presses_key(#[trigger] shorter[j], scan_code)
                implies exists|k: int|
                j < k < at && releases_key(#[trigger] shorter[k], scan_code) by {
                assert(presses_key(events[j], scan_code));
                let k = choose|k: int| j < k < at && releases_key(#[trigger] events[k], scan_code);
                assert(releases_key(shorter[k], scan_code));
            }
        }
        if begins_hold(shorter, scan_code, at) {
            assert forall|j: int| 0 <= j < at && presses_key(#[trigger] events[j], scan_code)
                implies exists|k: int|
                j < k < at && releases_key(#[trigger] events[k], scan_code) by {
                assert(presses_key(shorter[j], scan_code));
                let k = choose|k: int| j < k < at && releases_key(#[trigger] shorter[k], scan_code);
                assert(releases_key(events[k], scan_code));
            }
        }
    }
}

/// The key is held with the semantics of the press that began its hold.
pub open spec fn held_since_press(events: Seq<InputEvent>, key: (u16, KeySemantics)) -> bool {
    exists|at: int| #[trigger] begins_hold(events, key.0, at) && events[at] == key_down(key)
}

proof fn lemma_keys_held(
    native: WindowsInputState,
    events: Seq<InputEvent>,
    key: (u16, KeySemantics),
)
    ensures
        InjectedView::idle(native).observe(events).keys.contains(key) == held_since_press(
            events,
            key,
        ),
    decreases events.len(), 1int,
{
    if events.len() > 0 {
        let shorter = events.drop_last();
        let last = events.len() - 1;
        let before = InjectedView::idle(native).observe(shorter).keys;
        lemma_keys_held(native, shorter, key);
        if releases_key(events.last(), key.0) {
            let keep = |k: (u16, KeySemantics)| k.0 != key.0;
            lemma_filter_subsequence(before, keep);
            if held_since_press(events, key) {
                let at = choose|at: int| #[trigger]
                    begins_hold(events, key.0, at) && events[at] == key_down(key);
                assert(!releases_key(events[last], key.0));
            }
        } else {
            assert forall|at: int| at < last implies #[trigger] begins_hold(events, key.0, at)
                == begins_hold(shorter, key.0, at) by {
                lemma_hold_goes_on(events, key.0, at);
            }
            if presses_key(events.last(), key.0) {
                lemma_press_begins(native, events, key);
            } else {
                assert(!begins_hold(events, key.0, last));
                if held_since_press(shorter, key) {
                    let at = choose|at: int| #[trigger]
                        begins_hold(shorter, key.0, at) && shorter[at] == key_down(key);
                    assert(begins_hold(events, key.0, at) && events[at] == key_down(key));
                }
                if held_since_press(events, key) {
                    let at = choose|at: int| #[trigger]
                        begins_hold(events, key.0, at) && events[at] == key_down(key);
                    assert(begins_hold(shorter, key.0, at) && shorter[at] == key_down(key));
                }
                lemma_other_key_kept(native, events, key);
            }
        }
    }
}

/// An event that is not one of the key leaves the list of held keys as it is, as far
/// as the key goes.
proof fn lemma_other_key_kept(
    native: WindowsInputState,
    events: Seq<InputEvent>,
    key: (u16, KeySemantics),
)
    requires
        events.len() > 0,
        !presses_key(events.last(), key.0),
        !releases_key(events.last(), key.0),
    ensures
        InjectedView::idle(native).observe(events).keys.contains(key) == InjectedView::idle(
            native,
        ).observe(events.drop_last()).keys.contains(key),
{
    let before = InjectedView::idle(native).observe(events.drop_last()).keys;
    let after = InjectedView::idle(native).observe(events).keys;
    match events.last() {
        InputEvent::Key { scan_code, state: KeyState::Up, .. } => {
            let keep = |k: (u16, KeySemantics)| k.0 != scan_code;
            lemma_filter_subsequence(before, keep);
            if before.contains(key) {
                let i = choose|i: int| 0 <= i < before.len() && before[i] == key;
                lemma_filter_keeps(before, keep, i);
            }
            if after.contains(key) {
                let i = choose|i: int| 0 <= i < after.len() && after[i] == key;
                assert(before.contains(after[i]));
            }
        },
        InputEvent::Key { scan_code, state: KeyState::Down, semantics } => {
            if after != before {
                assert(after == before.push((scan_code, semantics)));
                if before.contains(key) {
                    let i = choose|i: int| 0 <= i < before.len() && before[i] == key;
                    assert(after[i] == key);
                }
                if after.contains(key) {
                    let i = choose|i: int| 0 <= i < after.len() && after[i] == key;
                    assert(before[i] == key);
                }
            }
        },
        _ => {},
    }
}

/// A press of the key begins a hold, unless the key is held already.
proof fn lemma_press_begins(
    native: WindowsInputState,
    events: Seq<InputEvent>,
    key: (u16, KeySemantics),
)
    requires
        events.len() > 0,
        presses_key(events.last(), key.0),
    ensures
        InjectedView::idle(native).observe(events).keys.contains(key) == held_since_press(
            events,
            key,
        ),
    decreases events.len(), 0int,
{
    let shorter = events.drop_last();
    let last = events.len() - 1;
    let before = InjectedView::idle(native).observe(shorter).keys;
    let after = InjectedView::idle(native).observe(events).keys;
    assert forall|at: int| at < last implies #[trigger] begins_hold(events, key.0, at)
        == begins_hold(shorter, key.0, at) by {
        lemma_hold_goes_on(events, key.0, at);
    }
    if holds_key(before, key.0) {
        let i = choose|i: int| 0 <= i < before.len() && (#[trigger] before[i]).0 == key.0;
        lemma_keys_held(native, shorter, before[i]);
        lemma_keys_held(native, shorter, key);
        assert(before.contains(before[i]));
        let began = choose|at: int| #[trigger]
            begins_hold(shorter, key.0, at) && shorter[at] == key_down(before[i]);
        assert(begins_hold(events, key.0, began));
        if held_since_press(events, key) {
            let at = choose|at: int| #[trigger]
                begins_hold(events, key.0, at) && events[at] == key_down(key);
            lemma_one_hold(events, key.0, at, began);
            assert(begins_hold(shorter, key.0, at) && shorter[at] == key_down(key));
        }
        if held_since_press(shorter, key) {
            let at = choose|at: int| #[trigger]
                begins_hold(shorter, key.0, at) && shorter[at] == key_down(key);
            assert(begins_hold(events, key.0, at) && events[at] == key_down(key));
        }
    } else {
        assert forall|j: int| 0 <= j < last && presses_key(#[trigger] events[j], key.0)
            implies exists|k: int| j < k < last && releases_key(#[trigger] events[k], key.0) by {
            if !(exists|k: int| j < k < last && releases_key(#[trigger] events[k], key.0)) {
                assert forall|k: int| j < k < shorter.len() implies !releases_key(
                    #[trigger] shorter[k],
                    key.0,
                ) by {
                    assert(!releases_key(events[k], key.0));
                }
                assert(stays_pressed(shorter, key.0, j));
                let first = lemma_hold_begins(shorter, key.0, j);
                let semantics = shorter[first]->Key_semantics;
                let held = (key.0, semantics);
                assert(shorter[first] == key_down(held));
                lemma_keys_held(native, shorter, held);
                assert(held_since_press(shorter, held));
                let i = choose|i: int| 0 <= i < before.len() && before[i] == held;
                assert(before[i].0 == key.0);
            }
        }
        assert(begins_hold(events, key.0, last));
        let pressed = (key.0, events.last()->Key_semantics);
        assert(after == before.push(pressed));
        assert(after[before.len() as int] == pressed);
        if after.contains(key) {
            let i = choose|i: int| 0 <= i < after.len() && after[i] == key;
            if i < before.len() {
                assert(before[i].0 == key.0);
            }
        }
        if held_since_press(events, key) {
            let at = choose|at: int| #[trigger]
                begins_hold(events, key.0, at) && events[at] == key_down(key);
            lemma_one_hold(events, key.0, at, last);
        }
    }
}

proof fn lemma_buttons_held(
    native: WindowsInputState,
    events: Seq<InputEvent>,
    button: MouseButton,
)
    ensures
        InjectedView::idle(native).observe(events).buttons.contains(button) == button_left_down(
            events,
            button,
        ),
    decreases events.len(),
{
    if events.len() > 0 {
        let shorter = events.drop_last();
        let last = events.len() - 1;
        let before = InjectedView::idle(native).observe(shorter).buttons;
        let after = InjectedView::idle(native).observe(events).buttons;
        lemma_buttons_held(native, shorter, button);
        if events.last() == button_up(button) {
            lemma_filter_subsequence(before, |b: MouseButton| b != button);
            if button_left_down(events, button) {
                let at = choose|at: int| button_stays_pressed(events, button, at);
                assert(events[last] != button_up(button));
            }
        } else if events.last() == button_down(button) {
            assert(button_stays_pressed(events, button, last));
            if !before.contains(button) {
                assert(after[before.len() as int] == button);
            }
        } else {
            if button_left_down(shorter, button) {
                let at = choose|at: int| button_stays_pressed(shorter, button, at);
                assert forall|j: int| at < j < events.len() implies #[trigger] events[j]
                    != button_up(button) by {
                    if j < shorter.len() {
                        assert(shorter[j] != button_up(button));
                    }
                }
                assert(button_stays_pressed(events, button, at));
            }
            if button_left_down(events, button) {
                let at = choose|at: int| button_stays_pressed(events, button, at);
                assert forall|j: int| at < j < shorter.len() implies #[trigger] shorter[j]
                    != button_up(button) by {
                    assert(events[j] != button_up(button));
                }
                assert(button_stays_pressed(shorter, button, at));
            }
            match events.last() {
                InputEvent::MouseButton { button: other, state: KeyState::Up } => {
                    let keep = |b: MouseButton| b != other;
                    lemma_filter_subsequence(before, keep);
                    if before.contains(button) {
                        let i = choose|i: int| 0 <= i < before.len() && before[i] == button;
                        lemma_filter_keeps(before, keep, i);
                    }
                    if after.contains(button) {
                        let i = choose|i: int| 0 <= i < after.len() && after[i] == button;
                        assert(before.contains(after[i]));
                    }
                },
                InputEvent::MouseButton { button: other, state: KeyState::Down } => {
                    if after != before {
                        assert(after == before.push(other));
                        if before.contains(button) {
                            let i = choose|i: int| 0 <= i < before.len() && before[i] == button;
                            assert(after[i] == button);
                        }
                        if after.contains(button) {
                            let i = choose|i: int| 0 <= i < after.len() && after[i] == button;
                            assert(before[i] == button);
                        }
                    }
                },
                _ => {},
            }
        }
    }
}

/// Each key has a greater scan code than those before it.
pub open spec fn ascending(keys: Seq<(u16, KeySemantics)>) -> bool {
    forall|i: int, j: int|
        0 <= i < j < keys.len() ==> (#[trigger] keys[i]).0 < (#[trigger] keys[j]).0
}

proof fn lemma_key_inserted_ascending(keys: Seq<(u16, KeySemantics)>, key: (u16, KeySemantics))
    requires
        ascending(keys),
        !holds_key(keys, key.0),
    ensures
        ascending(key_inserted(keys, key)),
    decreases keys.len(),
{
    let all = key_inserted(keys, key);
    if keys.len() == 0 || keys.last().0 <= key.0 {
        assert forall|i: int, j: int| 0 <= i < j < all.len() implies (#[trigger] all[i]).0 < (
        #[trigger] all[j]).0 by {
            if j == keys.len() {
                assert(keys[i].0 != key.0);
                if i < keys.len() - 1 {
                    assert(keys[i].0 < keys[keys.len() - 1].0);
                }
            }
        }
    } else {
        let shorter = keys.drop_last();
        let inner = key_inserted(shorter, key);
        if holds_key(shorter, key.0) {
            let i = choose|i: int| 0 <= i < shorter.len() && (#[trigger] shorter[i]).0 == key.0;
            assert(keys[i].0 == key.0);
        }
        lemma_key_inserted_ascending(shorter, key);
        assert forall|i: int, j: int| 0 <= i < j < all.len() implies (#[trigger] all[i]).0 < (
        #[trigger] all[j]).0 by {
            if j == inner.len() {
                lemma_key_inserted_contains(shorter, key, inner[i]);
                assert(inner.contains(inner[i]));
                if inner[i] != key {
                    let k = choose|k: int| 0 <= k < shorter.len() && shorter[k] == inner[i];
                    assert(keys[k].0 < keys[keys.len() - 1].0);
                }
            } else {
                assert(inner[i].0 < inner[j].0);
            }
        }
    }
}

proof fn lemma_keys_sorted_ascending(keys: Seq<(u16, KeySemantics)>)
    requires
        forall|i: int, j: int|
            0 <= i < j < keys.len() ==> (#[trigger] keys[i]).0 != (#[trigger] keys[j]).0,
    ensures
        ascending(keys_sorted(keys)),
    decreases keys.len(),
{
    if keys.len() > 0 {
        let shorter = keys.drop_last();
        lemma_keys_sorted_ascending(shorter);
        let sorted = keys_sorted(shorter);
        if holds_key(sorted, keys.last().0) {
            let i = choose|i: int| 0 <= i < sorted.len() && (#[trigger] sorted[i]).0
                == keys.last().0;
            lemma_keys_sorted_contains(shorter, sorted[i]);
            assert(sorted.contains(sorted[i]));
            let k = choose|k: int| 0 <= k < shorter.len() && shorter[k] == sorted[i];
            assert(keys[k].0 != keys[keys.len() - 1].0);
        }
        lemma_key_inserted_ascending(sorted, keys.last());
    }
}

/// Whatever events were delivered, exactly what they leave pressed is released: every
/// button whose last event is a press, in the order of the buttons, then every key
/// whose last event is a press, by ascending scan code. A key is released with the
/// semantics of the press that began its hold, not of a repeat.
pub proof fn law_releases_are_what_stayed_pressed(
    native: WindowsInputState,
    events: Seq<InputEvent>,
)
    ensures
        ({
            let state = InjectedView::idle(native).observe(events);
            let keys = keys_sorted(state.keys);
            &&& state.releases() == button_order().filter(
                |b: MouseButton| button_left_down(events, b),
            ).map_values(|b: MouseButton| button_up(b)) + keys.map_values(
                |k: (u16, KeySemantics)| key_up(k),
            )
            &&& ascending(keys)
            &&& forall|scan_code: u16| #[trigger]
                holds_key(keys, scan_code) <==> key_left_down(events, scan_code)
            &&& forall|i: int| 0 <= i < keys.len() ==> held_since_press(events, #[trigger] keys[i])
        }),
{
    let state = InjectedView::idle(native).observe(events);
    let keys = keys_sorted(state.keys);
    law_observe_keeps_held_input_unique(InjectedView::idle(native), events);
    lemma_keys_sorted_ascending(state.keys);
    let held = |b: MouseButton| state.buttons.contains(b);
    let left_down = |b: MouseButton| button_left_down(events, b);
    assert forall|b: MouseButton| #[trigger] held(b) == left_down(b) by {
        lemma_buttons_held(native, events, b);
    }
    assert(held =~= left_down);
    assert forall|i: int| 0 <= i < keys.len() implies held_since_press(
        events,
        #[trigger] keys[i],
    ) by {
        assert(keys.contains(keys[i]));
        lemma_keys_sorted_contains(state.keys, keys[i]);
        lemma_keys_held(native, events, keys[i]);
    }
    assert forall|scan_code: u16| #[trigger]
        holds_key(keys, scan_code) <==> key_left_down(events, scan_code) by {
        if holds_key(keys, scan_code) {
            let i = choose|i: int| 0 <= i < keys.len() && (#[trigger] keys[i]).0 == scan_code;
            let at = choose|at: int| #[trigger]
                begins_hold(events, keys[i].0, at) && events[at] == key_down(keys[i]);
            assert(stays_pressed(events, scan_code, at));
        }
        if key_left_down(events, scan_code) {
            let at = choose|at: int| stays_pressed(events, scan_code, at);
            let first = lemma_hold_begins(events, scan_code, at);
            let key = (scan_code, events[first]->Key_semantics);
            assert(begins_hold(events, key.0, first) && events[first] == key_down(key));
            lemma_keys_held(native, events, key);
            lemma_keys_sorted_contains(state.keys, key);
            let i = choose|i: int| 0 <= i < keys.len() && keys[i] == key;
            assert(keys[i].0 == scan_code);
        }
    }
}

} // verus!

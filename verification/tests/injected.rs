use boundless_tray::injected::{observe_injected_input_outcome, InjectedInputState};
use boundless_tray::input::{
    InputEvent, InputSendOutcome, KeySemantics, KeyState, MouseButton, SendError,
};

#[test]
fn injected_state_synthesizes_releases_for_shutdown() {
    let mut state = InjectedInputState::new(false);
    state.observe(&[
        InputEvent::Key {
            scan_code: 30,
            state: KeyState::Down,
            semantics: KeySemantics::Physical,
        },
        InputEvent::MouseButton {
            button: MouseButton::Left,
            state: KeyState::Down,
        },
        InputEvent::MouseWheel {
            delta_x: 0,
            delta_y: 120,
        },
    ]);

    assert_eq!(
        state.drain_release_events(),
        vec![
            InputEvent::MouseButton {
                button: MouseButton::Left,
                state: KeyState::Up,
            },
            InputEvent::Key {
                scan_code: 30,
                state: KeyState::Up,
                semantics: KeySemantics::Physical,
            },
        ]
    );
    assert!(state.drain_release_events().is_empty());
}

#[test]
fn injected_shutdown_release_keeps_first_down_semantics_across_repeat() {
    let mut state = InjectedInputState::new(false);
    let first_down = KeySemantics::Windows {
        virtual_key: 0x61,
        num_lock_on: true,
    };
    let repeat_after_toggle = KeySemantics::Windows {
        virtual_key: 0x23,
        num_lock_on: false,
    };
    state.observe(&[
        InputEvent::Key {
            scan_code: 0x4F,
            state: KeyState::Down,
            semantics: first_down,
        },
        InputEvent::Key {
            scan_code: 0x4F,
            state: KeyState::Down,
            semantics: repeat_after_toggle,
        },
    ]);

    assert_eq!(
        state.drain_release_events(),
        vec![InputEvent::Key {
            scan_code: 0x4F,
            state: KeyState::Up,
            semantics: first_down,
        }]
    );
}

fn assert_partial_injection_tracks_only_committed_prefix(
    events: Vec<InputEvent>,
    expected_releases: Vec<InputEvent>,
) {
    let mut state = InjectedInputState::new(false);
    let outcome = InputSendOutcome {
        committed_event_count: 1,
        remaining_events: events[1..].to_vec(),
        error: Some(SendError::Native),
    };

    let outcome = observe_injected_input_outcome(&events, &mut state, outcome);
    assert!(outcome.error.is_some(), "partial injection must retain its failure");
    assert_eq!(
        state.drain_release_events(),
        expected_releases,
        "shutdown cleanup must release the committed prefix and ignore the failed suffix"
    );
}

#[test]
fn partial_injection_tracks_committed_key_and_mouse_prefixes_for_shutdown() {
    let key_down = InputEvent::Key {
        scan_code: 30,
        state: KeyState::Down,
        semantics: KeySemantics::Physical,
    };
    let key_up = InputEvent::Key {
        scan_code: 30,
        state: KeyState::Up,
        semantics: KeySemantics::Physical,
    };
    let mouse_down = InputEvent::MouseButton {
        button: MouseButton::Left,
        state: KeyState::Down,
    };
    let mouse_up = InputEvent::MouseButton {
        button: MouseButton::Left,
        state: KeyState::Up,
    };

    assert_partial_injection_tracks_only_committed_prefix(
        vec![key_down.clone(), mouse_down.clone()],
        vec![key_up],
    );
    assert_partial_injection_tracks_only_committed_prefix(
        vec![mouse_down, key_down],
        vec![mouse_up],
    );
}

#[test]
fn pressing_again_restores_what_is_held() {
    let mut state = InjectedInputState::new(false);
    let ctrl = InputEvent::Key {
        scan_code: 29,
        state: KeyState::Down,
        semantics: KeySemantics::Physical,
    };
    let left = InputEvent::MouseButton { button: MouseButton::Left, state: KeyState::Down };
    state.observe(&[left, ctrl, ctrl]);
    assert_eq!(state.held_down_events(), vec![ctrl, left]);
    assert!(state.holds_input());
    let mut other = InjectedInputState::new(false);
    other.observe(&state.held_down_events());
    assert_eq!(other.held_down_events(), state.held_down_events());
    other.observe(&state.release_events_snapshot());
    assert!(!other.holds_input());
}

#[test]
fn releases_are_what_stayed_pressed() {
    let key = |scan_code: u16, state: KeyState, virtual_key: u16| InputEvent::Key {
        scan_code,
        state,
        semantics: KeySemantics::Windows {
            virtual_key,
            num_lock_on: false,
        },
    };
    let button = |button: MouseButton, state: KeyState| InputEvent::MouseButton { button, state };
    let mut state = InjectedInputState::new(false);
    state.observe(&[
        key(40, KeyState::Down, 1),
        button(MouseButton::X2, KeyState::Down),
        key(7, KeyState::Down, 2),
        key(7, KeyState::Up, 2),
        key(7, KeyState::Down, 3),
        key(7, KeyState::Down, 4),
        button(MouseButton::Right, KeyState::Down),
        key(9, KeyState::Down, 5),
        key(9, KeyState::Up, 5),
        button(MouseButton::Left, KeyState::Down),
        button(MouseButton::Left, KeyState::Up),
    ]);
    assert_eq!(
        state.release_events_snapshot(),
        vec![
            button(MouseButton::Right, KeyState::Up),
            button(MouseButton::X2, KeyState::Up),
            key(7, KeyState::Up, 3),
            key(40, KeyState::Up, 1),
        ]
    );
}

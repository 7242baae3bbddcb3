//! What the dashboard says about the state of sharing.

use crate::elevated::{ElevatedInputControllerStatus, InputInjectorState};
use crate::layout::{named_place, resolve_layout_token_peer};
use crate::maps::flag_on;
use crate::text;
use crate::ui::{
    empty_as_none, UiAntiIdleStatus, UiInputRuntime, UiPairedPeer, UiSnapshot,
};
use vstd::prelude::*;

verus! {

/// Some paired machine is connected.
pub open spec fn any_connected(peers: Seq<UiPairedPeer>) -> bool {
    exists|i: int| 0 <= i < peers.len() && (#[trigger] peers[i]).connected
}

pub fn has_connected_peer(peers: &Vec<UiPairedPeer>) -> (r: bool)
    ensures
        r == any_connected(peers@),
{
    let mut i: usize = 0;
    while i < peers.len()
        invariant
            i <= peers.len(),
            forall|j: int| 0 <= j < i ==> !(#[trigger] peers@[j]).connected,
        decreases peers.len() - i,
    {
        if peers[i].connected {
            assert(peers@[i as int].connected);
            return true;
        }
        i = i + 1;
    }
    false
}

/// `token` names a machine that is connected.
pub open spec fn names_connected(token: Seq<char>, peers: Seq<UiPairedPeer>) -> bool {
    match named_place(peers, token) {
        Some(at) => peers[at].connected,
        None => false,
    }
}

/// Some token of a row names a machine that is connected.
pub open spec fn row_names_connected(row: Seq<char>, peers: Seq<UiPairedPeer>) -> bool {
    exists|j: int|
        0 <= j < text::pieces(row, ',').len() && names_connected(
            #[trigger] text::pieces(row, ',')[j],
            peers,
        )
}

/// Some token of a layout names a machine that is connected.
pub open spec fn layout_names_connected(matrix: Seq<char>, peers: Seq<UiPairedPeer>) -> bool {
    exists|i: int|
        0 <= i < text::pieces(matrix, ';').len() && row_names_connected(
            #[trigger] text::pieces(matrix, ';')[i],
            peers,
        )
}

fn row_has_connected(row: &str, peers: &Vec<UiPairedPeer>) -> (r: bool)
    ensures
        r == row_names_connected(row@, peers@),
{
    let tokens = text::split(row, ',');
    let ghost all = text::pieces(row@, ',');
    let mut j: usize = 0;
    assert(all.len() == tokens.len());
    while j < tokens.len()
        invariant
            j <= tokens.len(),
            all == text::pieces(row@, ','),
            all == text::views(tokens@),
            forall|k: int| 0 <= k < j ==> !names_connected(#[trigger] all[k], peers@),
        decreases tokens.len() - j,
    {
        assert(all[j as int] == tokens@[j as int]@);
        match resolve_layout_token_peer(tokens[j].as_str(), peers) {
            Some(peer) => {
                if peer.connected {
                    assert(names_connected(all[j as int], peers@));
                    return true;
                }
            },
            None => {},
        }
        j = j + 1;
    }
    false
}

/// A machine is connected but none that is connected has a place in the layout.
pub open spec fn unarranged(snapshot: UiSnapshot) -> bool {
    any_connected(snapshot.paired_peers@) && !layout_names_connected(
        snapshot.layout_matrix@,
        snapshot.paired_peers@,
    )
}

pub fn needs_arrangement(snapshot: &UiSnapshot) -> (r: bool)
    ensures
        r == unarranged(*snapshot),
{
    if !has_connected_peer(&snapshot.paired_peers) {
        return false;
    }
    let rows = text::split(snapshot.layout_matrix.as_str(), ';');
    let ghost all = text::pieces(snapshot.layout_matrix@, ';');
    assert(all.len() == rows.len());
    let mut i: usize = 0;
    while i < rows.len()
        invariant
            i <= rows.len(),
            any_connected(snapshot.paired_peers@),
            all == text::pieces(snapshot.layout_matrix@, ';'),
            all == text::views(rows@),
            forall|k: int|
                0 <= k < i ==> !row_names_connected(#[trigger] all[k], snapshot.paired_peers@),
        decreases rows.len() - i,
    {
        assert(all[i as int] == rows@[i as int]@);
        if row_has_connected(rows[i].as_str(), &snapshot.paired_peers) {
            assert(row_names_connected(all[i as int], snapshot.paired_peers@));
            return false;
        }
        i = i + 1;
    }
    true
}

/// The ways of capturing that work on this desktop.
pub open spec fn capture_ready(mode: Seq<char>) -> bool {
    mode == "windows_hooks"@ || mode == "user_session_broker"@ || mode == "direct"@
}

pub fn capture_backend_ready(mode: &str) -> (r: bool)
    ensures
        r == capture_ready(mode@),
{
    text::same(mode, "windows_hooks") || text::same(mode, "user_session_broker") || text::same(
        mode,
        "direct",
    )
}

/// The sentence that tells the user where they stand: the first obstacle counts.
pub open spec fn guidance(snapshot: UiSnapshot, paused: bool) -> Seq<char> {
    if snapshot.paired_peers@.len() == 0 {
        "Use one keyboard and mouse across your PCs."@
    } else if !flag_on(snapshot.features@, "share_input"@) {
        "Keyboard and mouse sharing is paused. Resume it when you are ready."@
    } else if paused {
        "Input pause requested. The background runtime has not confirmed it yet."@
    } else if !any_connected(snapshot.paired_peers@) {
        "Ready when your other PC is. Offline PCs reconnect automatically."@
    } else if unarranged(snapshot) {
        "Your PC is connected. Arrange your PCs before switching at screen edges."@
    } else if !capture_ready(snapshot.input_runtime.capture_backend_mode@) {
        "Your PCs are connected, but desktop input is not ready. Check input status."@
    } else if !flag_on(snapshot.features@, "easy_mouse"@) {
        "Your PCs are connected. Screen-edge switching is off in Sharing."@
    } else {
        "Your PCs are connected and arranged. Move across a shared screen edge to switch."@
    }
}

pub fn home_guidance(snapshot: &UiSnapshot, paused: bool) -> (r: &'static str)
    ensures
        r@ == guidance(*snapshot, paused),
{
    if snapshot.paired_peers.len() == 0 {
        return "Use one keyboard and mouse across your PCs.";
    }
    if !snapshot.features.is_on("share_input") {
        "Keyboard and mouse sharing is paused. Resume it when you are ready."
    } else if paused {
        "Input pause requested. The background runtime has not confirmed it yet."
    } else if !has_connected_peer(&snapshot.paired_peers) {
        "Ready when your other PC is. Offline PCs reconnect automatically."
    } else if needs_arrangement(snapshot) {
        "Your PC is connected. Arrange your PCs before switching at screen edges."
    } else if !capture_backend_ready(snapshot.input_runtime.capture_backend_mode.as_str()) {
        "Your PCs are connected, but desktop input is not ready. Check input status."
    } else if !snapshot.features.is_on("easy_mouse") {
        "Your PCs are connected. Screen-edge switching is off in Sharing."
    } else {
        "Your PCs are connected and arranged. Move across a shared screen edge to switch."
    }
}

#[derive(Debug, Clone, Copy, PartialEq, Eq, Structural)]
pub enum SharingHealth {
    Healthy,
    Degraded,
    Unknown,
}

pub fn input_sharing_health(backend_mode: &str) -> (r: SharingHealth)
    ensures
        r == (if capture_ready(backend_mode@) {
            SharingHealth::Healthy
        } else if backend_mode@ == "service_session_unsupported"@ {
            SharingHealth::Degraded
        } else {
            SharingHealth::Unknown
        }),
{
    if capture_backend_ready(backend_mode) {
        SharingHealth::Healthy
    } else if text::same(backend_mode, "service_session_unsupported") {
        SharingHealth::Degraded
    } else {
        SharingHealth::Unknown
    }
}

pub fn clipboard_sharing_health(backend_mode: &str) -> (r: SharingHealth)
    ensures
        r == (if backend_mode@ == "user_session_broker"@ || backend_mode@ == "direct"@ {
            SharingHealth::Healthy
        } else if backend_mode@ == "broker_unavailable"@ {
            SharingHealth::Degraded
        } else {
            SharingHealth::Unknown
        }),
{
    if text::same(backend_mode, "user_session_broker") || text::same(backend_mode, "direct") {
        SharingHealth::Healthy
    } else if text::same(backend_mode, "broker_unavailable") {
        SharingHealth::Degraded
    } else {
        SharingHealth::Unknown
    }
}

/// How a part of sharing does, in words.
pub fn sharing_health_label(label: &str, health: SharingHealth) -> (r: String)
    ensures
        r@ == label@ + " backend "@ + (match health {
            SharingHealth::Healthy => "available"@,
            SharingHealth::Degraded => "degraded"@,
            SharingHealth::Unknown => "unknown"@,
        }),
{
    text::cat3(
        label,
        " backend ",
        match health {
            SharingHealth::Healthy => "available",
            SharingHealth::Degraded => "degraded",
            SharingHealth::Unknown => "unknown",
        },
    )
}

/// What the input runtime does, in a line.
pub open spec fn runtime_text(runtime: UiInputRuntime) -> Seq<char> {
    "Capture: "@ + (if runtime.lock_active {
        "active"@
    } else {
        "idle"@
    }) + "  |  Backend: "@ + (if runtime.capture_backend_mode@.len() == 0 {
        "unknown"@
    } else {
        runtime.capture_backend_mode@
    }) + "  |  Queue: "@ + text::decimal(runtime.pending_inject_frames as nat) + "/"@
        + text::decimal(runtime.pending_inject_high_water as nat)
}

pub fn input_runtime_line(runtime: &UiInputRuntime) -> (r: String)
    ensures
        r@ == runtime_text(*runtime),
{
    let mode = if runtime.capture_backend_mode.as_str().is_empty() {
        "unknown"
    } else {
        runtime.capture_backend_mode.as_str()
    };
    let mut out = text::cat5(
        "Capture: ",
        if runtime.lock_active {
            "active"
        } else {
            "idle"
        },
        "  |  Backend: ",
        mode,
        "  |  Queue: ",
    );
    text::push_decimal(&mut out, runtime.pending_inject_frames as u64);
    out.append("/");
    text::push_decimal(&mut out, runtime.pending_inject_high_water as u64);
    out
}

pub open spec fn none_if_empty(s: Seq<char>) -> Seq<char> {
    if s.len() == 0 {
        "none"@
    } else {
        s
    }
}

/// Who holds the input, in a line, where anybody does.
pub fn capture_targets_line(runtime: &UiInputRuntime) -> (r: Option<String>)
    ensures
        r is None <==> runtime.owner_peer_id@.len() == 0
            && runtime.configured_capture_target_peer_id@.len() == 0
            && runtime.active_capture_target_peer_id@.len() == 0,
        r is Some ==> r->0@ == "Owner: "@ + none_if_empty(runtime.owner_peer_id@)
            + "  |  Configured target: "@ + none_if_empty(
            runtime.configured_capture_target_peer_id@,
        ) + "  |  Active target: "@ + none_if_empty(runtime.active_capture_target_peer_id@),
{
    if runtime.owner_peer_id.as_str().is_empty()
        && runtime.configured_capture_target_peer_id.as_str().is_empty()
        && runtime.active_capture_target_peer_id.as_str().is_empty() {
        return None;
    }
    let mut out = text::cat5(
        "Owner: ",
        empty_as_none(runtime.owner_peer_id.as_str()),
        "  |  Configured target: ",
        empty_as_none(runtime.configured_capture_target_peer_id.as_str()),
        "  |  Active target: ",
    );
    out.append(empty_as_none(runtime.active_capture_target_peer_id.as_str()));
    Some(out)
}

/// What limits the input path, where something does.
pub open spec fn backend_note_text(mode: Seq<char>, helper: InputInjectorState) -> Option<
    Seq<char>,
> {
    if mode == "service_session_unsupported"@ {
        Some(
            "Service session cannot capture or inject desktop input; waiting for the tray user-session input broker to attach."@,
        )
    } else if mode == "user_session_broker"@ {
        if helper == InputInjectorState::ReadyPendingIdle || helper == InputInjectorState::Active {
            Some(
                "Input runs through the tray broker with administrator-app control enabled. Lock screen and the UAC consent screen remain unavailable."@,
            )
        } else {
            Some(
                "Input runs through the tray user-session broker. Administrator-launched app windows require the explicit control below; lock screen and the UAC consent screen remain unavailable."@,
            )
        }
    } else {
        None
    }
}

pub fn capture_backend_note(mode: &str, helper: InputInjectorState) -> (r: Option<&'static str>)
    ensures
        match r {
            Some(note) => backend_note_text(mode@, helper) == Some(note@),
            None => backend_note_text(mode@, helper) is None,
        },
{
    if text::same(mode, "service_session_unsupported") {
        Some(
            "Service session cannot capture or inject desktop input; waiting for the tray user-session input broker to attach.",
        )
    } else if text::same(mode, "user_session_broker") {
        if helper == InputInjectorState::ReadyPendingIdle || helper == InputInjectorState::Active {
            Some(
                "Input runs through the tray broker with administrator-app control enabled. Lock screen and the UAC consent screen remain unavailable.",
            )
        } else {
            Some(
                "Input runs through the tray user-session broker. Administrator-launched app windows require the explicit control below; lock screen and the UAC consent screen remain unavailable.",
            )
        }
    } else {
        None
    }
}

/// The elevated helper can be used with this way of capturing.
pub open spec fn helper_supported(mode: Seq<char>) -> bool {
    mode == "service_session_unsupported"@ || mode == "user_session_broker"@
}

/// What the user can do with the elevated helper.
#[derive(Debug, Clone, Copy, PartialEq, Eq, Structural)]
pub struct HelperControls {
    pub supported: bool,
    pub can_enable: bool,
    pub can_disable: bool,
    /// The ordinary lane is blocked until the helper's cleanup is confirmed.
    pub fallback_blocked: bool,
}

pub fn helper_controls(mode: &str, status: &ElevatedInputControllerStatus) -> (r: HelperControls)
    ensures
        r.supported == helper_supported(mode@),
        r.can_enable == (helper_supported(mode@) && status@.direct_fallback_safe && (status@.state
            == InputInjectorState::Off || status@.state == InputInjectorState::Unavailable)),
        r.can_disable == (status@.state == InputInjectorState::Prompting || status@.state
            == InputInjectorState::ReadyPendingIdle || status@.state
            == InputInjectorState::Active),
        r.fallback_blocked == !status@.direct_fallback_safe,
        !(r.can_enable && r.can_disable),
{
    let supported = text::same(mode, "service_session_unsupported") || text::same(
        mode,
        "user_session_broker",
    );
    let can_enable = supported && status.direct_fallback_safe && (status.state
        == InputInjectorState::Off || status.state == InputInjectorState::Unavailable);
    let can_disable = status.state == InputInjectorState::Prompting || status.state
        == InputInjectorState::ReadyPendingIdle || status.state == InputInjectorState::Active;
    HelperControls {
        supported,
        can_enable,
        can_disable,
        fallback_blocked: !status.direct_fallback_safe,
    }
}

/// The elevated helper's status in a line, with the names of its state, reason
/// and trust.
pub fn helper_status_line(state: &str, reason: &str, trust: &str, helper_version: &str) -> (r:
    String)
    ensures
        r@ == "State: "@ + text::replaced(state@, '_', ' ') + "  |  Reason: "@ + text::replaced(
            reason@,
            '_',
            ' ',
        ) + "  |  Trust: "@ + text::replaced(trust@, '_', ' ') + (if helper_version@.len() == 0 {
            Seq::<char>::empty()
        } else {
            "  |  Helper: "@ + helper_version@
        }),
{
    let state_text = text::replace_char(state, '_', ' ');
    let reason_text = text::replace_char(reason, '_', ' ');
    let trust_text = text::replace_char(trust, '_', ' ');
    let mut out = text::cat5(
        "State: ",
        state_text.as_str(),
        "  |  Reason: ",
        reason_text.as_str(),
        "  |  Trust: ",
    );
    out.append(trust_text.as_str());
    let tail = if helper_version.is_empty() {
        String::new()
    } else {
        text::cat2("  |  Helper: ", helper_version)
    };
    out.append(tail.as_str());
    out
}

pub open spec fn bool_text(b: bool) -> Seq<char> {
    if b {
        "true"@
    } else {
        "false"@
    }
}

fn bool_word(b: bool) -> (r: &'static str)
    ensures
        r@ == bool_text(b),
{
    if b {
        "true"
    } else {
        "false"
    }
}

/// Whether connected machines are kept awake, in a line.
pub open spec fn anti_idle_text(status: UiAntiIdleStatus) -> Seq<char> {
    "Status: "@ + (if !status.supported {
        "Unsupported on this platform"@
    } else if status.active {
        "Active now"@
    } else {
        "Inactive"@
    }) + (if status.reason@ == "none"@ {
        if status.supported {
            " (enabled="@ + bool_text(status.enabled) + " display_required="@ + bool_text(
                status.display_required,
            ) + ")"@
        } else {
            Seq::<char>::empty()
        }
    } else {
        " ("@ + text::replaced(status.reason@, '_', ' ') + "; enabled="@ + bool_text(status.enabled)
            + " display_required="@ + bool_text(status.display_required) + ")"@
    })
}

pub fn anti_idle_status_line(status: &UiAntiIdleStatus) -> (r: String)
    ensures
        r@ == anti_idle_text(*status),
{
    let head = if !status.supported {
        "Unsupported on this platform"
    } else if status.active {
        "Active now"
    } else {
        "Inactive"
    };
    let tail = if text::same(status.reason.as_str(), "none") {
        if status.supported {
            text::cat5(
                " (enabled=",
                bool_word(status.enabled),
                " display_required=",
                bool_word(status.display_required),
                ")",
            )
        } else {
            String::new()
        }
    } else {
        let reason = text::replace_char(status.reason.as_str(), '_', ' ');
        let mut out = text::cat5(
            " (",
            reason.as_str(),
            "; enabled=",
            bool_word(status.enabled),
            " display_required=",
        );
        out.append(bool_word(status.display_required));
        out.append(")");
        out
    };
    text::cat3("Status: ", head, tail.as_str())
}

/// The largest file that is taken, in words.
pub fn file_limit_line(max_file_bytes: u64) -> (r: String)
    ensures
        r@ == "Limit: "@ + text::decimal((max_file_bytes / 1048576) as nat) + " MB"@,
{
    let megabytes = text::decimal_string(max_file_bytes / 1048576);
    text::cat3("Limit: ", megabytes.as_str(), " MB")
}

/// How a paired machine is shown.
pub fn peer_status_label(daemon_online: bool, connected: bool) -> (r: &'static str)
    ensures
        r@ == (if !daemon_online {
            "Status unavailable"@
        } else if connected {
            "Connected"@
        } else {
            "Offline"@
        }),
{
    if !daemon_online {
        "Status unavailable"
    } else if connected {
        "Connected"
    } else {
        "Offline"
    }
}

/// What the start page says while the daemon is away.
pub fn home_notice(snapshot: &UiSnapshot, status_lost: bool) -> (r: Option<&'static str>)
    ensures
        r is Some <==> !snapshot.daemon_online,
        r is Some ==> r->0@ == (if status_lost {
            "Current status is unavailable. Your paired PCs are remembered; their connection status is unknown."@
        } else {
            "Waiting for Boundless to start on this PC."@
        }),
{
    if snapshot.daemon_online {
        None
    } else if status_lost {
        Some(
            "Current status is unavailable. Your paired PCs are remembered; their connection status is unknown.",
        )
    } else {
        Some("Waiting for Boundless to start on this PC.")
    }
}

/// Which daemon is running, in a line.
pub fn runtime_version_line(snapshot: &UiSnapshot) -> (r: String)
    ensures
        r@ == (if snapshot.daemon_online {
            "Connected background runtime: "@ + snapshot.daemon_version@
        } else {
            "Background runtime unavailable. Its current version could not be checked."@
        }),
{
    if snapshot.daemon_online {
        text::cat2("Connected background runtime: ", snapshot.daemon_version.as_str())
    } else {
        text::owned("Background runtime unavailable. Its current version could not be checked.")
    }
}

/// Whether the running daemon is known to be of another version than the tray.
pub fn versions_differ(snapshot: &UiSnapshot, tray_version: &str) -> (r: bool)
    ensures
        r == (snapshot.daemon_online && snapshot.daemon_version@ != tray_version@),
{
    snapshot.daemon_online && !text::same(snapshot.daemon_version.as_str(), tray_version)
}

pub open spec fn details_text(
    snapshot: UiSnapshot,
    tray_version: Seq<char>,
    error: Seq<char>,
) -> Seq<char> {
    "Boundless tray "@ + tray_version + "\nRuntime "@ + snapshot.daemon_version@ + "\nOnline "@
        + bool_text(snapshot.daemon_online) + "\n"@ + error
}

/// The technical details, as they are copied.
pub fn support_details(snapshot: &UiSnapshot, tray_version: &str, error: &str) -> (r: String)
    ensures
        r@ == details_text(*snapshot, tray_version@, error@),
{
    let versions = text::cat5(
        "Boundless tray ",
        tray_version,
        "\nRuntime ",
        snapshot.daemon_version.as_str(),
        "\nOnline ",
    );
    let state = text::cat2(versions.as_str(), bool_word(snapshot.daemon_online));
    text::cat3(state.as_str(), "\n", error)
}

/// The layout has a connected machine where a cell of one of its rows names one.
pub proof fn law_arranged_machines_are_found(
    snapshot: UiSnapshot,
    row: int,
    cell: int,
    peer: int,
)
    requires
        0 <= row < text::pieces(snapshot.layout_matrix@, ';').len(),
        0 <= cell < text::pieces(text::pieces(snapshot.layout_matrix@, ';')[row], ',').len(),
        0 <= peer < snapshot.paired_peers@.len(),
    ensures
        ({
            let token = text::pieces(text::pieces(snapshot.layout_matrix@, ';')[row], ',')[cell];
            let peers = snapshot.paired_peers@;
            &&& named_place(peers, token) == Some(peer) && peers[peer].connected
                ==> layout_names_connected(snapshot.layout_matrix@, peers) && !unarranged(snapshot)
            &&& layout_names_connected(snapshot.layout_matrix@, peers) ==> any_connected(peers)
            &&& peers[peer].connected ==> any_connected(peers)
            &&& unarranged(snapshot) <==> any_connected(peers) && !layout_names_connected(
                snapshot.layout_matrix@,
                peers,
            )
        }),
{
    let rows = text::pieces(snapshot.layout_matrix@, ';');
    let peers = snapshot.paired_peers@;
    let token = text::pieces(rows[row], ',')[cell];
    if named_place(peers, token) == Some(peer) && peers[peer].connected {
        assert(names_connected(token, peers));
        assert(row_names_connected(rows[row], peers));
    }
    if layout_names_connected(snapshot.layout_matrix@, peers) {
        let i = choose|i: int|
            0 <= i < rows.len() && row_names_connected(#[trigger] rows[i], peers);
        let cells = text::pieces(rows[i], ',');
        let j = choose|j: int| 0 <= j < cells.len() && names_connected(#[trigger] cells[j], peers);
        assert(names_connected(cells[j], peers));
        crate::layout_laws::lemma_named_place_in_range(peers, cells[j]);
        let at = named_place(peers, cells[j])->0;
        assert(peers[at].connected);
    }
}

/// What the user is told first is what stands first in the way: no other machine, input
/// that is paused or asked to be, none connected, none arranged, no capture, no switching
/// at the edges.
pub proof fn law_guidance_names_what_is_in_the_way(snapshot: UiSnapshot, paused: bool)
    ensures
        ({
            let alone = snapshot.paired_peers@.len() == 0;
            let off = !flag_on(snapshot.features@, "share_input"@);
            let apart = !any_connected(snapshot.paired_peers@);
            let loose = unarranged(snapshot);
            let blind = !capture_ready(snapshot.input_runtime.capture_backend_mode@);
            let manual = !flag_on(snapshot.features@, "easy_mouse"@);
            let told = guidance(snapshot, paused);
            &&& alone ==> told == "Use one keyboard and mouse across your PCs."@
            &&& !alone && off ==> told
                == "Keyboard and mouse sharing is paused. Resume it when you are ready."@
            &&& !alone && !off && paused ==> told
                == "Input pause requested. The background runtime has not confirmed it yet."@
            &&& !alone && !off && !paused && apart ==> told
                == "Ready when your other PC is. Offline PCs reconnect automatically."@
            &&& !alone && !off && !paused && !apart && loose ==> told
                == "Your PC is connected. Arrange your PCs before switching at screen edges."@
            &&& !alone && !off && !paused && !apart && !loose && blind ==> told
                == "Your PCs are connected, but desktop input is not ready. Check input status."@
            &&& !alone && !off && !paused && !apart && !loose && !blind && manual ==> told
                == "Your PCs are connected. Screen-edge switching is off in Sharing."@
            &&& !alone && !off && !paused && !apart && !loose && !blind && !manual ==> told
                == "Your PCs are connected and arranged. Move across a shared screen edge to switch."@
        }),
        forall|mode: Seq<char>| #[trigger]
            capture_ready(mode) <==> mode == "windows_hooks"@ || mode == "user_session_broker"@
                || mode == "direct"@,
{
}

/// The runtime is told with its capture, its backend and how much is waiting.
pub proof fn law_runtime_is_told(runtime: UiInputRuntime)
    ensures
        runtime.lock_active && runtime.capture_backend_mode@.len() > 0 ==> runtime_text(runtime)
            == "Capture: "@ + "active"@ + "  |  Backend: "@ + runtime.capture_backend_mode@
            + "  |  Queue: "@ + text::decimal(runtime.pending_inject_frames as nat) + "/"@
            + text::decimal(runtime.pending_inject_high_water as nat),
        !runtime.lock_active && runtime.capture_backend_mode@.len() == 0 ==> runtime_text(runtime)
            == "Capture: "@ + "idle"@ + "  |  Backend: "@ + "unknown"@ + "  |  Queue: "@
            + text::decimal(runtime.pending_inject_frames as nat) + "/"@ + text::decimal(
            runtime.pending_inject_high_water as nat,
        ),
{
}

/// An administrator's windows are spoken of only where input runs through a broker; the
/// helper is offered there and where a broker is waited for.
pub proof fn law_backend_is_explained(mode: Seq<char>, helper: InputInjectorState)
    ensures
        backend_note_text(mode, helper) is Some <==> helper_supported(mode),
        helper_supported(mode) <==> mode == "service_session_unsupported"@ || mode
            == "user_session_broker"@,
        mode == "service_session_unsupported"@ ==> backend_note_text(mode, helper) == Some(
            "Service session cannot capture or inject desktop input; waiting for the tray user-session input broker to attach."@,
        ),
        mode == "user_session_broker"@ && mode != "service_session_unsupported"@ && (helper
            == InputInjectorState::ReadyPendingIdle || helper == InputInjectorState::Active)
            ==> backend_note_text(mode, helper) == Some(
            "Input runs through the tray broker with administrator-app control enabled. Lock screen and the UAC consent screen remain unavailable."@,
        ),
        mode == "user_session_broker"@ && mode != "service_session_unsupported"@ && helper
            != InputInjectorState::ReadyPendingIdle && helper != InputInjectorState::Active
            ==> backend_note_text(mode, helper) == Some(
            "Input runs through the tray user-session broker. Administrator-launched app windows require the explicit control below; lock screen and the UAC consent screen remain unavailable."@,
        ),
{
}

/// An empty text is shown as `none`, a flag as `true` or `false`.
pub proof fn law_values_are_shown(s: Seq<char>)
    ensures
        s.len() == 0 ==> none_if_empty(s) == "none"@,
        s.len() > 0 ==> none_if_empty(s) == s,
        bool_text(true) == "true"@,
        bool_text(false) == "false"@,
{
}

/// What is done against idling is told with its reason, in words, where it has one.
pub proof fn law_idle_status_is_told(status: UiAntiIdleStatus)
    ensures
        ({
            let state = if !status.supported {
                "Unsupported on this platform"@
            } else if status.active {
                "Active now"@
            } else {
                "Inactive"@
            };
            let flags = bool_text(status.enabled) + " display_required="@ + bool_text(
                status.display_required,
            ) + ")"@;
            &&& status.reason@ != "none"@ ==> anti_idle_text(status) == "Status: "@ + state + (
            " ("@ + text::replaced(status.reason@, '_', ' ') + "; enabled="@ + flags)
            &&& status.reason@ == "none"@ && status.supported ==> anti_idle_text(status)
                == "Status: "@ + state + (" (enabled="@ + flags)
            &&& status.reason@ == "none"@ && !status.supported ==> anti_idle_text(status)
                == "Status: "@ + state
        }),
{
    let text = anti_idle_text(status);
    let e = bool_text(status.enabled);
    let d = bool_text(status.display_required);
    let r = text::replaced(status.reason@, '_', ' ');
    assert(" (enabled="@ + e + " display_required="@ + d + ")"@ =~= " (enabled="@ + (e
        + " display_required="@ + d + ")"@));
    assert(" ("@ + r + "; enabled="@ + e + " display_required="@ + d + ")"@ =~= " ("@ + r
        + "; enabled="@ + (e + " display_required="@ + d + ")"@));
}

/// A machine is connected somewhere exactly where one of them is.
pub proof fn law_connection_needs_a_machine(peers: Seq<UiPairedPeer>, peer: UiPairedPeer)
    ensures
        !any_connected(Seq::empty()),
        any_connected(peers.push(peer)) <==> any_connected(peers) || peer.connected,
{
    let more = peers.push(peer);
    if any_connected(peers) {
        let i = choose|i: int| 0 <= i < peers.len() && (#[trigger] peers[i]).connected;
        assert(more[i].connected);
    }
    if peer.connected {
        assert(more[peers.len() as int].connected);
    }
    if any_connected(more) && !peer.connected {
        let i = choose|i: int| 0 <= i < more.len() && (#[trigger] more[i]).connected;
        assert(peers[i].connected);
    }
}

/// The details name both versions, whether the daemon answers, and its error.
pub proof fn law_details_are_told(snapshot: UiSnapshot, version: Seq<char>, error: Seq<char>)
    ensures
        snapshot.daemon_online ==> details_text(snapshot, version, error) == "Boundless tray "@
            + version + "\nRuntime "@ + snapshot.daemon_version@ + "\nOnline "@ + "true"@ + "\n"@
            + error,
        !snapshot.daemon_online ==> details_text(snapshot, version, error) == "Boundless tray "@
            + version + "\nRuntime "@ + snapshot.daemon_version@ + "\nOnline "@ + "false"@ + "\n"@
            + error,
{
}

} // verus!

//! What the daemon tells the dashboard.

use crate::maps::{FlagMap, TextMap};
use crate::text;
use vstd::prelude::*;

verus! {

#[derive(Debug, Clone)]
pub struct UiAntiIdleConfig {
    pub enabled: bool,
    pub recent_activity_window_secs: u32,
    pub allow_on_battery: bool,
    pub keep_display_on: bool,
}

#[derive(Debug, Clone)]
pub struct UiAntiIdleStatus {
    pub supported: bool,
    pub enabled: bool,
    pub active: bool,
    pub display_required: bool,
    pub reason: String,
}

#[derive(Debug, Clone)]
pub struct UiFileTransferConfig {
    pub receive_dir: String,
    pub organize_by_peer: bool,
    pub auto_accept_trusted_peers: bool,
    pub max_file_bytes: u64,
}

#[derive(Debug, Clone)]
pub struct UiFileTransfer {
    pub transfer_id: String,
    pub previous_transfer_id: String,
    pub direction: String,
    pub peer_id: String,
    pub file_name: String,
    pub state: String,
    pub transferred_bytes: u64,
    pub total_bytes: u64,
    pub failure_reason: String,
    pub source_path: String,
    pub final_path: String,
    pub queued_at: String,
    pub updated_at: String,
}

#[derive(Debug, Clone)]
pub struct UiInputHandoffConfig {
    pub block_screen_corners: bool,
    pub corner_block_px: u32,
    pub relative_mouse: bool,
    pub hide_cursor_at_edge: bool,
    pub draw_cursor_marker: bool,
}

#[derive(Debug, Clone)]
pub struct UiInputRuntime {
    pub owner_peer_id: String,
    pub configured_capture_target_peer_id: String,
    pub active_capture_target_peer_id: String,
    pub lock_active: bool,
    pub lock_supported: bool,
    pub capture_backend_mode: String,
    pub pending_inject_frames: u32,
    pub pending_inject_high_water: u32,
}

#[derive(Debug, Clone)]
pub struct UiClipboardRuntime {
    pub backend_mode: String,
}

#[derive(Debug, Clone)]
pub struct UiDiscoveredPeer {
    pub machine_id: String,
    pub display_name: String,
    pub endpoint: String,
    pub endpoint_candidates: Vec<String>,
}

#[derive(Debug, Clone)]
pub struct UiPairedPeer {
    pub peer_id: String,
    pub display_name: String,
    pub address: String,
    pub connected: bool,
    pub health_state: String,
    pub health_reason: String,
    pub trust_state: String,
    pub trusted_since: String,
    pub trust_fingerprint: String,
    pub device_identity: String,
}

#[derive(Debug, Clone)]
pub struct UiPendingRequest {
    pub request_id: String,
    pub requester_machine_id: String,
    pub requester_display_name: String,
    pub created_at: String,
    pub verification_code: String,
    pub verification_expires_at: String,
    pub requires_verification_code: bool,
}

/// The state of everything that the dashboard shows.
#[derive(Debug, Clone)]
pub struct UiSnapshot {
    pub generated_at: String,
    pub daemon_online: bool,
    pub daemon_version: String,
    pub machine_id: String,
    pub layout_matrix: String,
    pub features: FlagMap,
    pub hotkeys: TextMap,
    pub discovered_peers: Vec<UiDiscoveredPeer>,
    pub paired_peers: Vec<UiPairedPeer>,
    pub pending_requests: Vec<UiPendingRequest>,
    pub anti_idle_config: UiAntiIdleConfig,
    pub anti_idle_status: UiAntiIdleStatus,
    pub file_transfer_config: UiFileTransferConfig,
    pub file_transfers: Vec<UiFileTransfer>,
    pub input_handoff_config: UiInputHandoffConfig,
    pub input_runtime: UiInputRuntime,
    pub clipboard_runtime: UiClipboardRuntime,
}

impl UiAntiIdleConfig {
    pub open spec fn unset(self) -> bool {
        &&& !self.enabled && !self.allow_on_battery && !self.keep_display_on
        &&& self.recent_activity_window_secs == 0
    }
}

impl UiAntiIdleStatus {
    pub open spec fn unset(self) -> bool {
        &&& !self.supported && !self.enabled && !self.active && !self.display_required
        &&& self.reason@.len() == 0
    }
}

impl UiFileTransferConfig {
    pub open spec fn unset(self) -> bool {
        &&& self.receive_dir@.len() == 0
        &&& !self.organize_by_peer && !self.auto_accept_trusted_peers
        &&& self.max_file_bytes == 0
    }
}

impl UiInputHandoffConfig {
    pub open spec fn unset(self) -> bool {
        &&& !self.block_screen_corners && !self.relative_mouse
        &&& !self.hide_cursor_at_edge && !self.draw_cursor_marker
        &&& self.corner_block_px == 0
    }
}

impl UiInputRuntime {
    pub open spec fn unset(self) -> bool {
        &&& self.owner_peer_id@.len() == 0
        &&& self.configured_capture_target_peer_id@.len() == 0
        &&& self.active_capture_target_peer_id@.len() == 0
        &&& !self.lock_active && !self.lock_supported
        &&& self.capture_backend_mode@.len() == 0
        &&& self.pending_inject_frames == 0 && self.pending_inject_high_water == 0
    }
}

impl UiClipboardRuntime {
    pub open spec fn unset(self) -> bool {
        self.backend_mode@.len() == 0
    }
}

impl UiSnapshot {
    /// Nothing is known yet.
    pub open spec fn unset(self) -> bool {
        &&& !self.daemon_online
        &&& self.generated_at@.len() == 0 && self.daemon_version@.len() == 0
        &&& self.machine_id@.len() == 0 && self.layout_matrix@.len() == 0
        &&& self.features@ == Map::<Seq<char>, bool>::empty()
        &&& self.hotkeys@ == Map::<Seq<char>, Seq<char>>::empty()
        &&& self.discovered_peers@.len() == 0 && self.paired_peers@.len() == 0
        &&& self.pending_requests@.len() == 0 && self.file_transfers@.len() == 0
        &&& self.anti_idle_config.unset() && self.anti_idle_status.unset()
        &&& self.file_transfer_config.unset() && self.input_handoff_config.unset()
        &&& self.input_runtime.unset() && self.clipboard_runtime.unset()
    }
}

impl Default for UiAntiIdleConfig {
    fn default() -> (r: UiAntiIdleConfig)
        ensures
            r.unset(),
    {
        UiAntiIdleConfig {
            enabled: false,
            recent_activity_window_secs: 0,
            allow_on_battery: false,
            keep_display_on: false,
        }
    }
}

impl Default for UiAntiIdleStatus {
    fn default() -> (r: UiAntiIdleStatus)
        ensures
            r.unset(),
    {
        UiAntiIdleStatus {
            supported: false,
            enabled: false,
            active: false,
            display_required: false,
            reason: String::new(),
        }
    }
}

impl Default for UiFileTransferConfig {
    fn default() -> (r: UiFileTransferConfig)
        ensures
            r.unset(),
    {
        UiFileTransferConfig {
            receive_dir: String::new(),
            organize_by_peer: false,
            auto_accept_trusted_peers: false,
            max_file_bytes: 0,
        }
    }
}

impl Default for UiInputHandoffConfig {
    fn default() -> (r: UiInputHandoffConfig)
        ensures
            r.unset(),
    {
        UiInputHandoffConfig {
            block_screen_corners: false,
            corner_block_px: 0,
            relative_mouse: false,
            hide_cursor_at_edge: false,
            draw_cursor_marker: false,
        }
    }
}

impl Default for UiInputRuntime {
    fn default() -> (r: UiInputRuntime)
        ensures
            r.unset(),
    {
        UiInputRuntime {
            owner_peer_id: String::new(),
            configured_capture_target_peer_id: String::new(),
            active_capture_target_peer_id: String::new(),
            lock_active: false,
            lock_supported: false,
            capture_backend_mode: String::new(),
            pending_inject_frames: 0,
            pending_inject_high_water: 0,
        }
    }
}

impl Default for UiClipboardRuntime {
    fn default() -> (r: UiClipboardRuntime)
        ensures
            r.unset(),
    {
        UiClipboardRuntime { backend_mode: String::new() }
    }
}

impl Default for UiSnapshot {
    fn default() -> (r: UiSnapshot)
        ensures
            r.unset(),
    {
        UiSnapshot {
            generated_at: String::new(),
            daemon_online: false,
            daemon_version: String::new(),
            machine_id: String::new(),
            layout_matrix: String::new(),
            features: FlagMap::new(),
            hotkeys: TextMap::new(),
            discovered_peers: Vec::new(),
            paired_peers: Vec::new(),
            pending_requests: Vec::new(),
            anti_idle_config: UiAntiIdleConfig::default(),
            anti_idle_status: UiAntiIdleStatus::default(),
            file_transfer_config: UiFileTransferConfig::default(),
            file_transfers: Vec::new(),
            input_handoff_config: UiInputHandoffConfig::default(),
            input_runtime: UiInputRuntime::default(),
            clipboard_runtime: UiClipboardRuntime::default(),
        }
    }
}

/// A snapshot as it comes over the wire: every group of settings may be missing.
#[derive(Debug)]
pub struct WireSnapshot {
    pub generated_at: String,
    pub daemon_online: bool,
    pub daemon_version: String,
    pub machine_id: String,
    pub layout_matrix: String,
    pub features: FlagMap,
    pub hotkeys: TextMap,
    pub discovered_peers: Vec<UiDiscoveredPeer>,
    pub paired_peers: Vec<UiPairedPeer>,
    pub pending_requests: Vec<UiPendingRequest>,
    pub anti_idle_config: Option<UiAntiIdleConfig>,
    pub anti_idle_status: Option<UiAntiIdleStatus>,
    pub file_transfer_config: Option<UiFileTransferConfig>,
    pub file_transfers: Vec<UiFileTransfer>,
    pub input_handoff_config: Option<UiInputHandoffConfig>,
    pub input_runtime: Option<UiInputRuntime>,
    pub clipboard_runtime: Option<UiClipboardRuntime>,
}

/// The snapshot that the dashboard works on: what is missing is unset.
pub fn ui_snapshot(wire: WireSnapshot) -> (r: UiSnapshot)
    ensures
        r.generated_at == wire.generated_at,
        r.daemon_online == wire.daemon_online,
        r.daemon_version == wire.daemon_version,
        r.machine_id == wire.machine_id,
        r.layout_matrix == wire.layout_matrix,
        r.features == wire.features,
        r.hotkeys == wire.hotkeys,
        r.discovered_peers == wire.discovered_peers,
        r.paired_peers == wire.paired_peers,
        r.pending_requests == wire.pending_requests,
        r.file_transfers == wire.file_transfers,
        match wire.anti_idle_config {
            Some(config) => r.anti_idle_config == config,
            None => r.anti_idle_config.unset(),
        },
        match wire.anti_idle_status {
            Some(status) => r.anti_idle_status == status,
            None => r.anti_idle_status.unset(),
        },
        match wire.file_transfer_config {
            Some(config) => r.file_transfer_config == config,
            None => r.file_transfer_config.unset(),
        },
        match wire.input_handoff_config {
            Some(config) => r.input_handoff_config == config,
            None => r.input_handoff_config.unset(),
        },
        match wire.input_runtime {
            Some(runtime) => r.input_runtime == runtime,
            None => r.input_runtime.unset(),
        },
        match wire.clipboard_runtime {
            Some(runtime) => r.clipboard_runtime == runtime,
            None => r.clipboard_runtime.unset(),
        },
{
    UiSnapshot {
        generated_at: wire.generated_at,
        daemon_online: wire.daemon_online,
        daemon_version: wire.daemon_version,
        machine_id: wire.machine_id,
        layout_matrix: wire.layout_matrix,
        features: wire.features,
        hotkeys: wire.hotkeys,
        discovered_peers: wire.discovered_peers,
        paired_peers: wire.paired_peers,
        pending_requests: wire.pending_requests,
        anti_idle_config: match wire.anti_idle_config {
            Some(config) => config,
            None => UiAntiIdleConfig::default(),
        },
        anti_idle_status: match wire.anti_idle_status {
            Some(status) => status,
            None => UiAntiIdleStatus::default(),
        },
        file_transfer_config: match wire.file_transfer_config {
            Some(config) => config,
            None => UiFileTransferConfig::default(),
        },
        file_transfers: wire.file_transfers,
        input_handoff_config: match wire.input_handoff_config {
            Some(config) => config,
            None => UiInputHandoffConfig::default(),
        },
        input_runtime: match wire.input_runtime {
            Some(runtime) => runtime,
            None => UiInputRuntime::default(),
        },
        clipboard_runtime: match wire.clipboard_runtime {
            Some(runtime) => runtime,
            None => UiClipboardRuntime::default(),
        },
    }
}

/// The token that stands for this machine in a layout.
pub open spec fn canonical_local_token() -> Seq<char> {
    "self"@
}

/// The daemon is up, knows this machine, and nothing was ever paired or asked for.
pub open spec fn first_run(snapshot: UiSnapshot) -> bool {
    &&& snapshot.daemon_online
    &&& text::trimmed(snapshot.machine_id@).len() > 0
    &&& snapshot.paired_peers@.len() == 0
    &&& snapshot.pending_requests@.len() == 0
    &&& text::trimmed(snapshot.layout_matrix@) == canonical_local_token()
}

pub fn should_offer_first_run_onboarding(snapshot: &UiSnapshot) -> (r: bool)
    ensures
        r == first_run(*snapshot),
{
    snapshot.daemon_online && !text::trim(snapshot.machine_id.as_str()).as_str().is_empty()
        && snapshot.paired_peers.len() == 0 && snapshot.pending_requests.len() == 0 && text::same(
        text::trim(snapshot.layout_matrix.as_str()).as_str(),
        "self",
    )
}

/// Closing the window only hides it, as long as the tray icon can bring it back.
pub fn should_hide_on_close(exit_requested: bool, tray_available: bool) -> (r: bool)
    ensures
        r == (tray_available && !exit_requested),
{
    tray_available && !exit_requested
}

/// The front part of `value` that is eight bytes long, where it has one, else
/// all of it.
pub open spec fn short_text(value: Seq<char>) -> Seq<char> {
    match text::prefix_at(value, 8) {
        Some(n) => value.take(n),
        None => value,
    }
}

pub fn short_token(value: &str) -> (r: &str)
    ensures
        r@ == short_text(value@),
{
    match text::prefix_of_bytes(value, 8) {
        Some(n) => {
            assert(value@.subrange(0, n as int) =~= value@.take(n as int));
            value.substring_char(0, n)
        },
        None => value,
    }
}

/// `value`, or the word for nothing.
pub fn empty_as_none(value: &str) -> (r: &str)
    ensures
        r@ == (if value@.len() == 0 {
            "none"@
        } else {
            value@
        }),
{
    if value.is_empty() {
        "none"
    } else {
        value
    }
}

/// `iso` begins like an ISO 8601 timestamp: the byte after the first ten is a `T`,
/// and a character ends at the nineteenth byte.
pub open spec fn is_timestamp(iso: Seq<char>) -> bool {
    &&& text::prefix_at(iso, 10) is Some
    &&& text::prefix_at(iso, 19) is Some
    &&& iso[text::prefix_at(iso, 10)->0] == 'T'
}

/// A timestamp as `YYYY-MM-DD HH:MM:SS`: its first nineteen bytes, with a space in
/// place of the `T`; other texts as they are.
pub open spec fn timestamp_text(iso: Seq<char>) -> Seq<char> {
    if is_timestamp(iso) {
        let date_end = text::prefix_at(iso, 10)->0;
        let time_end = text::prefix_at(iso, 19)->0;
        iso.take(date_end) + " "@ + iso.subrange(date_end + 1, time_end)
    } else {
        iso
    }
}

/// Shortens an ISO 8601 timestamp to a readable `YYYY-MM-DD HH:MM:SS`. A text in
/// another format is returned as it is.
pub fn format_timestamp(iso: &str) -> (r: String)
    ensures
        r@ == timestamp_text(iso@),
{
    if let Some(n) = text::prefix_of_bytes(iso, 10) {
        if let Some(m) = text::prefix_of_bytes(iso, 19) {
            proof {
                if m <= n {
                    if m < n {
                        text::lemma_offset_grows(iso@, m as int, n as int);
                    }
                    assert(false);
                }
            }
            let chars = text::chars_of(iso);
            if chars[n] == 'T' {
                let date = text::string_of(&chars, 0, n);
                let time = text::string_of(&chars, n + 1, m);
                assert(date@ =~= iso@.take(n as int));
                return text::cat3(date.as_str(), " ", time.as_str());
            }
        }
    }
    text::owned(iso)
}

/// The name under which the tray announces itself to other instances.
pub fn tray_single_instance_event_name(prefix: &str, user_sid: &str, session_id: u32) -> (r: String)
    ensures
        r@ == prefix@ + "."@ + user_sid@ + "."@ + text::decimal(session_id as nat),
{
    let mut out = text::cat3(prefix, ".", user_sid);
    out.append(".");
    text::push_decimal(&mut out, session_id as u64);
    out
}

} // verus!

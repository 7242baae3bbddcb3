//! What the user changes in the settings.

use crate::actions::DashboardCommand;
use crate::dashboard::{DashboardModel, SettingsDrafts};
use crate::text;
use crate::ui::{UiAntiIdleConfig, UiFileTransferConfig, UiInputHandoffConfig};
use vstd::prelude::*;

verus! {

/// What is changed of how files are received.
#[derive(Debug, Clone, Copy, PartialEq, Eq, Structural)]
pub enum FileConfigChange {
    OrganizeByPeer,
    AutoAcceptTrustedPeers,
}

/// What is changed of how the pointer moves between machines.
#[derive(Debug, Clone, Copy, PartialEq, Eq, Structural)]
pub enum HandoffChange {
    BlockScreenCorners,
    CornerBlock { px: u32 },
    RelativeMouse,
    HideCursorAtEdge,
    DrawCursorMarker,
}

/// What is changed of how machines are kept awake.
#[derive(Debug, Clone, Copy, PartialEq, Eq, Structural)]
pub enum AntiIdleChange {
    Enabled,
    RecentActivity { minutes: u32 },
    AllowOnBattery,
    KeepDisplayOn,
}

/// Switches an option over; whatever else the daemon last said is kept.
pub open spec fn file_config_changed(
    config: UiFileTransferConfig,
    change: FileConfigChange,
) -> UiFileTransferConfig {
    match change {
        FileConfigChange::OrganizeByPeer => UiFileTransferConfig {
            organize_by_peer: !config.organize_by_peer,
            ..config
        },
        FileConfigChange::AutoAcceptTrustedPeers => UiFileTransferConfig {
            auto_accept_trusted_peers: !config.auto_accept_trusted_peers,
            ..config
        },
    }
}

pub open spec fn handoff_changed(
    config: UiInputHandoffConfig,
    change: HandoffChange,
) -> UiInputHandoffConfig {
    match change {
        HandoffChange::BlockScreenCorners => UiInputHandoffConfig {
            block_screen_corners: !config.block_screen_corners,
            ..config
        },
        HandoffChange::CornerBlock { px } => UiInputHandoffConfig { corner_block_px: px, ..config },
        HandoffChange::RelativeMouse => UiInputHandoffConfig {
            relative_mouse: !config.relative_mouse,
            ..config
        },
        HandoffChange::HideCursorAtEdge => UiInputHandoffConfig {
            hide_cursor_at_edge: !config.hide_cursor_at_edge,
            ..config
        },
        HandoffChange::DrawCursorMarker => UiInputHandoffConfig {
            draw_cursor_marker: !config.draw_cursor_marker,
            ..config
        },
    }
}

pub open spec fn anti_idle_changed(
    config: UiAntiIdleConfig,
    change: AntiIdleChange,
) -> UiAntiIdleConfig {
    match change {
        AntiIdleChange::Enabled => UiAntiIdleConfig { enabled: !config.enabled, ..config },
        AntiIdleChange::RecentActivity { minutes } => UiAntiIdleConfig {
            recent_activity_window_secs: (minutes * 60) as u32,
            ..config
        },
        AntiIdleChange::AllowOnBattery => UiAntiIdleConfig {
            allow_on_battery: !config.allow_on_battery,
            ..config
        },
        AntiIdleChange::KeepDisplayOn => UiAntiIdleConfig {
            keep_display_on: !config.keep_display_on,
            ..config
        },
    }
}

impl DashboardModel {
    /// Switches an option of receiving files over. A folder that was typed in and
    /// not saved is not sent along.
    pub fn change_file_config(&self, change: FileConfigChange) -> (r: DashboardCommand)
        ensures
            r == DashboardCommand::SetFileTransferConfig(
                file_config_changed(self.snapshot.file_transfer_config, change),
            ),
    {
        let config = &self.snapshot.file_transfer_config;
        let mut next = UiFileTransferConfig {
            receive_dir: config.receive_dir.clone(),
            organize_by_peer: config.organize_by_peer,
            auto_accept_trusted_peers: config.auto_accept_trusted_peers,
            max_file_bytes: config.max_file_bytes,
        };
        match change {
            FileConfigChange::OrganizeByPeer => {
                next.organize_by_peer = !config.organize_by_peer;
            },
            FileConfigChange::AutoAcceptTrustedPeers => {
                next.auto_accept_trusted_peers = !config.auto_accept_trusted_peers;
            },
        }
        DashboardCommand::SetFileTransferConfig(next)
    }

    /// Saves the folder that was typed in, where it differs from the daemon's.
    pub fn save_receive_dir(&self) -> (r: Option<DashboardCommand>)
        ensures
            r is Some <==> self.drafts.receive_dir@
                != self.snapshot.file_transfer_config.receive_dir@,
            r is Some ==> r->0 == DashboardCommand::SetFileTransferConfig(
                UiFileTransferConfig {
                    receive_dir: self.drafts.receive_dir,
                    ..self.snapshot.file_transfer_config
                },
            ),
    {
        let config = &self.snapshot.file_transfer_config;
        if text::same(self.drafts.receive_dir.as_str(), config.receive_dir.as_str()) {
            return None;
        }
        Some(
            DashboardCommand::SetFileTransferConfig(
                UiFileTransferConfig {
                    receive_dir: self.drafts.receive_dir.clone(),
                    organize_by_peer: config.organize_by_peer,
                    auto_accept_trusted_peers: config.auto_accept_trusted_peers,
                    max_file_bytes: config.max_file_bytes,
                },
            ),
        )
    }

    /// Opens the folder that files are received in, as the daemon last said.
    pub fn open_receive_folder(&self) -> (r: DashboardCommand)
        ensures
            r == DashboardCommand::OpenReceiveFolder(
                self.snapshot.file_transfer_config.receive_dir,
            ),
    {
        DashboardCommand::OpenReceiveFolder(self.snapshot.file_transfer_config.receive_dir.clone())
    }

    /// Changes how the pointer moves between machines.
    pub fn change_handoff(&self, change: HandoffChange) -> (r: DashboardCommand)
        ensures
            r == DashboardCommand::SetInputHandoffConfig(
                handoff_changed(self.snapshot.input_handoff_config, change),
            ),
    {
        let config = &self.snapshot.input_handoff_config;
        let mut next = UiInputHandoffConfig {
            block_screen_corners: config.block_screen_corners,
            corner_block_px: config.corner_block_px,
            relative_mouse: config.relative_mouse,
            hide_cursor_at_edge: config.hide_cursor_at_edge,
            draw_cursor_marker: config.draw_cursor_marker,
        };
        match change {
            HandoffChange::BlockScreenCorners => {
                next.block_screen_corners = !config.block_screen_corners;
            },
            HandoffChange::CornerBlock { px } => {
                next.corner_block_px = px;
            },
            HandoffChange::RelativeMouse => {
                next.relative_mouse = !config.relative_mouse;
            },
            HandoffChange::HideCursorAtEdge => {
                next.hide_cursor_at_edge = !config.hide_cursor_at_edge;
            },
            HandoffChange::DrawCursorMarker => {
                next.draw_cursor_marker = !config.draw_cursor_marker;
            },
        }
        DashboardCommand::SetInputHandoffConfig(next)
    }

    /// Changes how machines are kept awake, where this machine can be.
    pub fn change_anti_idle(&self, change: AntiIdleChange) -> (r: Option<DashboardCommand>)
        requires
            change matches AntiIdleChange::RecentActivity { minutes } ==> minutes * 60 <= u32::MAX,
        ensures
            r == (if self.snapshot.anti_idle_status.supported {
                Some(
                    DashboardCommand::SetAntiIdleConfig(
                        anti_idle_changed(self.snapshot.anti_idle_config, change),
                    ),
                )
            } else {
                None
            }),
    {
        if !self.snapshot.anti_idle_status.supported {
            return None;
        }
        let config = &self.snapshot.anti_idle_config;
        let mut next = UiAntiIdleConfig {
            enabled: config.enabled,
            recent_activity_window_secs: config.recent_activity_window_secs,
            allow_on_battery: config.allow_on_battery,
            keep_display_on: config.keep_display_on,
        };
        match change {
            AntiIdleChange::Enabled => {
                next.enabled = !config.enabled;
            },
            AntiIdleChange::RecentActivity { minutes } => {
                next.recent_activity_window_secs = minutes * 60;
            },
            AntiIdleChange::AllowOnBattery => {
                next.allow_on_battery = !config.allow_on_battery;
            },
            AntiIdleChange::KeepDisplayOn => {
                next.keep_display_on = !config.keep_display_on;
            },
        }
        Some(DashboardCommand::SetAntiIdleConfig(next))
    }

    /// The daemon's shortcut for an action; empty where it has none.
    pub open spec fn current_hotkey(self, action: Seq<char>) -> Seq<char> {
        if self.snapshot.hotkeys@.contains_key(action) {
            self.snapshot.hotkeys@[action]
        } else {
            Seq::empty()
        }
    }

    /// The shortcut that is shown for an action: what was typed in, or else the
    /// daemon's.
    pub fn hotkey_text(&self, action: &str) -> (r: String)
        ensures
            r@ == (if self.drafts.hotkeys@.contains_key(action@) {
                self.drafts.hotkeys@[action@]
            } else {
                self.current_hotkey(action@)
            }),
    {
        match self.drafts.hotkeys.get(action) {
            Some(edit) => edit,
            None => match self.snapshot.hotkeys.get(action) {
                Some(current) => current,
                None => String::new(),
            },
        }
    }

    /// Takes what is typed in for an action, and saves it if that is asked for and
    /// it differs from the daemon's shortcut.
    pub fn edit_hotkey(&mut self, action: String, combo: String, save: bool) -> (r: Option<
        DashboardCommand,
    >)
        ensures
            *final(self) == (DashboardModel {
                drafts: SettingsDrafts {
                    hotkeys: final(self).drafts.hotkeys,
                    ..old(self).drafts
                },
                ..*old(self)
            }),
            final(self).drafts.hotkeys@ == old(self).drafts.hotkeys@.insert(action@, combo@),
            r is Some <==> save && old(self).current_hotkey(action@) != combo@,
            r is Some ==> r->0 == (DashboardCommand::SetHotkey { action, combo }),
    {
        let current = match self.snapshot.hotkeys.get(action.as_str()) {
            Some(current) => current,
            None => String::new(),
        };
        assert(current@ =~= self.current_hotkey(action@));
        let changed = !text::same(current.as_str(), combo.as_str());
        let asked = if save && changed {
            Some(DashboardCommand::SetHotkey { action: action.clone(), combo: combo.clone() })
        } else {
            None
        };
        self.drafts.hotkeys.insert(action, combo);
        asked
    }
}

/// Switching an option over twice, once the daemon has taken the first change,
/// leads back to where it was.
pub proof fn law_switching_over_twice_is_no_change(
    file_config: UiFileTransferConfig,
    file_change: FileConfigChange,
    handoff: UiInputHandoffConfig,
    handoff_change: HandoffChange,
    anti_idle: UiAntiIdleConfig,
    anti_idle_change: AntiIdleChange,
)
    ensures
        file_config_changed(file_config_changed(file_config, file_change), file_change)
            == file_config,
        !(handoff_change is CornerBlock) ==> handoff_changed(
            handoff_changed(handoff, handoff_change),
            handoff_change,
        ) == handoff,
        !(anti_idle_change is RecentActivity) ==> anti_idle_changed(
            anti_idle_changed(anti_idle, anti_idle_change),
            anti_idle_change,
        ) == anti_idle,
{
}

} // verus!

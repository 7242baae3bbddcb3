//! Files that the user sends, and the list of transfers.

use crate::actions::DashboardCommand;
use crate::dashboard::DashboardModel;
use crate::layout::{is_peer_connected, layout_display_name, shown_connected, shown_name};
use crate::maps::flag_on;
use crate::text;
use crate::transfers::{count_in, has_completed_transfers};
use crate::ui::UiPairedPeer;
use vstd::prelude::*;

verus! {

/// The machine at `at` is connected and has the id `id`.
pub open spec fn connected_as(peers: Seq<UiPairedPeer>, at: int, id: Seq<char>) -> bool {
    0 <= at < peers.len() && peers[at].connected && peers[at].peer_id@ == id
}

/// The machine at `at` is the first one that is connected.
pub open spec fn first_connected(peers: Seq<UiPairedPeer>, at: int) -> bool {
    &&& 0 <= at < peers.len()
    &&& peers[at].connected
    &&& forall|k: int| 0 <= k < at ==> !(#[trigger] peers[k]).connected
}

/// A machine is connected and has the id `id`.
pub open spec fn receives_as(peers: Seq<UiPairedPeer>, id: Seq<char>) -> bool {
    exists|at: int| connected_as(peers, at, id)
}

fn can_receive(peers: &Vec<UiPairedPeer>, id: &str) -> (r: bool)
    ensures
        r == receives_as(peers@, id@),
{
    let mut i: usize = 0;
    while i < peers.len()
        invariant
            i <= peers.len(),
            forall|k: int| 0 <= k < i ==> !connected_as(peers@, k, id@),
        decreases peers.len() - i,
    {
        if peers[i].connected && text::same(peers[i].peer_id.as_str(), id) {
            assert(connected_as(peers@, i as int, id@));
            return true;
        }
        i = i + 1;
    }
    false
}

fn find_connected(peers: &Vec<UiPairedPeer>) -> (r: Option<usize>)
    ensures
        match r {
            Some(at) => first_connected(peers@, at as int),
            None => forall|k: int| 0 <= k < peers@.len() ==> !(#[trigger] peers@[k]).connected,
        },
{
    let mut i: usize = 0;
    while i < peers.len()
        invariant
            i <= peers.len(),
            forall|k: int| 0 <= k < i ==> !(#[trigger] peers@[k]).connected,
        decreases peers.len() - i,
    {
        if peers[i].connected {
            return Some(i);
        }
        i = i + 1;
    }
    None
}

/// What is said below the button that sends a file.
#[derive(Debug, Clone, Copy, PartialEq, Eq, Structural)]
pub enum SendHint {
    SharingOff,
    CompleteSelection,
    NothingConnected,
    ChooseFile,
}

impl SendHint {
    pub open spec fn hint_text(self) -> Seq<char> {
        match self {
            SendHint::SharingOff =>
                "File sharing is off. Turn on Share files in Sharing to send or receive."@,
            SendHint::CompleteSelection => "Complete the file selection to send."@,
            SendHint::NothingConnected => "Connect a paired PC before sending a file."@,
            SendHint::ChooseFile =>
                "Choose a file using the Windows file picker. Receiving must be allowed on the other PC."@,
        }
    }

    pub fn text(self) -> (r: &'static str)
        ensures
            r@ == self.hint_text(),
    {
        match self {
            SendHint::SharingOff =>
                "File sharing is off. Turn on Share files in Sharing to send or receive.",
            SendHint::CompleteSelection => "Complete the file selection to send.",
            SendHint::NothingConnected => "Connect a paired PC before sending a file.",
            SendHint::ChooseFile =>
                "Choose a file using the Windows file picker. Receiving must be allowed on the other PC.",
        }
    }
}

impl DashboardModel {
    pub open spec fn shares_files(self) -> bool {
        flag_on(self.snapshot.features@, "transfer_file"@)
    }

    /// `next` sends to a machine that is connected: the one that was chosen, or else
    /// the first one, or none.
    pub open spec fn receiver_chosen(self, next: DashboardModel) -> bool {
        let peers = self.snapshot.paired_peers@;
        &&& next == (DashboardModel { file_send_peer: next.file_send_peer, ..self })
        &&& if receives_as(peers, self.file_send_peer@) {
            next.file_send_peer == self.file_send_peer
        } else if exists|at: int| first_connected(peers, at) {
            exists|at: int|
                #[trigger] first_connected(peers, at) && next.file_send_peer == peers[at].peer_id
        } else {
            next.file_send_peer@.len() == 0
        }
    }

    /// Chooses whom files are sent to, where the one who was chosen cannot receive.
    pub fn choose_receiver(&mut self)
        ensures
            old(self).receiver_chosen(*final(self)),
    {
        if can_receive(&self.snapshot.paired_peers, self.file_send_peer.as_str()) {
            return;
        }
        match find_connected(&self.snapshot.paired_peers) {
            Some(at) => {
                self.file_send_peer = self.snapshot.paired_peers[at].peer_id.clone();
                assert(first_connected(old(self).snapshot.paired_peers@, at as int));
            },
            None => {
                self.file_send_peer = String::new();
                assert forall|at: int| !first_connected(old(self).snapshot.paired_peers@, at) by {
                    if first_connected(old(self).snapshot.paired_peers@, at) {
                        assert(old(self).snapshot.paired_peers@[at].connected);
                    }
                }
            },
        }
    }

    /// The name of whom files are sent to.
    pub fn receiver_name(&self) -> (r: String)
        ensures
            receives_as(self.snapshot.paired_peers@, self.file_send_peer@) ==> exists|at: int|
                #[trigger] connected_as(self.snapshot.paired_peers@, at, self.file_send_peer@) && r
                    == self.snapshot.paired_peers@[at].display_name && forall|k: int|
                    0 <= k < at ==> !connected_as(
                        self.snapshot.paired_peers@,
                        k,
                        self.file_send_peer@,
                    ),
            !receives_as(self.snapshot.paired_peers@, self.file_send_peer@) ==> r@
                == "No connected PC"@,
    {
        let peers = &self.snapshot.paired_peers;
        let id = self.file_send_peer.as_str();
        let mut i: usize = 0;
        while i < peers.len()
            invariant
                i <= peers.len(),
                id@ == self.file_send_peer@,
                peers@ == self.snapshot.paired_peers@,
                forall|k: int| 0 <= k < i ==> !connected_as(peers@, k, id@),
            decreases peers.len() - i,
        {
            if peers[i].connected && text::same(peers[i].peer_id.as_str(), id) {
                assert(connected_as(peers@, i as int, id@));
                return peers[i].display_name.clone();
            }
            i = i + 1;
        }
        text::owned("No connected PC")
    }

    /// A file can be chosen to be sent: files are shared, someone can receive and no
    /// choice is being made.
    pub open spec fn sending_possible(self) -> bool {
        self.shares_files() && self.file_send_peer@.len() > 0 && !self.file_send_pending
    }

    pub fn can_send_file(&self) -> (r: bool)
        ensures
            r == self.sending_possible(),
    {
        self.snapshot.features.is_on("transfer_file") && !self.file_send_peer.as_str().is_empty()
            && !self.file_send_pending
    }

    /// Lets the user choose a file to send.
    pub fn send_file(&mut self) -> (r: Option<DashboardCommand>)
        ensures
            !old(self).sending_possible() ==> r is None && *final(self) == *old(self),
            old(self).sending_possible() ==> r == Some(
                DashboardCommand::ChooseAndSendFile(old(self).file_send_peer),
            ) && *final(self) == (DashboardModel { file_send_pending: true, ..*old(self) }),
    {
        if !self.can_send_file() {
            return None;
        }
        self.file_send_pending = true;
        Some(DashboardCommand::ChooseAndSendFile(self.file_send_peer.clone()))
    }

    pub fn send_hint(&self) -> (r: SendHint)
        ensures
            r == (if !self.shares_files() {
                SendHint::SharingOff
            } else if self.file_send_pending {
                SendHint::CompleteSelection
            } else if !(exists|at: int| first_connected(self.snapshot.paired_peers@, at)) {
                SendHint::NothingConnected
            } else {
                SendHint::ChooseFile
            }),
    {
        if !self.snapshot.features.is_on("transfer_file") {
            return SendHint::SharingOff;
        }
        if self.file_send_pending {
            return SendHint::CompleteSelection;
        }
        match find_connected(&self.snapshot.paired_peers) {
            Some(at) => {
                assert(first_connected(self.snapshot.paired_peers@, at as int));
                SendHint::ChooseFile
            },
            None => {
                assert forall|at: int| !first_connected(self.snapshot.paired_peers@, at) by {
                    if first_connected(self.snapshot.paired_peers@, at) {
                        assert(self.snapshot.paired_peers@[at].connected);
                    }
                }
                SendHint::NothingConnected
            },
        }
    }

    /// What is said of incoming files while there are no transfers.
    pub fn receive_hint(&self) -> (r: &'static str)
        ensures
            r@ == (if !self.shares_files() {
                "File sharing is off."@
            } else if self.snapshot.file_transfer_config.auto_accept_trusted_peers {
                "Incoming files from trusted PCs are allowed."@
            } else {
                "Incoming files are blocked. Allow trusted PCs in Sharing before receiving."@
            }),
    {
        if !self.snapshot.features.is_on("transfer_file") {
            "File sharing is off."
        } else if self.snapshot.file_transfer_config.auto_accept_trusted_peers {
            "Incoming files from trusted PCs are allowed."
        } else {
            "Incoming files are blocked. Allow trusted PCs in Sharing before receiving."
        }
    }

    /// Files were dropped on the arrangement, on a cell of it or beside the cells:
    /// they are sent to the machine there, if it is another one and connected. Without
    /// a file nothing happens.
    pub fn drop_files(&mut self, cell: Option<(i32, i32)>, paths: Vec<String>, now_ms: u64) -> (r:
        Option<DashboardCommand>)
        requires
            old(self).wf(),
            old(self).can_report(),
        ensures
            final(self).wf(),
            paths@.len() == 0 ==> r is None && *final(self) == *old(self),
            paths@.len() > 0 ==> ({
                let grid = old(self).layout.grid@;
                let local = old(self).snapshot.machine_id@;
                let peers = old(self).snapshot.paired_peers@;
                if cell is Some && grid.contains_key(cell->0) {
                    let id = grid[cell->0];
                    if id == local {
                        r is None && old(self).reports(
                            *final(self),
                            "Drop files on a connected peer to send them"@,
                            true,
                            now_ms,
                        )
                    } else if shown_connected(id, local, peers) {
                        &&& *final(self) == *old(self)
                        &&& r matches Some(
                            DashboardCommand::SendFilesToPeer { receiver, paths: sent },
                        )
                        &&& receiver@ == id
                        &&& sent == paths
                    } else {
                        r is None && old(self).reports(
                            *final(self),
                            shown_name(id, local, peers)
                                + " is offline; connect it before sending files"@,
                            true,
                            now_ms,
                        )
                    }
                } else {
                    r is None && old(self).reports(
                        *final(self),
                        "Drop files directly on a connected peer tile to send them"@,
                        true,
                        now_ms,
                    )
                }
            }),
    {
        if paths.len() == 0 {
            return None;
        }
        let target: Option<String> = match cell {
            Some((x, y)) => match self.layout.grid.get(x, y) {
                Some(id) => Some(id.clone()),
                None => None,
            },
            None => None,
        };
        match target {
            Some(id) => {
                let local = self.snapshot.machine_id.as_str();
                if text::same(id.as_str(), local) {
                    let report = text::owned("Drop files on a connected peer to send them");
                    self.push_toast(report, true, now_ms);
                    None
                } else if is_peer_connected(id.as_str(), local, &self.snapshot.paired_peers) {
                    Some(DashboardCommand::SendFilesToPeer { receiver: id, paths })
                } else {
                    let name = layout_display_name(
                        id.as_str(),
                        local,
                        &self.snapshot.paired_peers,
                    );
                    let report = text::cat2(
                        name.as_str(),
                        " is offline; connect it before sending files",
                    );
                    self.push_toast(report, true, now_ms);
                    None
                }
            },
            None => {
                let report = text::owned(
                    "Drop files directly on a connected peer tile to send them",
                );
                self.push_toast(report, true, now_ms);
                None
            },
        }
    }

    /// Stops a transfer that can be stopped.
    pub fn cancel_transfer(&self, index: usize) -> (r: Option<DashboardCommand>)
        ensures
            r == (if index < self.snapshot.file_transfers@.len()
                && self.snapshot.file_transfers@[index as int].cancellable() {
                Some(
                    DashboardCommand::CancelFileTransfer(
                        self.snapshot.file_transfers@[index as int].transfer_id,
                    ),
                )
            } else {
                None
            }),
    {
        if index >= self.snapshot.file_transfers.len()
            || !self.snapshot.file_transfers[index].can_cancel() {
            return None;
        }
        Some(
            DashboardCommand::CancelFileTransfer(
                self.snapshot.file_transfers[index].transfer_id.clone(),
            ),
        )
    }

    /// Starts a transfer again that can be, while files are shared.
    pub fn retry_transfer(&self, index: usize) -> (r: Option<DashboardCommand>)
        ensures
            r == (if index < self.snapshot.file_transfers@.len()
                && self.snapshot.file_transfers@[index as int].retryable() && self.shares_files() {
                Some(
                    DashboardCommand::RetryFileTransfer(
                        self.snapshot.file_transfers@[index as int].transfer_id,
                    ),
                )
            } else {
                None
            }),
    {
        if index >= self.snapshot.file_transfers.len()
            || !self.snapshot.file_transfers[index].can_retry()
            || !self.snapshot.features.is_on("transfer_file") {
            return None;
        }
        Some(
            DashboardCommand::RetryFileTransfer(
                self.snapshot.file_transfers[index].transfer_id.clone(),
            ),
        )
    }

    /// Shows where a file that was received lies.
    pub fn open_transfer_location(&self, index: usize) -> (r: Option<DashboardCommand>)
        ensures
            r == (if index < self.snapshot.file_transfers@.len()
                && self.snapshot.file_transfers@[index as int].openable() {
                Some(
                    DashboardCommand::OpenReceivedFileLocation(
                        self.snapshot.file_transfers@[index as int].final_path,
                    ),
                )
            } else {
                None
            }),
    {
        if index >= self.snapshot.file_transfers.len()
            || !self.snapshot.file_transfers[index].can_open_location() {
            return None;
        }
        Some(
            DashboardCommand::OpenReceivedFileLocation(
                self.snapshot.file_transfers[index].final_path.clone(),
            ),
        )
    }

    /// Takes the completed transfers off the list, where there are any.
    pub fn clear_completed_transfers(&self) -> (r: Option<DashboardCommand>)
        ensures
            r == (if count_in(
                self.snapshot.file_transfers@,
                "completed"@,
                "completed"@,
            ) > 0 {
                Some(DashboardCommand::ClearCompletedFileTransfers)
            } else {
                None
            }),
    {
        if has_completed_transfers(&self.snapshot.file_transfers) {
            Some(DashboardCommand::ClearCompletedFileTransfers)
        } else {
            None
        }
    }
}

/// Files are only ever sent to a machine that is connected, once the receiver was
/// chosen.
pub proof fn law_files_go_to_a_connected_machine(
    before: DashboardModel,
    chosen: DashboardModel,
)
    requires
        before.receiver_chosen(chosen),
        chosen.file_send_peer@.len() > 0,
    ensures
        receives_as(chosen.snapshot.paired_peers@, chosen.file_send_peer@),
{
    let peers = before.snapshot.paired_peers@;
    if !receives_as(peers, before.file_send_peer@) {
        if exists|at: int| first_connected(peers, at) {
            let at = choose|at: int| #[trigger]
                first_connected(peers, at) && chosen.file_send_peer == peers[at].peer_id;
            assert(connected_as(peers, at, chosen.file_send_peer@));
        }
    }
}

} // verus!

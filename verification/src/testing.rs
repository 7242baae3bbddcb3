//! The permission for another machine to measure the connection.

use crate::actions::{DashboardCommand, TestingChange, TESTING_SECONDS};
use crate::dashboard::{DashboardModel, TestingPermission};
use crate::layout::{find_peer, place_of_id};
use crate::text;
use vstd::prelude::*;

verus! {

/// How many seconds are left of a permission that was reported at a time.
pub open spec fn seconds_left(reported: u32, reported_at_ms: Option<u64>, now_ms: u64) -> int {
    let elapsed = match reported_at_ms {
        Some(at) => if now_ms > at {
            (now_ms - at) / 1000
        } else {
            0
        },
        None => 0,
    };
    if reported > elapsed {
        reported - elapsed
    } else {
        0
    }
}

fn count_seconds_left(reported: u32, reported_at_ms: Option<u64>, now_ms: u64) -> (r: u64)
    ensures
        r == seconds_left(reported, reported_at_ms, now_ms),
{
    let elapsed: u64 = match reported_at_ms {
        Some(at) => now_ms.saturating_sub(at) / 1000,
        None => 0,
    };
    (reported as u64).saturating_sub(elapsed)
}

impl DashboardModel {
    /// Chooses whom to allow measuring, where nobody was chosen.
    pub fn choose_testing_peer(&mut self)
        ensures
            *final(self) == (DashboardModel {
                testing: TestingPermission {
                    peer: final(self).testing.peer,
                    ..old(self).testing
                },
                ..*old(self)
            }),
            old(self).testing.peer@.len() > 0 ==> final(self).testing.peer == old(
                self,
            ).testing.peer,
            old(self).testing.peer@.len() == 0 ==> if old(self).snapshot.paired_peers@.len() > 0 {
                final(self).testing.peer == old(self).snapshot.paired_peers@[0].peer_id
            } else {
                final(self).testing.peer@.len() == 0
            },
    {
        if self.testing.peer.as_str().is_empty() {
            if self.snapshot.paired_peers.len() > 0 {
                self.testing.peer = self.snapshot.paired_peers[0].peer_id.clone();
            } else {
                self.testing.peer = String::new();
            }
        }
    }

    /// The name of whom to allow measuring.
    pub fn testing_peer_name(&self) -> (r: String)
        ensures
            r@ == (match place_of_id(self.snapshot.paired_peers@, self.testing.peer@) {
                Some(at) => self.snapshot.paired_peers@[at].display_name@,
                None => "Choose a paired PC"@,
            }),
    {
        match find_peer(&self.snapshot.paired_peers, self.testing.peer.as_str()) {
            Some(at) => self.snapshot.paired_peers[at].display_name.clone(),
            None => text::owned("Choose a paired PC"),
        }
    }

    /// Who is allowed to measure, by name.
    pub open spec fn allowed_name(self) -> Seq<char> {
        match self.testing.consent->0.peer_id {
            Some(id) => match place_of_id(self.snapshot.paired_peers@, id@) {
                Some(at) => self.snapshot.paired_peers@[at].display_name@,
                None => "previously selected PC"@,
            },
            None => "previously selected PC"@,
        }
    }

    pub open spec fn testing_text(self, now_ms: u64) -> Seq<char> {
        match self.testing.consent {
            None => "Permission status has not been checked in this window."@,
            Some(consent) => {
                let left = seconds_left(
                    consent.remaining_seconds,
                    self.testing.updated_at_ms,
                    now_ms,
                );
                if consent.enabled && left > 0 {
                    "Last reported: allowed for "@ + self.allowed_name() + "; expires within "@
                        + text::decimal(left as nat) + "s."@
                } else {
                    "Permission is off or has expired."@
                }
            },
        }
    }

    /// What is known of the permission at a time.
    pub fn testing_line(&self, now_ms: u64) -> (r: String)
        ensures
            r@ == self.testing_text(now_ms),
    {
        match &self.testing.consent {
            None => text::owned("Permission status has not been checked in this window."),
            Some(consent) => {
                let left = count_seconds_left(
                    consent.remaining_seconds,
                    self.testing.updated_at_ms,
                    now_ms,
                );
                if !consent.enabled || left == 0 {
                    return text::owned("Permission is off or has expired.");
                }
                let found = match &consent.peer_id {
                    Some(id) => find_peer(&self.snapshot.paired_peers, id.as_str()),
                    None => None,
                };
                let name = match found {
                    Some(at) => self.snapshot.paired_peers[at].display_name.as_str(),
                    None => "previously selected PC",
                };
                text::cat5(
                    "Last reported: allowed for ",
                    name,
                    "; expires within ",
                    text::decimal_string(left).as_str(),
                    "s.",
                )
            },
        }
    }

    /// What went wrong with the last change, in a line.
    pub fn testing_error_line(&self) -> (r: Option<String>)
        ensures
            r is Some <==> self.testing.error is Some,
            r is Some ==> r->0@ == "Could not check or change permission: "@
                + self.testing.error->0@,
    {
        match &self.testing.error {
            Some(error) => Some(
                text::cat2("Could not check or change permission: ", error.as_str()),
            ),
            None => None,
        }
    }

    /// The permission can be changed: the daemon is there and no change is under way.
    pub open spec fn testing_available(self) -> bool {
        self.snapshot.daemon_online && !self.testing.pending
    }

    /// A change of the permission is under way.
    pub open spec fn testing_asked(self) -> DashboardModel {
        DashboardModel {
            testing: TestingPermission { pending: true, error: None, ..self.testing },
            ..self
        }
    }

    fn ask_testing(&mut self)
        ensures
            *final(self) == old(self).testing_asked(),
    {
        self.testing.pending = true;
        self.testing.error = None;
    }

    /// Whether the permission can be asked for or changed now.
    pub fn can_change_testing(&self) -> (r: bool)
        ensures
            r == self.testing_available(),
    {
        self.snapshot.daemon_online && !self.testing.pending
    }

    /// Allows the chosen machine to measure for a while.
    pub fn allow_testing(&mut self) -> (r: Option<DashboardCommand>)
        ensures
            ({
                let possible = old(self).testing_available() && old(self).testing.peer@.len() > 0;
                &&& !possible ==> r is None && *final(self) == *old(self)
                &&& possible ==> *final(self) == old(self).testing_asked() && r == Some(
                    DashboardCommand::ChangeTestingPermission(
                        TestingChange::Allow {
                            allowed: old(self).testing.peer,
                            duration_seconds: TESTING_SECONDS,
                        },
                    ),
                )
            }),
    {
        if !self.can_change_testing() || self.testing.peer.as_str().is_empty() {
            return None;
        }
        self.ask_testing();
        Some(
            DashboardCommand::ChangeTestingPermission(
                TestingChange::Allow {
                    allowed: self.testing.peer.clone(),
                    duration_seconds: TESTING_SECONDS,
                },
            ),
        )
    }

    /// Takes the permission back: from the machine that was reported to have it, or
    /// else from the chosen one.
    pub fn stop_testing(&mut self) -> (r: Option<DashboardCommand>)
        ensures
            !old(self).testing_available() ==> r is None && *final(self) == *old(self),
            old(self).testing_available() ==> *final(self) == old(self).testing_asked() && r
                == Some(
                DashboardCommand::ChangeTestingPermission(
                    TestingChange::Allow {
                        allowed: if old(self).testing.consent is Some && old(
                            self,
                        ).testing.consent->0.peer_id is Some {
                            old(self).testing.consent->0.peer_id->0
                        } else {
                            old(self).testing.peer
                        },
                        duration_seconds: 0,
                    },
                ),
            ),
    {
        if !self.can_change_testing() {
            return None;
        }
        let reported: Option<String> = match &self.testing.consent {
            Some(consent) => match &consent.peer_id {
                Some(id) => Some(id.clone()),
                None => None,
            },
            None => None,
        };
        let allowed = match reported {
            Some(id) => id,
            None => self.testing.peer.clone(),
        };
        self.ask_testing();
        Some(
            DashboardCommand::ChangeTestingPermission(
                TestingChange::Allow { allowed, duration_seconds: 0 },
            ),
        )
    }

    /// Asks for the current permission.
    pub fn refresh_testing(&mut self) -> (r: Option<DashboardCommand>)
        ensures
            !old(self).testing_available() ==> r is None && *final(self) == *old(self),
            old(self).testing_available() ==> *final(self) == old(self).testing_asked() && r
                == Some(DashboardCommand::ChangeTestingPermission(TestingChange::Refresh)),
    {
        if !self.can_change_testing() {
            return None;
        }
        self.ask_testing();
        Some(DashboardCommand::ChangeTestingPermission(TestingChange::Refresh))
    }
}

/// A permission that was reported is never shown for longer than was reported.
pub proof fn law_permission_expires(reported: u32, reported_at_ms: u64, now_ms: u64)
    requires
        reported_at_ms + reported * 1000 <= now_ms,
    ensures
        seconds_left(reported, Some(reported_at_ms), now_ms) == 0,
{
}

} // verus!

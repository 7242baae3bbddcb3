//! Pairing with another machine: choosing it, reading its answers, and putting
//! failures into words.

use crate::order::rearranged;
use crate::text;
use crate::ui::{UiDiscoveredPeer, UiPairedPeer, UiPendingRequest};
use vstd::prelude::*;

verus! {

/// The port on which machines pair.
pub const DEFAULT_PAIRING_PORT: u16 = 15200;

/// Why a pairing cannot be started from what was entered.
#[derive(Debug, Clone, Copy, PartialEq, Eq, Structural)]
pub enum PairingInputError {
    EmptyCode,
    PortNotANumber,
    PortOutOfRange,
    BadEndpoint,
}

impl PairingInputError {
    pub open spec fn text(self) -> Seq<char> {
        match self {
            PairingInputError::EmptyCode => "pairing code cannot be empty"@,
            PairingInputError::PortNotANumber => "pairing port must be a number"@,
            PairingInputError::PortOutOfRange => "pairing port must be in 1..=65535"@,
            PairingInputError::BadEndpoint => "Failed to parse peer endpoint"@,
        }
    }

    /// The error in words.
    pub fn message(&self) -> (r: String)
        ensures
            r@ == self.text(),
    {
        match *self {
            PairingInputError::EmptyCode => text::owned("pairing code cannot be empty"),
            PairingInputError::PortNotANumber => text::owned("pairing port must be a number"),
            PairingInputError::PortOutOfRange => text::owned("pairing port must be in 1..=65535"),
            PairingInputError::BadEndpoint => text::owned("Failed to parse peer endpoint"),
        }
    }
}

/// A pairing that the user is led through.
#[derive(Debug)]
pub struct GuidedPairingFlow {
    pub dialog_title: String,
    pub host: String,
    pub pairing_port: u16,
    pub default_alias: String,
    pub orientation_selector_fallback: String,
    pub endpoint_candidates: Vec<String>,
}

impl Clone for GuidedPairingFlow {
    fn clone(&self) -> (r: GuidedPairingFlow)
        ensures
            same_flow(r, *self),
    {
        GuidedPairingFlow {
            dialog_title: self.dialog_title.clone(),
            host: self.host.clone(),
            pairing_port: self.pairing_port,
            default_alias: self.default_alias.clone(),
            orientation_selector_fallback: self.orientation_selector_fallback.clone(),
            endpoint_candidates: text::copy_texts(&self.endpoint_candidates),
        }
    }
}

/// Two flows that lead to the same pairing, in the same words.
pub open spec fn same_flow(a: GuidedPairingFlow, b: GuidedPairingFlow) -> bool {
    &&& a.dialog_title@ == b.dialog_title@
    &&& a.host@ == b.host@
    &&& a.pairing_port == b.pairing_port
    &&& a.default_alias@ == b.default_alias@
    &&& a.orientation_selector_fallback@ == b.orientation_selector_fallback@
    &&& a.endpoint_candidates@ == b.endpoint_candidates@
}

/// What the other machine asks for before it pairs.
#[derive(Debug)]
pub struct PairingChallengeState {
    pub request_id: String,
    pub verification_nonce: String,
    pub expires_at: String,
}

impl Clone for PairingChallengeState {
    fn clone(&self) -> (r: PairingChallengeState)
        ensures
            r == *self,
    {
        PairingChallengeState {
            request_id: self.request_id.clone(),
            verification_nonce: self.verification_nonce.clone(),
            expires_at: self.expires_at.clone(),
        }
    }
}

#[derive(Debug, Clone)]
pub struct GuidedPairingResult {
    pub peer_machine_id: String,
    pub orientation_selector: String,
}

/// A code must not be blank.
pub fn validate_pairing_code(code: &str) -> (r: Result<(), PairingInputError>)
    ensures
        r is Err <==> text::trimmed(code@).len() == 0,
        r is Err ==> r->Err_0 == PairingInputError::EmptyCode,
{
    if text::trim(code).as_str().is_empty() {
        Err(PairingInputError::EmptyCode)
    } else {
        Ok(())
    }
}

/// A port is a number from 1 to 65535.
pub fn parse_pairing_port(port_text: &str) -> (r: Result<u16, PairingInputError>)
    ensures
        match r {
            Ok(port) => port > 0 && text::parsed(port_text@, u16::MAX as nat) == Some(port as nat),
            Err(error) => if text::parsed(port_text@, u64::MAX as nat) is None {
                error == PairingInputError::PortNotANumber
            } else {
                &&& error == PairingInputError::PortOutOfRange
                &&& text::parsed(port_text@, u64::MAX as nat)->0 == 0 || text::parsed(
                    port_text@,
                    u64::MAX as nat,
                )->0 > u16::MAX
            },
        },
{
    match text::parse_unsigned(port_text, u64::MAX) {
        None => Err(PairingInputError::PortNotANumber),
        Some(number) => {
            if number == 0 || number > 65535 {
                Err(PairingInputError::PortOutOfRange)
            } else {
                Ok(number as u16)
            }
        },
    }
}

/// The part of an endpoint before its last colon, where the endpoint is a host
/// and a port.
pub open spec fn endpoint_host(endpoint: Seq<char>) -> Option<Seq<char>> {
    match text::last_char_at(endpoint, ':') {
        Some(at) => {
            let port = text::parsed(endpoint.skip(at + 1), u16::MAX as nat);
            if at > 0 && port is Some && port->0 > 0 {
                Some(endpoint.take(at))
            } else {
                None
            }
        },
        None => None,
    }
}

/// The host of a transport endpoint, with the port on which it pairs.
pub fn host_and_pairing_port_from_endpoint(endpoint: &str) -> (r: Option<(String, u16)>)
    ensures
        match r {
            Some(target) => endpoint_host(endpoint@) == Some(target.0@) && target.1
                == DEFAULT_PAIRING_PORT,
            None => endpoint_host(endpoint@) is None,
        },
{
    match text::rfind_char(endpoint, ':') {
        None => None,
        Some(at) => {
            let port = text::suffix(endpoint, at + 1);
            let valid = match text::parse_unsigned(port.as_str(), 65535) {
                Some(number) => number > 0,
                None => false,
            };
            if at > 0 && valid {
                let chars = text::chars_of(endpoint);
                let host = text::string_of(&chars, 0, at);
                assert(host@ =~= endpoint@.take(at as int));
                Some((host, DEFAULT_PAIRING_PORT))
            } else {
                None
            }
        },
    }
}

/// The pairing with a machine that was discovered.
pub fn guided_flow_from_discovered_peer(peer: &UiDiscoveredPeer) -> (r: Result<
    GuidedPairingFlow,
    PairingInputError,
>)
    ensures
        r is Ok <==> endpoint_host(peer.endpoint@) is Some,
        r is Err ==> r->Err_0 == PairingInputError::BadEndpoint,
        r is Ok ==> {
            let flow = r->Ok_0;
            &&& flow.dialog_title@ == "Pair with "@ + peer.display_name@
            &&& Some(flow.host@) == endpoint_host(peer.endpoint@)
            &&& flow.pairing_port == DEFAULT_PAIRING_PORT
            &&& flow.default_alias@ == peer.display_name@
            &&& flow.orientation_selector_fallback@ == peer.display_name@
            &&& flow.endpoint_candidates@ == peer.endpoint_candidates@
        },
{
    match host_and_pairing_port_from_endpoint(peer.endpoint.as_str()) {
        None => Err(PairingInputError::BadEndpoint),
        Some((host, pairing_port)) => Ok(
            GuidedPairingFlow {
                dialog_title: text::cat2("Pair with ", peer.display_name.as_str()),
                host,
                pairing_port,
                default_alias: peer.display_name.clone(),
                orientation_selector_fallback: peer.display_name.clone(),
                endpoint_candidates: text::copy_texts(&peer.endpoint_candidates),
            },
        ),
    }
}

/// The pairing with a machine of which host and port were entered.
pub fn guided_flow_from_manual_input(host: &str, port_text: &str) -> (r: Result<
    GuidedPairingFlow,
    PairingInputError,
>)
    ensures
        r is Ok ==> {
            let flow = r->Ok_0;
            &&& flow.dialog_title@ == "Manual Pair "@ + host@
            &&& flow.host@ == host@
            &&& flow.pairing_port > 0
            &&& text::parsed(port_text@, u16::MAX as nat) == Some(flow.pairing_port as nat)
            &&& flow.default_alias@.len() == 0
            &&& flow.orientation_selector_fallback@ == host@
            &&& flow.endpoint_candidates@.len() == 0
        },
        r is Err ==> {
            let number = text::parsed(port_text@, u64::MAX as nat);
            &&& number is None ==> r->Err_0 == PairingInputError::PortNotANumber
            &&& number is Some ==> r->Err_0 == PairingInputError::PortOutOfRange && (number->0 == 0
                || number->0 > u16::MAX)
        },
{
    match parse_pairing_port(port_text) {
        Err(error) => Err(error),
        Ok(pairing_port) => Ok(
            GuidedPairingFlow {
                dialog_title: text::cat2("Manual Pair ", host),
                host: text::owned(host),
                pairing_port,
                default_alias: String::new(),
                orientation_selector_fallback: text::owned(host),
                endpoint_candidates: Vec::new(),
            },
        ),
    }
}

/// The entered address can be connected to: the host is not blank and the port,
/// without white space around it, is a port.
pub fn manual_address_ready(host: &str, port_text: &str) -> (r: bool)
    ensures
        r == (text::trimmed(host@).len() > 0 && manual_port_valid(port_text@)),
{
    let port_valid = port_entry_valid(port_text);
    !text::trim(host).as_str().is_empty() && port_valid
}

pub open spec fn manual_port_valid(port_text: Seq<char>) -> bool {
    let port = text::parsed(text::trimmed(port_text), u16::MAX as nat);
    port is Some && port->0 > 0
}

pub fn port_entry_valid(port_text: &str) -> (r: bool)
    ensures
        r == manual_port_valid(port_text@),
{
    match text::parse_unsigned(text::trim(port_text).as_str(), 65535) {
        Some(port) => port > 0,
        None => false,
    }
}

/// The daemon's answer to a request for a code.
#[derive(Debug)]
pub struct NearbyCodeReply {
    pub code_required: bool,
    pub unsupported: bool,
    pub request_id: String,
    pub verification_nonce: String,
    pub verification_expires_at: String,
    pub message: String,
}

#[derive(Debug)]
pub enum NearbyRequestCodeStart {
    CodeRequired(PairingChallengeState),
    Unsupported { reason: String },
}

/// What a request for a code came to.
pub fn pair_nearby_request_code(reply: NearbyCodeReply) -> (r: Result<
    NearbyRequestCodeStart,
    String,
>)
    ensures
        if reply.code_required {
            r == Ok::<NearbyRequestCodeStart, String>(
                NearbyRequestCodeStart::CodeRequired(
                    PairingChallengeState {
                        request_id: reply.request_id,
                        verification_nonce: reply.verification_nonce,
                        expires_at: reply.verification_expires_at,
                    },
                ),
            )
        } else if reply.unsupported {
            r == Ok::<NearbyRequestCodeStart, String>(
                NearbyRequestCodeStart::Unsupported { reason: reply.message },
            )
        } else {
            r is Err && r->Err_0@ == "nearby pairing request failed: "@ + reply.message@
        },
{
    if reply.code_required {
        return Ok(
            NearbyRequestCodeStart::CodeRequired(
                PairingChallengeState {
                    request_id: reply.request_id,
                    verification_nonce: reply.verification_nonce,
                    expires_at: reply.verification_expires_at,
                },
            ),
        );
    }
    if reply.unsupported {
        return Ok(NearbyRequestCodeStart::Unsupported { reason: reply.message });
    }
    Err(text::cat2("nearby pairing request failed: ", reply.message.as_str()))
}

/// The daemon's answer to a code.
#[derive(Debug)]
pub struct NearbySubmitReply {
    pub ok: bool,
    pub request_id: String,
    pub peer_machine_id: String,
    pub message: String,
}

#[derive(Debug)]
pub struct PairingSubmitResult {
    pub peer_machine_id: String,
    pub message: String,
}

/// What submitting a code came to: an answer to another request does not count.
pub fn pair_nearby_submit_code(expected_request_id: &str, reply: NearbySubmitReply) -> (r: Result<
    PairingSubmitResult,
    String,
>)
    ensures
        if !reply.ok {
            r is Err && r->Err_0@ == "nearby pairing failed: "@ + reply.message@
        } else if reply.request_id@ != expected_request_id@ {
            r is Err && r->Err_0@ == "nearby pairing request id mismatch"@
        } else {
            r == Ok::<PairingSubmitResult, String>(
                PairingSubmitResult {
                    peer_machine_id: reply.peer_machine_id,
                    message: reply.message,
                },
            )
        },
{
    if !reply.ok {
        return Err(text::cat2("nearby pairing failed: ", reply.message.as_str()));
    }
    if !text::same(reply.request_id.as_str(), expected_request_id) {
        return Err(text::owned("nearby pairing request id mismatch"));
    }
    Ok(PairingSubmitResult { peer_machine_id: reply.peer_machine_id, message: reply.message })
}

/// The alias that was entered, if it is not blank.
pub fn entered_alias(alias: &String) -> (r: Option<String>)
    ensures
        match r {
            Some(name) => text::trimmed(alias@).len() > 0 && name@ == alias@,
            None => text::trimmed(alias@).len() == 0,
        },
{
    if text::trim(alias.as_str()).as_str().is_empty() {
        None
    } else {
        Some(alias.clone())
    }
}

/// Why no discovered machine could be selected.
#[derive(Debug)]
pub enum PeerSelectError {
    IndexZero,
    NoPeerAtIndex(usize),
    EmptySelector,
    NoMatch(String),
    Ambiguous(String),
}

impl PeerSelectError {
    pub open spec fn text(self) -> Seq<char> {
        match self {
            PeerSelectError::IndexZero => "setup selector index must start at 1"@,
            PeerSelectError::NoPeerAtIndex(index) => "no discovered peer at index "@
                + text::decimal(index as nat),
            PeerSelectError::EmptySelector => "setup selector must not be empty"@,
            PeerSelectError::NoMatch(selector) => "no discovered peer matching `"@ + selector@
                + "`"@,
            PeerSelectError::Ambiguous(selector) => "multiple discovered peers match `"@ + selector@
                + "`; use full machine_id or index"@,
        }
    }

    /// The error in words.
    pub fn message(&self) -> (r: String)
        ensures
            r@ == self.text(),
    {
        match self {
            PeerSelectError::IndexZero => text::owned("setup selector index must start at 1"),
            PeerSelectError::NoPeerAtIndex(index) => text::cat2(
                "no discovered peer at index ",
                text::decimal_string(*index as u64).as_str(),
            ),
            PeerSelectError::EmptySelector => text::owned("setup selector must not be empty"),
            PeerSelectError::NoMatch(selector) => text::cat3(
                "no discovered peer matching `",
                selector.as_str(),
                "`",
            ),
            PeerSelectError::Ambiguous(selector) => text::cat3(
                "multiple discovered peers match `",
                selector.as_str(),
                "`; use full machine_id or index",
            ),
        }
    }
}

/// `peer` is meant by a selector: its id or its name begins with it, case aside.
pub open spec fn selects(peer: UiDiscoveredPeer, selector: Seq<char>) -> bool {
    let wanted = text::lowered(text::trimmed(selector));
    ||| text::starts(text::lowered(peer.machine_id@), wanted)
    ||| text::starts(text::lowered(peer.display_name@), wanted)
}

/// `at` is the only place at which `selector` means a machine.
pub open spec fn only_selected(
    peers: Seq<UiDiscoveredPeer>,
    selector: Seq<char>,
    at: int,
) -> bool {
    &&& 0 <= at < peers.len()
    &&& selects(peers[at], selector)
    &&& forall|j: int| 0 <= j < peers.len() && j != at ==> !selects(#[trigger] peers[j], selector)
}

/// The discovered machine that a selector means: a number counts from one, any
/// other text has to mean exactly one machine.
pub fn resolve_discovered_peer<'a>(
    peers: &'a Vec<UiDiscoveredPeer>,
    selector: &str,
) -> (r: Result<&'a UiDiscoveredPeer, PeerSelectError>)
    ensures
        match text::parsed(selector@, usize::MAX as nat) {
            Some(index) => if index == 0 {
                r is Err && r->Err_0 == PeerSelectError::IndexZero
            } else if index <= peers@.len() {
                r is Ok && *r->Ok_0 == peers@[index - 1]
            } else {
                r is Err && r->Err_0 == PeerSelectError::NoPeerAtIndex(index as usize)
            },
            None => if text::trimmed(selector@).len() == 0 {
                r is Err && r->Err_0 == PeerSelectError::EmptySelector
            } else {
                match r {
                    Ok(peer) => exists|at: int|
                        #[trigger] only_selected(peers@, selector@, at) && peers@[at] == *peer,
                    Err(PeerSelectError::NoMatch(named)) => named@ == selector@ && forall|j: int|
                        0 <= j < peers@.len() ==> !selects(#[trigger] peers@[j], selector@),
                    Err(PeerSelectError::Ambiguous(named)) => {
                        &&& named@ == selector@
                        &&& exists|i: int, j: int|
                            0 <= i < j < peers@.len() && selects(#[trigger] peers@[i], selector@)
                                && selects(#[trigger] peers@[j], selector@)
                    },
                    Err(_) => false,
                }
            },
        },
{
    if let Some(index) = text::parse_unsigned(selector, usize::MAX as u64) {
        if index == 0 {
            return Err(PeerSelectError::IndexZero);
        }
        let place: usize = index as usize;
        if place <= peers.len() {
            return Ok(&peers[place - 1]);
        }
        return Err(PeerSelectError::NoPeerAtIndex(place));
    }
    let normalized = text::trim(selector);
    if normalized.as_str().is_empty() {
        return Err(PeerSelectError::EmptySelector);
    }
    let wanted = text::to_lower(normalized.as_str());
    let mut found: Option<usize> = None;
    let mut i: usize = 0;
    while i < peers.len()
        invariant
            i <= peers.len(),
            wanted@ == text::lowered(text::trimmed(selector@)),
            text::parsed(selector@, usize::MAX as nat) is None,
            text::trimmed(selector@).len() > 0,
            match found {
                Some(at) => at < i && selects(peers@[at as int], selector@) && forall|j: int|
                    0 <= j < i && j != at ==> !selects(#[trigger] peers@[j], selector@),
                None => forall|j: int| 0 <= j < i ==> !selects(#[trigger] peers@[j], selector@),
            },
        decreases peers.len() - i,
    {
        let machine_id = text::to_lower(peers[i].machine_id.as_str());
        let display_name = text::to_lower(peers[i].display_name.as_str());
        let matches = text::starts_with(machine_id.as_str(), wanted.as_str()) || text::starts_with(
            display_name.as_str(),
            wanted.as_str(),
        );
        assert(matches == selects(peers@[i as int], selector@));
        if matches {
            match found {
                Some(at) => {
                    assert(selects(peers@[at as int], selector@) && selects(
                        peers@[i as int],
                        selector@,
                    ));
                    return Err(PeerSelectError::Ambiguous(text::owned(selector)));
                },
                None => {
                    found = Some(i);
                },
            }
        }
        i = i + 1;
    }
    match found {
        Some(at) => {
            assert(only_selected(peers@, selector@, at as int));
            Ok(&peers[at])
        },
        None => Err(PeerSelectError::NoMatch(text::owned(selector))),
    }
}

/// `peer` is neither this machine nor paired with it, case aside.
pub open spec fn connectable(
    peer: UiDiscoveredPeer,
    local_machine_id: Seq<char>,
    paired: Seq<UiPairedPeer>,
) -> bool {
    let id = text::lowered(peer.machine_id@);
    &&& id != text::lowered(local_machine_id)
    &&& forall|j: int|
        0 <= j < paired.len() ==> text::lowered((#[trigger] paired[j]).peer_id@) != id
}

/// `a` stands before `b` in a list of machines, or level with it: by name, case
/// aside, then by id.
pub open spec fn listed_before(a: UiDiscoveredPeer, b: UiDiscoveredPeer) -> bool {
    let x = text::lowered(a.display_name@);
    let y = text::lowered(b.display_name@);
    if x == y {
        text::text_le(a.machine_id@, b.machine_id@)
    } else {
        text::text_le(x, y)
    }
}

pub open spec fn peer_inserted(peers: Seq<UiDiscoveredPeer>, peer: UiDiscoveredPeer) -> Seq<
    UiDiscoveredPeer,
>
    decreases peers.len(),
{
    if peers.len() == 0 || listed_before(peers.last(), peer) {
        peers.push(peer)
    } else {
        peer_inserted(peers.drop_last(), peer).push(peers.last())
    }
}

/// The connectable machines among `peers`, in the order of a list.
pub open spec fn connectable_list(
    peers: Seq<UiDiscoveredPeer>,
    local_machine_id: Seq<char>,
    paired: Seq<UiPairedPeer>,
) -> Seq<UiDiscoveredPeer>
    decreases peers.len(),
{
    if peers.len() == 0 {
        peers
    } else {
        let before = connectable_list(peers.drop_last(), local_machine_id, paired);
        if connectable(peers.last(), local_machine_id, paired) {
            peer_inserted(before, peers.last())
        } else {
            before
        }
    }
}

proof fn lemma_peer_inserted_at(peers: Seq<UiDiscoveredPeer>, peer: UiDiscoveredPeer, at: int)
    requires
        0 <= at <= peers.len(),
        at > 0 ==> listed_before(peers[at - 1], peer),
        forall|i: int| at <= i < peers.len() ==> !listed_before(#[trigger] peers[i], peer),
    ensures
        peer_inserted(peers, peer) == peers.insert(at, peer),
    decreases peers.len(),
{
    if at < peers.len() {
        lemma_peer_inserted_at(peers.drop_last(), peer, at);
        assert(peers.drop_last().insert(at, peer).push(peers.last()) =~= peers.insert(at, peer));
    } else {
        assert(peers.push(peer) =~= peers.insert(at, peer));
    }
}

/// Each machine stands before those behind it.
pub open spec fn listed_in_order(peers: Seq<UiDiscoveredPeer>) -> bool {
    forall|i: int, j: int|
        0 <= i < j < peers.len() ==> listed_before(#[trigger] peers[i], #[trigger] peers[j])
}

proof fn lemma_listed_goes_on(a: UiDiscoveredPeer, b: UiDiscoveredPeer, c: UiDiscoveredPeer)
    requires
        listed_before(a, b),
        listed_before(b, c),
    ensures
        listed_before(a, c),
{
    let (x, y, z) = (
        text::lowered(a.display_name@),
        text::lowered(b.display_name@),
        text::lowered(c.display_name@),
    );
    if x == y && y == z {
        text::lemma_text_le_goes_on(a.machine_id@, b.machine_id@, c.machine_id@);
    } else if x != y && y != z {
        text::lemma_text_le_goes_on(x, y, z);
        text::lemma_text_le_total(x, y);
    }
}

proof fn lemma_peer_inserted_in_order(peers: Seq<UiDiscoveredPeer>, peer: UiDiscoveredPeer)
    requires
        listed_in_order(peers),
    ensures
        listed_in_order(peer_inserted(peers, peer)),
        peer_inserted(peers, peer).to_multiset() == peers.to_multiset().insert(peer),
    decreases peers.len(),
{
    broadcast use vstd::seq_lib::group_to_multiset_ensures;

    let all = peer_inserted(peers, peer);
    if peers.len() == 0 || listed_before(peers.last(), peer) {
        assert forall|i: int, j: int| 0 <= i < j < all.len() implies listed_before(
            #[trigger] all[i],
            #[trigger] all[j],
        ) by {
            if j == peers.len() && i < peers.len() - 1 {
                assert(listed_before(peers[i], peers[peers.len() - 1]));
                lemma_listed_goes_on(peers[i], peers.last(), peer);
            }
        }
    } else {
        let shorter = peers.drop_last();
        let inner = peer_inserted(shorter, peer);
        lemma_peer_inserted_in_order(shorter, peer);
        text::lemma_text_le_total(
            text::lowered(peers.last().display_name@),
            text::lowered(peer.display_name@),
        );
        text::lemma_text_le_total(peers.last().machine_id@, peer.machine_id@);
        assert(peers =~= shorter.push(peers.last()));
        assert(all.to_multiset() =~= peers.to_multiset().insert(peer));
        assert forall|i: int, j: int| 0 <= i < j < all.len() implies listed_before(
            #[trigger] all[i],
            #[trigger] all[j],
        ) by {
            if j == inner.len() {
                assert(inner.contains(inner[i]));
                assert(inner.to_multiset().count(inner[i]) > 0);
                if inner[i] != peer {
                    assert(shorter.to_multiset().count(inner[i]) > 0);
                    assert(shorter.contains(inner[i]));
                    let k = shorter.index_of(inner[i]);
                    assert(listed_before(peers[k], peers[peers.len() - 1]));
                }
            } else {
                assert(listed_before(inner[i], inner[j]));
            }
        }
    }
}

proof fn lemma_connectable_list(
    peers: Seq<UiDiscoveredPeer>,
    local_machine_id: Seq<char>,
    paired: Seq<UiPairedPeer>,
)
    ensures
        listed_in_order(connectable_list(peers, local_machine_id, paired)),
        rearranged(
            connectable_list(peers, local_machine_id, paired),
            peers.filter(|p: UiDiscoveredPeer| connectable(p, local_machine_id, paired)),
        ),
        forall|i: int|
            0 <= i < connectable_list(peers, local_machine_id, paired).len() ==> connectable(
                #[trigger] connectable_list(peers, local_machine_id, paired)[i],
                local_machine_id,
                paired,
            ),
    decreases peers.len(),
{
    broadcast use vstd::seq_lib::group_to_multiset_ensures;

    reveal(Seq::filter);
    if peers.len() > 0 {
        let before = connectable_list(peers.drop_last(), local_machine_id, paired);
        let list = connectable_list(peers, local_machine_id, paired);
        lemma_connectable_list(peers.drop_last(), local_machine_id, paired);
        if connectable(peers.last(), local_machine_id, paired) {
            lemma_peer_inserted_in_order(before, peers.last());
            assert forall|i: int| 0 <= i < list.len() implies connectable(
                #[trigger] list[i],
                local_machine_id,
                paired,
            ) by {
                assert(list.contains(list[i]));
                assert(list.to_multiset().count(list[i]) > 0);
                if list[i] != peers.last() {
                    assert(before.to_multiset().count(list[i]) > 0);
                    assert(before.contains(list[i]));
                    let k = before.index_of(list[i]);
                    assert(connectable(before[k], local_machine_id, paired));
                }
            }
        }
    }
}

proof fn lemma_list_stays(
    list: Seq<UiDiscoveredPeer>,
    local_machine_id: Seq<char>,
    paired: Seq<UiPairedPeer>,
)
    requires
        listed_in_order(list),
        forall|i: int|
            0 <= i < list.len() ==> connectable(#[trigger] list[i], local_machine_id, paired),
    ensures
        connectable_list(list, local_machine_id, paired) == list,
    decreases list.len(),
{
    if list.len() > 0 {
        let shorter = list.drop_last();
        assert forall|i: int| 0 <= i < shorter.len() implies connectable(
            #[trigger] shorter[i],
            local_machine_id,
            paired,
        ) by {
            assert(connectable(list[i], local_machine_id, paired));
        }
        lemma_list_stays(shorter, local_machine_id, paired);
        assert(connectable(list[list.len() - 1], local_machine_id, paired));
        if shorter.len() > 0 {
            assert(listed_before(list[list.len() - 2], list[list.len() - 1]));
        }
        assert(shorter.push(list.last()) =~= list);
    }
}

/// The list of machines that can be connected holds exactly those of the discovered
/// ones that can be, each as often as it was discovered, and is in order. Listing
/// the list again changes nothing.
pub proof fn law_list_holds_the_connectable_in_order(
    peers: Seq<UiDiscoveredPeer>,
    local_machine_id: Seq<char>,
    paired: Seq<UiPairedPeer>,
)
    ensures
        ({
            let list = connectable_list(peers, local_machine_id, paired);
            &&& rearranged(
                list,
                peers.filter(|p: UiDiscoveredPeer| connectable(p, local_machine_id, paired)),
            )
            &&& listed_in_order(list)
            &&& connectable_list(list, local_machine_id, paired) == list
        }),
{
    lemma_connectable_list(peers, local_machine_id, paired);
    lemma_list_stays(
        connectable_list(peers, local_machine_id, paired),
        local_machine_id,
        paired,
    );
}

fn is_listed_before(a: &UiDiscoveredPeer, b: &UiDiscoveredPeer) -> (r: bool)
    ensures
        r == listed_before(*a, *b),
{
    let x = text::to_lower(a.display_name.as_str());
    let y = text::to_lower(b.display_name.as_str());
    if text::same(x.as_str(), y.as_str()) {
        text::at_most(a.machine_id.as_str(), b.machine_id.as_str())
    } else {
        text::at_most(x.as_str(), y.as_str())
    }
}

fn is_connectable(
    peer: &UiDiscoveredPeer,
    local_machine_id: &str,
    paired_peers: &Vec<UiPairedPeer>,
) -> (r: bool)
    ensures
        r == connectable(*peer, local_machine_id@, paired_peers@),
{
    if text::same_ignoring_case(peer.machine_id.as_str(), local_machine_id) {
        return false;
    }
    let mut j: usize = 0;
    while j < paired_peers.len()
        invariant
            j <= paired_peers.len(),
            text::lowered(peer.machine_id@) != text::lowered(local_machine_id@),
            forall|k: int|
                0 <= k < j ==> text::lowered((#[trigger] paired_peers@[k]).peer_id@)
                    != text::lowered(peer.machine_id@),
        decreases paired_peers.len() - j,
    {
        if text::same_ignoring_case(paired_peers[j].peer_id.as_str(), peer.machine_id.as_str()) {
            return false;
        }
        j = j + 1;
    }
    true
}

/// The discovered machines that can be connected: this one and the paired ones
/// are left out, the rest is in the order of a list.
pub fn filter_connectable_discovered_peers(
    discovered_peers: Vec<UiDiscoveredPeer>,
    local_machine_id: &str,
    paired_peers: &Vec<UiPairedPeer>,
) -> (r: Vec<UiDiscoveredPeer>)
    ensures
        r@ == connectable_list(discovered_peers@, local_machine_id@, paired_peers@),
{
    let ghost all = discovered_peers@;
    let count: usize = discovered_peers.len();
    let mut rest = discovered_peers;
    let mut out: Vec<UiDiscoveredPeer> = Vec::new();
    let mut i: usize = 0;
    assert(out@ =~= connectable_list(all.take(0), local_machine_id@, paired_peers@));
    while i < count
        invariant
            i <= count == all.len(),
            rest@ == all.subrange(i as int, count as int),
            out@ == connectable_list(all.take(i as int), local_machine_id@, paired_peers@),
        decreases count - i,
    {
        let peer = rest.remove(0);
        proof {
            assert(peer == all[i as int]);
            assert(all.take(i + 1).drop_last() =~= all.take(i as int));
            assert(rest@ =~= all.subrange(i + 1, count as int));
        }
        if is_connectable(&peer, local_machine_id, paired_peers) {
            let mut at: usize = out.len();
            while at > 0 && !is_listed_before(&out[at - 1], &peer)
                invariant
                    at <= out.len(),
                    forall|j: int|
                        at <= j < out.len() ==> !listed_before(#[trigger] out@[j], peer),
                decreases at,
            {
                at = at - 1;
            }
            proof {
                lemma_peer_inserted_at(out@, peer, at as int);
            }
            out.insert(at, peer);
        }
        i = i + 1;
    }
    assert(all.take(i as int) =~= all);
    out
}

/// How many attempts a failure leaves: the number behind the first
/// `attempts_remaining=`, where it fits in a byte.
pub open spec fn failure_attempts(message: Seq<char>) -> Option<nat> {
    match text::after_first(message, "attempts_remaining="@) {
        Some(rest) => text::parsed(text::leading_digits(rest), u8::MAX as nat),
        None => None,
    }
}

/// How many attempts a failure leaves, where it says so.
pub fn extract_attempts_remaining(message: &str) -> (r: Option<u8>)
    ensures
        match r {
            Some(n) => failure_attempts(message@) == Some(n as nat),
            None => failure_attempts(message@) is None,
        },
{
    match text::rest_after(message, "attempts_remaining=") {
        None => None,
        Some(rest) => {
            let digits = text::take_digits(rest.as_str());
            match text::parse_unsigned(digits.as_str(), 255) {
                Some(n) => Some(n as u8),
                None => None,
            }
        },
    }
}

/// The port that an endpoint names behind its last colon; zero is none.
pub open spec fn named_port(endpoint: Seq<char>) -> Option<nat> {
    match text::last_char_at(endpoint, ':') {
        Some(at) => {
            let port = text::parsed(endpoint.skip(at + 1), u16::MAX as nat);
            if port is Some && port->0 > 0 {
                port
            } else {
                None
            }
        },
        None => None,
    }
}

/// The port of the other machine that a failure names: that of the word behind
/// the first `nearby pairing endpoint `.
pub open spec fn failure_port(message: Seq<char>) -> Option<nat> {
    match text::after_first(message, "nearby pairing endpoint "@) {
        Some(rest) => match text::first_word(rest) {
            Some(endpoint) => named_port(endpoint),
            None => None,
        },
        None => None,
    }
}

/// The port of the other machine that a failure names, if it names one.
pub fn extract_pairing_error_remote_port(message: &str) -> (r: Option<u16>)
    ensures
        match r {
            Some(port) => failure_port(message@) == Some(port as nat),
            None => failure_port(message@) is None,
        },
{
    let endpoint = match text::rest_after(message, "nearby pairing endpoint ") {
        None => {
            return None;
        },
        Some(rest) => match text::word(rest.as_str()) {
            None => {
                return None;
            },
            Some(endpoint) => endpoint,
        },
    };
    match text::rfind_char(endpoint.as_str(), ':') {
        None => None,
        Some(colon) => {
            let raw = text::suffix(endpoint.as_str(), colon + 1);
            match text::parse_unsigned(raw.as_str(), 65535) {
                Some(port) => {
                    if port > 0 {
                        Some(port as u16)
                    } else {
                        None
                    }
                },
                None => None,
            }
        },
    }
}

/// What a failure of a pairing asks the user to do.
#[derive(Debug, Clone, Copy, PartialEq, Eq, Structural)]
pub enum PairingAdvice {
    RetryCode,
    WaitForLockout,
    Stale,
    Rejected,
    NotApproved,
    RateLimited,
    NoResponse,
    Unreachable,
    Unknown,
}

/// The advice that the words of a failure call for; the first that fits counts.
pub open spec fn advice_for(message: Seq<char>) -> PairingAdvice {
    let m = text::lowered(message);
    if text::occurs(m, "attempts_remaining="@) {
        PairingAdvice::RetryCode
    } else if text::occurs(m, "temporarily locked"@) {
        PairingAdvice::WaitForLockout
    } else if text::occurs(m, "verification nonce is invalid"@) || text::occurs(
        m,
        "verification code and nonce are invalid"@,
    ) {
        PairingAdvice::Stale
    } else if text::occurs(m, "pairing request rejected"@) {
        PairingAdvice::Rejected
    } else if text::occurs(m, "timed out waiting for nearby pairing approval"@) {
        PairingAdvice::NotApproved
    } else if text::occurs(m, "nearby code request rate limited"@) {
        PairingAdvice::RateLimited
    } else if text::occurs(m, "nearby pairing endpoint closed without a response"@) {
        PairingAdvice::NoResponse
    } else if text::occurs(m, "read nearby pairing response timed out"@) || text::occurs(
        m,
        "connect nearby pairing endpoint"@,
    ) || text::occurs(m, "send nearby pairing request timed out"@) {
        PairingAdvice::Unreachable
    } else {
        PairingAdvice::Unknown
    }
}

/// The advice that the words of a failure call for.
pub fn pairing_advice(message: &str) -> (r: PairingAdvice)
    ensures
        r == advice_for(message@),
{
    let lower = text::to_lower(message);
    let m = lower.as_str();
    if text::contains(m, "attempts_remaining=") {
        PairingAdvice::RetryCode
    } else if text::contains(m, "temporarily locked") {
        PairingAdvice::WaitForLockout
    } else if text::contains(m, "verification nonce is invalid") || text::contains(
        m,
        "verification code and nonce are invalid",
    ) {
        PairingAdvice::Stale
    } else if text::contains(m, "pairing request rejected") {
        PairingAdvice::Rejected
    } else if text::contains(m, "timed out waiting for nearby pairing approval") {
        PairingAdvice::NotApproved
    } else if text::contains(m, "nearby code request rate limited") {
        PairingAdvice::RateLimited
    } else if text::contains(m, "nearby pairing endpoint closed without a response") {
        PairingAdvice::NoResponse
    } else if text::contains(m, "read nearby pairing response timed out") || text::contains(
        m,
        "connect nearby pairing endpoint",
    ) || text::contains(m, "send nearby pairing request timed out") {
        PairingAdvice::Unreachable
    } else {
        PairingAdvice::Unknown
    }
}

/// What is added to a failure for the user.
pub open spec fn advice_text(message: Seq<char>) -> Seq<char> {
    match advice_for(message) {
        PairingAdvice::RetryCode =>
            "\n\nCode confirmation failed.\nDouble-check the 6-digit code and retry."@ + (
            match failure_attempts(message) {
                Some(n) => "\nAttempts remaining: "@ + text::decimal(n) + "."@,
                None => ""@,
            }),
        PairingAdvice::WaitForLockout =>
            "\n\nToo many invalid attempts were submitted.\nWait for lockout to expire, then start a new pairing request."@,
        PairingAdvice::Stale =>
            "\n\nThis pairing request is stale or mismatched.\nStart a new request and enter the fresh code from the target machine."@,
        PairingAdvice::Rejected =>
            "\n\nThe target rejected the request.\nStart a new pairing request from the tray and confirm on the target machine."@,
        PairingAdvice::NotApproved =>
            "\n\nThe target did not approve in time.\nStart a new pairing request and approve it on the target before timeout."@,
        PairingAdvice::RateLimited =>
            "\n\nCode requests are briefly rate-limited.\nWait a few seconds and retry."@,
        PairingAdvice::NoResponse =>
            "\n\nThe remote pairing service did not respond.\nVerify both trays are updated and retry."@,
        PairingAdvice::Unreachable =>
            "\n\nThe remote pairing service was discovered, but"@ + (match failure_port(message) {
                Some(port) => " TCP "@ + text::decimal(port),
                None => " the nearby pairing TCP port"@,
            })
                + " was not reachable or did not respond.\nVerify both machines are on a trusted Private network. If a firewall rule is needed, make it a manual, admin-approved Private-profile rule scoped to %ProgramFiles%\\Boundless\\boundless-service.exe. Transport also needs TCP 15100 after trust is established."@,
        PairingAdvice::Unknown => ""@,
    }
}

/// A failure as the pairing dialog shows it: its own words, then what to do.
pub fn format_error_for_dialog(message: &str) -> (r: String)
    ensures
        r@ == message@ + advice_text(message@),
{
    let mut out = text::owned(message);
    match pairing_advice(message) {
        PairingAdvice::RetryCode => {
            let mut extra = text::owned(
                "\n\nCode confirmation failed.\nDouble-check the 6-digit code and retry.",
            );
            let attempts = extract_attempts_remaining(message);
            let tail = match attempts {
                Some(n) => text::cat3(
                    "\nAttempts remaining: ",
                    text::decimal_string(n as u64).as_str(),
                    ".",
                ),
                None => text::owned(""),
            };
            extra.append(tail.as_str());
            out.append(extra.as_str());
        },
        PairingAdvice::WaitForLockout => {
            out.append(
                "\n\nToo many invalid attempts were submitted.\nWait for lockout to expire, then start a new pairing request.",
            );
        },
        PairingAdvice::Stale => {
            out.append(
                "\n\nThis pairing request is stale or mismatched.\nStart a new request and enter the fresh code from the target machine.",
            );
        },
        PairingAdvice::Rejected => {
            out.append(
                "\n\nThe target rejected the request.\nStart a new pairing request from the tray and confirm on the target machine.",
            );
        },
        PairingAdvice::NotApproved => {
            out.append(
                "\n\nThe target did not approve in time.\nStart a new pairing request and approve it on the target before timeout.",
            );
        },
        PairingAdvice::RateLimited => {
            out.append(
                "\n\nCode requests are briefly rate-limited.\nWait a few seconds and retry.",
            );
        },
        PairingAdvice::NoResponse => {
            out.append(
                "\n\nThe remote pairing service did not respond.\nVerify both trays are updated and retry.",
            );
        },
        PairingAdvice::Unreachable => {
            let port = match extract_pairing_error_remote_port(message) {
                Some(port) => text::cat2(" TCP ", text::decimal_string(port as u64).as_str()),
                None => text::owned(" the nearby pairing TCP port"),
            };
            let extra = text::cat3(
                "\n\nThe remote pairing service was discovered, but",
                port.as_str(),
                " was not reachable or did not respond.\nVerify both machines are on a trusted Private network. If a firewall rule is needed, make it a manual, admin-approved Private-profile rule scoped to %ProgramFiles%\\Boundless\\boundless-service.exe. Transport also needs TCP 15100 after trust is established.",
            );
            out.append(extra.as_str());
        },
        PairingAdvice::Unknown => {
            out.append("");
        },
    }
    out
}

/// A new request may succeed where this one failed.
pub open spec fn retry_may_help(message: Seq<char>) -> bool {
    let m = text::lowered(message);
    ||| text::occurs(m, "pairing request rejected"@)
    ||| text::occurs(m, "verification code expired"@)
    ||| text::occurs(m, "timed out waiting for nearby pairing approval"@)
    ||| text::occurs(m, "nearby pairing request not found"@)
    ||| text::occurs(m, "nearby pairing endpoint closed without a response"@)
    ||| text::occurs(m, "read nearby pairing response timed out"@)
    ||| text::occurs(m, "connect nearby pairing endpoint"@)
    ||| text::occurs(m, "send nearby pairing request timed out"@)
}

pub fn should_offer_new_request_retry(message: &str) -> (r: bool)
    ensures
        r == retry_may_help(message@),
{
    let lower = text::to_lower(message);
    let m = lower.as_str();
    text::contains(m, "pairing request rejected") || text::contains(m, "verification code expired")
        || text::contains(m, "timed out waiting for nearby pairing approval") || text::contains(
        m,
        "nearby pairing request not found",
    ) || text::contains(m, "nearby pairing endpoint closed without a response") || text::contains(
        m,
        "read nearby pairing response timed out",
    ) || text::contains(m, "connect nearby pairing endpoint") || text::contains(
        m,
        "send nearby pairing request timed out",
    )
}

/// What is shown of the code of a machine that asks to pair: its code and when it
/// expires, where it has to be entered. A code that this endpoint does not get to
/// see is said to be hidden.
pub fn request_code_lines(request: &UiPendingRequest) -> (r: Option<(String, String)>)
    ensures
        r is Some <==> request.requires_verification_code,
        r matches Some((code, expires)) ==> if text::trimmed(
            request.verification_code@,
        ).len() == 0 {
            code@ == "Code: hidden on this endpoint"@ && expires@
                == "Expires: hidden on this endpoint"@
        } else {
            code@ == "Code: "@ + request.verification_code@ && expires@ == "Expires: "@
                + request.verification_expires_at@
        },
{
    if !request.requires_verification_code {
        return None;
    }
    if text::trim(request.verification_code.as_str()).as_str().is_empty() {
        return Some(
            (
                text::owned("Code: hidden on this endpoint"),
                text::owned("Expires: hidden on this endpoint"),
            ),
        );
    }
    Some(
        (
            text::cat2("Code: ", request.verification_code.as_str()),
            text::cat2("Expires: ", request.verification_expires_at.as_str()),
        ),
    )
}

} // verus!
